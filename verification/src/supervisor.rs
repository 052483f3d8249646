use vstd::prelude::*;

use crate::router::{classify, spec_classify, ConnectionConfig};

verus! {

/// Where one connection's lifecycle stands: opening the websocket,
/// streaming frames, or waiting out the fixed reconnect delay.
#[derive(Clone, Copy, Debug, PartialEq, Eq, Structural)]
pub enum Phase {
    Connecting,
    Connected,
    Waiting,
}

/// What the outside world reports to the supervisor.
#[derive(Clone, Debug)]
pub enum Event {
    /// The websocket handshake completed.
    Opened,
    /// A text frame arrived.
    Frame(String),
    /// The peer closed the connection.
    Closed,
    /// A transport or handshake error occurred.
    TransportError,
    /// The fixed reconnect delay ran out.
    DelayElapsed,
}

/// What the supervisor asks the outside world to do.
#[derive(Clone, Debug, PartialEq, Eq)]
pub enum Command {
    /// Open the websocket to this connection's target.
    OpenConnection,
    /// Start the fixed reconnect delay.
    StartDelay,
    /// Append this raw message to the assigned sink.
    AppendLine(String),
    /// Echo this raw message to the console.
    PrintLine(String),
}

/// The commands one received frame produces: an append when the
/// classification persists it, then an echo when it prints it.
pub open spec fn spec_frame_commands(m: String, c: ConnectionConfig) -> Seq<Command> {
    let a = spec_classify(m@, c);
    (if a.to_file {
        seq![Command::AppendLine(m)]
    } else {
        Seq::<Command>::empty()
    }) + (if a.to_console {
        seq![Command::PrintLine(m)]
    } else {
        Seq::<Command>::empty()
    })
}

/// One transition of the connection lifecycle. A close or error in any
/// active phase starts exactly one delay; an elapsed delay issues
/// exactly one reconnect; a frame while connected is classified and
/// acted on; anything else is ignored.
pub open spec fn spec_step(s: Supervisor, e: Event) -> (Phase, Seq<Command>) {
    match (s.phase, e) {
        (Phase::Connecting, Event::Opened) => (Phase::Connected, Seq::<Command>::empty()),
        (Phase::Connecting, Event::Closed) => (Phase::Waiting, seq![Command::StartDelay]),
        (Phase::Connecting, Event::TransportError) => (Phase::Waiting, seq![Command::StartDelay]),
        (Phase::Connected, Event::Frame(m)) => (Phase::Connected, spec_frame_commands(m, s.config)),
        (Phase::Connected, Event::Closed) => (Phase::Waiting, seq![Command::StartDelay]),
        (Phase::Connected, Event::TransportError) => (Phase::Waiting, seq![Command::StartDelay]),
        (Phase::Waiting, Event::DelayElapsed) => (Phase::Connecting, seq![Command::OpenConnection]),
        (p, _) => (p, Seq::<Command>::empty()),
    }
}

/// The per-connection worker, as a state machine from events to
/// commands. The caller performs the commands and feeds back what the
/// transport reports.
#[derive(Clone, Debug)]
pub struct Supervisor {
    pub phase: Phase,
    pub config: ConnectionConfig,
}

impl Supervisor {
    /// A supervisor that is about to open its first connection.
    pub fn new(config: ConnectionConfig) -> (s: Self)
        ensures
            s.phase == Phase::Connecting,
            s.config == config,
    {
        Supervisor { phase: Phase::Connecting, config }
    }

    /// Feeds one event through the lifecycle and returns the commands to
    /// perform, in order.
    pub fn step(&mut self, event: Event) -> (cmds: Vec<Command>)
        ensures
            final(self).config == old(self).config,
            (final(self).phase, cmds@) == spec_step(*old(self), event),
    {
        let mut cmds: Vec<Command> = Vec::new();
        match (self.phase, event) {
            (Phase::Connecting, Event::Opened) => {
                self.phase = Phase::Connected;
            },
            (Phase::Connecting, Event::Closed) => {
                self.phase = Phase::Waiting;
                cmds.push(Command::StartDelay);
            },
            (Phase::Connecting, Event::TransportError) => {
                self.phase = Phase::Waiting;
                cmds.push(Command::StartDelay);
            },
            (Phase::Connected, Event::Frame(m)) => {
                let a = classify(m.as_str(), &self.config);
                if a.to_file {
                    cmds.push(Command::AppendLine(m.clone()));
                }
                if a.to_console {
                    cmds.push(Command::PrintLine(m));
                }
                proof {
                    assert(cmds@ =~= spec_frame_commands(m, old(self).config));
                }
            },
            (Phase::Connected, Event::Closed) => {
                self.phase = Phase::Waiting;
                cmds.push(Command::StartDelay);
            },
            (Phase::Connected, Event::TransportError) => {
                self.phase = Phase::Waiting;
                cmds.push(Command::StartDelay);
            },
            (Phase::Waiting, Event::DelayElapsed) => {
                self.phase = Phase::Connecting;
                cmds.push(Command::OpenConnection);
            },
            _ => {},
        }
        proof {
            assert(cmds@ =~= spec_step(*old(self), event).1);
        }
        cmds
    }
}

/// The supervisor driven over a whole sequence of events: the final
/// state and all commands issued, in order.
pub open spec fn spec_run(s: Supervisor, events: Seq<Event>) -> (Supervisor, Seq<Command>)
    decreases events.len(),
{
    if events.len() == 0 {
        (s, Seq::<Command>::empty())
    } else {
        let (p1, c1) = spec_step(s, events[0]);
        let s1 = Supervisor { phase: p1, config: s.config };
        let (s2, c2) = spec_run(s1, events.drop_first());
        (s2, c1 + c2)
    }
}

/// `n` repetitions of a sequence, back to back.
pub open spec fn spec_repeat<T>(e: Seq<T>, n: nat) -> Seq<T>
    decreases n,
{
    if n == 0 {
        Seq::<T>::empty()
    } else {
        e + spec_repeat(e, (n - 1) as nat)
    }
}

/// Law: the retry policy never gives up. From either active phase,
/// any number of close/delay cycles produces exactly one started delay
/// and exactly one reconnect per cycle — no more, no fewer — and ends
/// back at the connecting phase, ready for the next cycle.
pub proof fn lemma_reconnect_forever(s: Supervisor, n: nat)
    requires
        s.phase == Phase::Connecting || s.phase == Phase::Connected,
    ensures
        ({
            let cycle = seq![Event::Closed, Event::DelayElapsed];
            let (end, cmds) = spec_run(s, spec_repeat(cycle, n));
            &&& cmds == spec_repeat(seq![Command::StartDelay, Command::OpenConnection], n)
            &&& end.config == s.config
            &&& end.phase == (if n == 0 {
                s.phase
            } else {
                Phase::Connecting
            })
        }),
    decreases n,
{
    let cycle = seq![Event::Closed, Event::DelayElapsed];
    let out = spec_repeat(seq![Command::StartDelay, Command::OpenConnection], n);
    if n == 0 {
        assert(spec_repeat(cycle, 0) =~= Seq::<Event>::empty());
        assert(spec_run(s, spec_repeat(cycle, 0)).1 =~= out);
    } else {
        let events = spec_repeat(cycle, n);
        assert(events == cycle + spec_repeat(cycle, (n - 1) as nat));
        assert(events[0] == Event::Closed);
        let (p1, c1) = spec_step(s, Event::Closed);
        let s1 = Supervisor { phase: p1, config: s.config };
        assert(p1 == Phase::Waiting);
        let rest1 = events.drop_first();
        assert(rest1[0] == Event::DelayElapsed);
        let (p2, c2) = spec_step(s1, Event::DelayElapsed);
        let s2 = Supervisor { phase: p2, config: s1.config };
        assert(p2 == Phase::Connecting);
        let rest2 = rest1.drop_first();
        assert(rest2 =~= spec_repeat(cycle, (n - 1) as nat));
        lemma_reconnect_forever(s2, (n - 1) as nat);
        let tail_cmds = spec_run(s2, spec_repeat(cycle, (n - 1) as nat)).1;
        assert(spec_run(s, events).1 == c1 + spec_run(s1, rest1).1);
        assert(spec_run(s1, rest1).1 == c2 + spec_run(s2, rest2).1);
        assert(spec_run(s2, rest2) == spec_run(s2, spec_repeat(cycle, (n - 1) as nat)));
        assert(c1 + (c2 + tail_cmds) =~= seq![Command::StartDelay, Command::OpenConnection]
            + tail_cmds);
        assert(spec_run(s, events).1 =~= out);
        assert(spec_run(s, events).0 == spec_run(s2, rest2).0);
    }
}

/// Law: from either active phase, a close leads to exactly one started
/// delay and no reconnect; when that delay elapses, exactly one
/// reconnect is issued and the cycle is back at the connecting phase.
/// Nothing in the cycle terminates the supervisor.
pub proof fn lemma_reconnect_cycle(s: Supervisor)
    requires
        s.phase == Phase::Connecting || s.phase == Phase::Connected,
    ensures
        ({
            let (p1, c1) = spec_step(s, Event::Closed);
            let after_close = Supervisor { phase: p1, config: s.config };
            let (p2, c2) = spec_step(after_close, Event::DelayElapsed);
            &&& p1 == Phase::Waiting
            &&& c1 =~= seq![Command::StartDelay]
            &&& p2 == Phase::Connecting
            &&& c2 =~= seq![Command::OpenConnection]
        }),
{
}

} // verus!
