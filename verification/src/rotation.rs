use vstd::prelude::*;

use crate::date::{spec_stamp, Date};
use crate::sink::{spec_file_name, SinkConfig};

verus! {

/// The single background scheduler's state: the stamp date it last
/// observed. All registered sinks rotate together when it changes.
#[derive(Clone, Copy, Debug, PartialEq, Eq, Structural)]
pub struct RotationScheduler {
    pub last: Date,
}

/// One poll tick over the scheduler state: rotate exactly when the
/// observed date differs from the last one, and remember the new date.
pub open spec fn spec_day_changed(s: RotationScheduler, today: Date) -> (bool, RotationScheduler) {
    (today != s.last, RotationScheduler { last: today })
}

impl RotationScheduler {
    /// A scheduler that has just observed the given date.
    pub fn new(today: Date) -> (s: Self)
        ensures
            s.last == today,
    {
        RotationScheduler { last: today }
    }

    /// One poll tick: reports whether the calendar day changed since the
    /// last tick, and records the date it saw.
    pub fn day_changed(&mut self, today: &Date) -> (rotate: bool)
        ensures
            (rotate, *final(self)) == spec_day_changed(*old(self), *today),
            rotate == (*today != old(self).last),
            final(self).last == *today,
    {
        let changed = !(self.last == *today);
        self.last = *today;
        changed
    }
}

/// Law: within one calendar day rotation happens at most once. A tick
/// that observes the same date the previous tick recorded reports no
/// rotation and leaves the scheduler state as it was.
pub proof fn lemma_rotation_idempotent(s: RotationScheduler, today: Date)
    ensures
        ({
            let (first, s1) = spec_day_changed(s, today);
            let (second, s2) = spec_day_changed(s1, today);
            &&& !second
            &&& s2 == s1
        }),
{
}

/// The file names every registered sink must be repointed to for the
/// given date: element by element, each sink's own name rule applied to
/// the one shared stamp.
pub fn plan_rotation(sinks: &Vec<SinkConfig>, today: &Date) -> (names: Vec<String>)
    requires
        today.wf(),
    ensures
        names@.len() == sinks@.len(),
        forall|i: int|
            0 <= i < sinks@.len() ==> names@[i]@ == spec_file_name(
                sinks@[i].folder@,
                sinks@[i].prefix@,
                spec_stamp(*today),
                sinks@[i].extension@,
            ),
{
    let mut names: Vec<String> = Vec::new();
    let mut i: usize = 0;
    while i < sinks.len()
        invariant
            0 <= i <= sinks@.len(),
            names@.len() == i,
            today.wf(),
            forall|k: int|
                0 <= k < i ==> names@[k]@ == spec_file_name(
                    sinks@[k].folder@,
                    sinks@[k].prefix@,
                    spec_stamp(*today),
                    sinks@[k].extension@,
                ),
        decreases sinks@.len() - i,
    {
        let name = sinks[i].file_name(today);
        names.push(name);
        i = i + 1;
    }
    names
}

} // verus!
