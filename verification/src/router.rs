use vstd::prelude::*;
use vstd::string::StrSliceExecFns;
use vstd::string::StringExecFns;

verus! {

/// Whitespace for token splitting: the characters with the Unicode
/// White_Space property — ASCII whitespace including vertical tab and
/// form feed, next line, no-break space, ogham space mark, the en-quad
/// through hair-space range, the line and paragraph separators, narrow
/// no-break space, medium mathematical space and ideographic space.
pub open spec fn is_space(c: char) -> bool {
    let n = c as int;
    ||| n == 0x09
    ||| n == 0x0A
    ||| n == 0x0B
    ||| n == 0x0C
    ||| n == 0x0D
    ||| n == 0x20
    ||| n == 0x85
    ||| n == 0xA0
    ||| n == 0x1680
    ||| (0x2000 <= n && n <= 0x200A)
    ||| n == 0x2028
    ||| n == 0x2029
    ||| n == 0x202F
    ||| n == 0x205F
    ||| n == 0x3000
}

fn is_space_char(c: char) -> (r: bool)
    ensures
        r == is_space(c),
{
    let n = c as u32;
    n == 0x09 || n == 0x0A || n == 0x0B || n == 0x0C || n == 0x0D || n == 0x20 || n == 0x85
        || n == 0xA0 || n == 0x1680 || (0x2000 <= n && n <= 0x200A) || n == 0x2028 || n == 0x2029
        || n == 0x202F || n == 0x205F || n == 0x3000
}

/// The text with its leading whitespace removed.
pub open spec fn skip_spaces(s: Seq<char>) -> Seq<char>
    decreases s.len(),
{
    if s.len() > 0 && is_space(s[0]) {
        skip_spaces(s.drop_first())
    } else {
        s
    }
}

/// The maximal run of non-whitespace characters at the front of the text.
pub open spec fn leading_token(s: Seq<char>) -> Seq<char>
    decreases s.len(),
{
    if s.len() > 0 && !is_space(s[0]) {
        seq![s[0]] + leading_token(s.drop_first())
    } else {
        Seq::<char>::empty()
    }
}

/// The message-type token: the first whitespace-delimited word of a raw
/// message, empty when the message is empty or all whitespace.
pub open spec fn spec_type_token(s: Seq<char>) -> Seq<char> {
    leading_token(skip_spaces(s))
}

proof fn lemma_skip_spaces_prefix(s: Seq<char>, k: int)
    requires
        0 <= k <= s.len(),
        forall|i: int| 0 <= i < k ==> is_space(#[trigger] s[i]),
        k == s.len() || !is_space(s[k]),
    ensures
        skip_spaces(s) == s.subrange(k, s.len() as int),
    decreases k,
{
    if k == 0 {
        assert(skip_spaces(s) =~= s.subrange(0, s.len() as int));
    } else {
        let t = s.drop_first();
        assert(forall|i: int| 0 <= i < k - 1 ==> is_space(#[trigger] t[i]));
        lemma_skip_spaces_prefix(t, k - 1);
        assert(t.subrange(k - 1, t.len() as int) =~= s.subrange(k, s.len() as int));
    }
}

proof fn lemma_leading_token_prefix(s: Seq<char>, k: int)
    requires
        0 <= k <= s.len(),
        forall|i: int| 0 <= i < k ==> !is_space(#[trigger] s[i]),
        k == s.len() || is_space(s[k]),
    ensures
        leading_token(s) == s.subrange(0, k),
    decreases k,
{
    if k == 0 {
        assert(leading_token(s) =~= s.subrange(0, 0));
    } else {
        let t = s.drop_first();
        assert(forall|i: int| 0 <= i < k - 1 ==> !is_space(#[trigger] t[i]));
        lemma_leading_token_prefix(t, k - 1);
        assert(seq![s[0]] + t.subrange(0, k - 1) =~= s.subrange(0, k));
    }
}

/// Extracts the message-type token of a raw message.
pub fn type_token(msg: &str) -> (t: String)
    ensures
        t@ == spec_type_token(msg@),
{
    let n = msg.unicode_len();
    let mut i: usize = 0;
    while i < n && is_space_char(msg.get_char(i))
        invariant
            0 <= i <= n,
            n == msg@.len(),
            forall|j: int| 0 <= j < i ==> is_space(#[trigger] msg@[j]),
        decreases n - i,
    {
        i = i + 1;
    }
    proof {
        lemma_skip_spaces_prefix(msg@, i as int);
    }
    let mut j: usize = i;
    while j < n && !is_space_char(msg.get_char(j))
        invariant
            i <= j <= n,
            n == msg@.len(),
            forall|k: int| i <= k < j ==> !is_space(#[trigger] msg@[k]),
        decreases n - j,
    {
        j = j + 1;
    }
    proof {
        let rest = msg@.subrange(i as int, n as int);
        assert(forall|k: int| 0 <= k < j - i ==> !is_space(#[trigger] rest[k]));
        lemma_leading_token_prefix(rest, j - i);
        assert(rest.subrange(0, j - i) =~= msg@.subrange(i as int, j as int));
    }
    let sub = msg.substring_char(i, j);
    String::from_str(sub)
}

/// Whether a token is a member of a filter list.
pub open spec fn in_filters(t: Seq<char>, fs: Seq<String>) -> bool {
    exists|i: int| 0 <= i < fs.len() && fs[i]@ == t
}

fn contains_token(fs: &Vec<String>, t: &String) -> (r: bool)
    ensures
        r == in_filters(t@, fs@),
{
    let mut k: usize = 0;
    while k < fs.len()
        invariant
            0 <= k <= fs.len(),
            forall|i: int| 0 <= i < k ==> fs@[i]@ != t@,
        decreases fs.len() - k,
    {
        let e = &fs[k];
        if e.eq(t) {
            return true;
        }
        k = k + 1;
    }
    false
}

/// A connection's filter configuration: either the sentinel that listens
/// to everything, or a finite list of message-type tokens.
#[derive(Clone, Debug)]
pub enum Filter {
    Everything,
    Tokens(Vec<String>),
}

/// The immutable per-connection configuration built once at startup.
#[derive(Clone, Debug)]
pub struct ConnectionConfig {
    pub filter: Filter,
    pub print_all: bool,
    pub print_logged: bool,
}

/// What to do with one message: persist it, echo it to the console,
/// both, or neither.
#[derive(Clone, Copy, Debug, PartialEq, Eq, Structural)]
pub struct Action {
    pub to_file: bool,
    pub to_console: bool,
}

/// The classification rule. Under the sentinel everything is persisted
/// and echoed per the print-all flag; under a finite filter a message is
/// persisted exactly when its type token is listed, echoed per the
/// print-logged flag when it is and per the print-all flag when not.
pub open spec fn spec_classify(msg: Seq<char>, c: ConnectionConfig) -> Action {
    match c.filter {
        Filter::Everything => Action { to_file: true, to_console: c.print_all },
        Filter::Tokens(fs) => {
            if in_filters(spec_type_token(msg), fs@) {
                Action { to_file: true, to_console: c.print_logged }
            } else {
                Action { to_file: false, to_console: c.print_all }
            }
        },
    }
}

/// Classifies one raw message against a connection's configuration.
pub fn classify(msg: &str, c: &ConnectionConfig) -> (a: Action)
    ensures
        a == spec_classify(msg@, *c),
{
    match &c.filter {
        Filter::Everything => Action { to_file: true, to_console: c.print_all },
        Filter::Tokens(fs) => {
            let t = type_token(msg);
            if contains_token(fs, &t) {
                Action { to_file: true, to_console: c.print_logged }
            } else {
                Action { to_file: false, to_console: c.print_all }
            }
        },
    }
}

/// Law: under the sentinel filter every message is persisted, and the
/// console echo follows the print-all flag alone.
pub proof fn lemma_sentinel_filter(msg: Seq<char>, print_all: bool, print_logged: bool)
    ensures
        ({
            let c = ConnectionConfig { filter: Filter::Everything, print_all, print_logged };
            spec_classify(msg, c) == (Action { to_file: true, to_console: print_all })
        }),
{
}

/// Law: under a finite filter set a message is persisted exactly when
/// its type token is in the set; when it is, the echo follows the
/// print-logged flag, and otherwise the print-all flag.
pub proof fn lemma_finite_filter(
    msg: Seq<char>,
    filters: Vec<String>,
    print_all: bool,
    print_logged: bool,
)
    ensures
        ({
            let c = ConnectionConfig {
                filter: Filter::Tokens(filters),
                print_all,
                print_logged,
            };
            let a = spec_classify(msg, c);
            let listed = in_filters(spec_type_token(msg), filters@);
            &&& a.to_file == listed
            &&& (listed ==> a.to_console == print_logged)
            &&& (!listed ==> a.to_console == print_all)
        }),
{
}

} // verus!
