use vstd::prelude::*;
use vstd::string::StringExecFns;

verus! {

/// A UTC calendar date as plain values, restricted to the range that the
/// four-digit file-name stamp can carry.
#[derive(Clone, Copy, Debug, PartialEq, Eq, Structural)]
pub struct Date {
    pub year: u16,
    pub month: u8,
    pub day: u8,
}

impl Date {
    /// The date fits the `YYYY-MM-DD` stamp: four-digit year, calendar
    /// month and day numbers.
    pub open spec fn wf(self) -> bool {
        &&& self.year <= 9999
        &&& 1 <= self.month <= 12
        &&& 1 <= self.day <= 31
    }

    /// Builds a date from raw components, accepting exactly those that
    /// fit the stamp.
    pub fn from_ymd(year: i32, month: u32, day: u32) -> (r: Option<Date>)
        ensures
            r is Some <==> (0 <= year <= 9999 && 1 <= month <= 12 && 1 <= day <= 31),
            r matches Some(d) ==> d.wf() && d.year == year && d.month == month && d.day == day,
    {
        if 0 <= year && year <= 9999 && 1 <= month && month <= 12 && 1 <= day && day <= 31 {
            Some(Date { year: year as u16, month: month as u8, day: day as u8 })
        } else {
            None
        }
    }
}

/// The decimal digit character for a value below ten.
pub open spec fn digit_char(d: int) -> char
    recommends
        0 <= d < 10,
{
    ((48 + d) as u8) as char
}

/// The `YYYY-MM-DD` stamp of a date, as a sequence of characters.
pub open spec fn spec_stamp(d: Date) -> Seq<char> {
    seq![
        digit_char(d.year as int / 1000),
        digit_char((d.year as int / 100) % 10),
        digit_char((d.year as int / 10) % 10),
        digit_char(d.year as int % 10),
        '-',
        digit_char(d.month as int / 10),
        digit_char(d.month as int % 10),
        '-',
        digit_char(d.day as int / 10),
        digit_char(d.day as int % 10),
    ]
}

/// A one-character string for a decimal digit.
pub(crate) fn digit_str(d: u8) -> (r: &'static str)
    requires
        d < 10,
    ensures
        r@ =~= seq![digit_char(d as int)],
{
    proof {
        reveal_strlit("0");
        reveal_strlit("1");
        reveal_strlit("2");
        reveal_strlit("3");
        reveal_strlit("4");
        reveal_strlit("5");
        reveal_strlit("6");
        reveal_strlit("7");
        reveal_strlit("8");
        reveal_strlit("9");
    }
    match d {
        0 => "0",
        1 => "1",
        2 => "2",
        3 => "3",
        4 => "4",
        5 => "5",
        6 => "6",
        7 => "7",
        8 => "8",
        _ => "9",
    }
}

/// Formats a date as its `YYYY-MM-DD` stamp, zero-padded.
pub fn stamp(d: &Date) -> (r: String)
    requires
        d.wf(),
    ensures
        r@ == spec_stamp(*d),
{
    proof {
        reveal_strlit("-");
    }
    let y = d.year;
    let m = d.month;
    let dd = d.day;
    let mut s = String::new();
    s.append(digit_str((y / 1000) as u8));
    s.append(digit_str(((y / 100) % 10) as u8));
    s.append(digit_str(((y / 10) % 10) as u8));
    s.append(digit_str((y % 10) as u8));
    s.append("-");
    s.append(digit_str(m / 10));
    s.append(digit_str(m % 10));
    s.append("-");
    s.append(digit_str(dd / 10));
    s.append(digit_str(dd % 10));
    proof {
        assert(s@ =~= spec_stamp(*d));
    }
    s
}

/// Law: the stamp determines the date. Two well-formed dates carry the
/// same `YYYY-MM-DD` stamp exactly when they are the same date, so
/// comparing dates and comparing stamp strings detect the same changes.
pub proof fn lemma_stamp_injective(a: Date, b: Date)
    requires
        a.wf(),
        b.wf(),
    ensures
        (spec_stamp(a) == spec_stamp(b)) <==> a == b,
{
    if spec_stamp(a) == spec_stamp(b) {
        assert(spec_stamp(a)[0] == spec_stamp(b)[0]);
        assert(spec_stamp(a)[1] == spec_stamp(b)[1]);
        assert(spec_stamp(a)[2] == spec_stamp(b)[2]);
        assert(spec_stamp(a)[3] == spec_stamp(b)[3]);
        assert(spec_stamp(a)[5] == spec_stamp(b)[5]);
        assert(spec_stamp(a)[6] == spec_stamp(b)[6]);
        assert(spec_stamp(a)[8] == spec_stamp(b)[8]);
        assert(spec_stamp(a)[9] == spec_stamp(b)[9]);
        lemma_digits_determine(a.year as int, b.year as int);
        lemma_two_digits_determine(a.month as int, b.month as int);
        lemma_two_digits_determine(a.day as int, b.day as int);
    }
}

proof fn lemma_digits_determine(x: int, y: int)
    requires
        0 <= x <= 9999,
        0 <= y <= 9999,
        x / 1000 == y / 1000,
        (x / 100) % 10 == (y / 100) % 10,
        (x / 10) % 10 == (y / 10) % 10,
        x % 10 == y % 10,
    ensures
        x == y,
{
    lemma_digit_sum(x);
    lemma_digit_sum(y);
}

proof fn lemma_digit_sum(x: int)
    requires
        0 <= x <= 9999,
    ensures
        x == 1000 * (x / 1000) + 100 * ((x / 100) % 10) + 10 * ((x / 10) % 10) + x % 10,
{
    assert(x == 1000 * (x / 1000) + 100 * ((x / 100) % 10) + 10 * ((x / 10) % 10) + x % 10)
        by (nonlinear_arith)
        requires
            0 <= x <= 9999,
    ;
}

proof fn lemma_two_digits_determine(x: int, y: int)
    requires
        0 <= x <= 99,
        0 <= y <= 99,
        x / 10 == y / 10,
        x % 10 == y % 10,
    ensures
        x == y,
{
}

/// Relies on std's `SystemTime::elapsed`, read off the Unix epoch: the
/// whole seconds and subsecond nanoseconds since then, or `None` when
/// the clock reads earlier. It never panics, and the clock decides the
/// value, so nothing is promised of it.
#[verifier::external_body]
fn unix_time_now() -> (r: Option<(u64, u32)>) {
    match std::time::UNIX_EPOCH.elapsed() {
        Ok(d) => Some((d.as_secs(), d.subsec_nanos())),
        Err(_) => None,
    }
}

/// Relies on chrono's `DateTime::from_timestamp` and the `Datelike`
/// accessors: an in-range Unix timestamp maps to a UTC date whose
/// `month` chrono documents as `1..=12` and `day` as `1..=31`; an
/// out-of-range one gives `None` rather than panicking. The year is
/// unbounded by the documentation, so nothing is promised of it.
#[verifier::external_body]
fn utc_ymd_of_unix(secs: i64, nanos: u32) -> (r: Option<(i32, u32, u32)>)
    ensures
        r matches Some(t) ==> 1 <= t.1 <= 12 && 1 <= t.2 <= 31,
{
    match chrono::DateTime::from_timestamp(secs, nanos) {
        Some(dt) => Some((
            chrono::Datelike::year(&dt),
            chrono::Datelike::month(&dt),
            chrono::Datelike::day(&dt),
        )),
        None => None,
    }
}

/// The current UTC calendar date, if the clock is readable and the year
/// fits the four-digit stamp; `None` otherwise, never a panic. The
/// clock decides the value, so only well-formedness is promised.
pub fn today_utc() -> (r: Option<Date>)
    ensures
        r matches Some(d) ==> d.wf(),
{
    let (secs, nanos) = match unix_time_now() {
        Some(t) => t,
        None => { return None; },
    };
    if secs > i64::MAX as u64 {
        return None;
    }
    match utc_ymd_of_unix(secs as i64, nanos) {
        Some((y, m, d)) => Date::from_ymd(y, m, d),
        None => None,
    }
}

} // verus!
