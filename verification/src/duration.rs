//! Durations written `<number><unit>` (`30s`, `10m`, `2h`, `1d`) and the
//! instants they lead to.
//!
//! A duration is held as a signed number of seconds; `chrono` builds it,
//! exactly as it does for the commands that take one.
use vstd::prelude::*;
use crate::text::{
    chars_of, decimal, lemma_decimal, lemma_parse_decimal, lemma_trim_unchanged, parse_i64_chars,
    parse_i64_spec, slice, trim, trim_chars,
};

verus! {

/// The largest magnitude, in whole seconds, that `chrono`'s `TimeDelta`
/// constructors accept: `i64::MAX` milliseconds, rounded toward zero.
pub const MAX_DELTA_SECS: i64 = 9_223_372_036_854_775;

/// The Unix time of the earliest instant a `chrono::DateTime<Utc>` holds
/// (the first second of year -262143).
pub const MIN_INSTANT: i64 = -8_334_601_315_200;

/// The Unix time of the last whole second a `chrono::DateTime<Utc>` holds
/// (the last second of year 262142).
pub const MAX_INSTANT: i64 = 8_210_266_876_799;

/// The unit letter that ends a duration argument.
#[derive(Clone, Copy, Debug, PartialEq, Eq)]
pub enum Unit {
    Seconds,
    Minutes,
    Hours,
    Days,
}

pub open spec fn unit_of(c: char) -> Option<Unit> {
    if c == 's' {
        Some(Unit::Seconds)
    } else if c == 'm' {
        Some(Unit::Minutes)
    } else if c == 'h' {
        Some(Unit::Hours)
    } else if c == 'd' {
        Some(Unit::Days)
    } else {
        None
    }
}

pub open spec fn unit_seconds(u: Unit) -> int {
    match u {
        Unit::Seconds => 1,
        Unit::Minutes => 60,
        Unit::Hours => 3600,
        Unit::Days => 86400,
    }
}

/// The count and unit of a duration argument: the trimmed text must end
/// with `s`, `m`, `h` or `d`, and what precedes that letter must read as
/// an `i64` (a sign is allowed, so negative durations exist).
pub open spec fn duration_parts(s: Seq<char>) -> Option<(i64, Unit)> {
    let t = trim(s);
    if t.len() == 0 {
        None
    } else {
        match unit_of(t.last()) {
            Some(u) => match parse_i64_spec(t.drop_last()) {
                Some(n) => Some((n, u)),
                None => None,
            },
            None => None,
        }
    }
}

/// The length, in seconds, of the duration an argument names.
pub open spec fn duration_secs(s: Seq<char>) -> Option<int> {
    match duration_parts(s) {
        Some((n, u)) => Some(n * unit_seconds(u)),
        None => None,
    }
}

/// A duration argument that `chrono` can represent: it does not name one,
/// or the one it names is within `TimeDelta`'s bounds. `chrono` panics on
/// the others.
pub open spec fn duration_representable(s: Seq<char>) -> bool {
    match duration_secs(s) {
        Some(d) => -MAX_DELTA_SECS <= d <= MAX_DELTA_SECS,
        None => true,
    }
}

/// An instant that `chrono::DateTime<Utc>` can hold.
pub open spec fn instant_in_range(t: int) -> bool {
    MIN_INSTANT <= t <= MAX_INSTANT
}

/// Adding the duration an argument names to `now` neither leaves
/// `TimeDelta`'s bounds nor `DateTime`'s range; `chrono` panics otherwise.
pub open spec fn deadline_representable(s: Seq<char>, now: i64) -> bool {
    match duration_secs(s) {
        Some(d) => -MAX_DELTA_SECS <= d <= MAX_DELTA_SECS && instant_in_range(now + d),
        None => true,
    }
}

/// `chrono::Duration::seconds`, in whole seconds.
#[verifier::external_body]
fn delta_seconds(n: i64) -> (r: i64)
    requires
        -MAX_DELTA_SECS <= n <= MAX_DELTA_SECS,
    ensures
        r == n,
{
    chrono::Duration::seconds(n).num_seconds()
}

/// `chrono::Duration::minutes`, in whole seconds.
#[verifier::external_body]
fn delta_minutes(n: i64) -> (r: i64)
    requires
        -MAX_DELTA_SECS <= n * 60 <= MAX_DELTA_SECS,
    ensures
        r == n * 60,
{
    chrono::Duration::minutes(n).num_seconds()
}

/// `chrono::Duration::hours`, in whole seconds.
#[verifier::external_body]
fn delta_hours(n: i64) -> (r: i64)
    requires
        -MAX_DELTA_SECS <= n * 3600 <= MAX_DELTA_SECS,
    ensures
        r == n * 3600,
{
    chrono::Duration::hours(n).num_seconds()
}

/// `chrono::Duration::days`, in whole seconds.
#[verifier::external_body]
fn delta_days(n: i64) -> (r: i64)
    requires
        -MAX_DELTA_SECS <= n * 86400 <= MAX_DELTA_SECS,
    ensures
        r == n * 86400,
{
    chrono::Duration::days(n).num_seconds()
}

fn unit_of_exec(c: char) -> (r: Option<Unit>)
    ensures
        r == unit_of(c),
{
    if c == 's' {
        Some(Unit::Seconds)
    } else if c == 'm' {
        Some(Unit::Minutes)
    } else if c == 'h' {
        Some(Unit::Hours)
    } else if c == 'd' {
        Some(Unit::Days)
    } else {
        None
    }
}

/// The count and unit of a duration argument.
pub fn duration_parts_of(s: &str) -> (r: Option<(i64, Unit)>)
    ensures
        r == duration_parts(s@),
{
    let raw = chars_of(s);
    let t = trim_chars(&raw);
    if t.len() == 0 {
        return None;
    }
    match unit_of_exec(t[t.len() - 1]) {
        Some(u) => {
            let body = slice(&t, 0, t.len() - 1);
            assert(body@ =~= t@.drop_last());
            match parse_i64_chars(&body) {
                Some(n) => Some((n, u)),
                None => None,
            }
        },
        None => None,
    }
}

/// Whether `chrono` can represent the duration an argument names; the
/// caller tests this before `parse_duration`.
pub fn duration_fits(s: &str) -> (r: bool)
    ensures
        r == duration_representable(s@),
{
    match duration_parts_of(s) {
        Some((n, u)) => {
            let k: i128 = match u {
                Unit::Seconds => 1,
                Unit::Minutes => 60,
                Unit::Hours => 3600,
                Unit::Days => 86400,
            };
            let d: i128 = (n as i128) * k;
            -(MAX_DELTA_SECS as i128) <= d && d <= MAX_DELTA_SECS as i128
        },
        None => true,
    }
}

/// Whether adding the duration an argument names to `now` stays within
/// what `chrono` represents; the caller tests this before a plan that
/// computes a deadline.
pub fn deadline_fits(s: &str, now: i64) -> (r: bool)
    ensures
        r == deadline_representable(s@, now),
{
    match duration_parts_of(s) {
        Some((n, u)) => {
            let k: i128 = match u {
                Unit::Seconds => 1,
                Unit::Minutes => 60,
                Unit::Hours => 3600,
                Unit::Days => 86400,
            };
            let d: i128 = (n as i128) * k;
            let t: i128 = (now as i128) + d;
            -(MAX_DELTA_SECS as i128) <= d && d <= MAX_DELTA_SECS as i128 && MIN_INSTANT as i128
                <= t && t <= MAX_INSTANT as i128
        },
        None => true,
    }
}

/// The length in seconds of a duration argument such as `10m` or `2h`;
/// `None` when the argument is not one.
pub fn parse_duration(s: &str) -> (r: Option<i64>)
    requires
        duration_representable(s@),
    ensures
        r == match duration_secs(s@) {
            Some(d) => Some(d as i64),
            None => None,
        },
{
    match duration_parts_of(s) {
        Some((n, u)) => match u {
            Unit::Seconds => Some(delta_seconds(n)),
            Unit::Minutes => Some(delta_minutes(n)),
            Unit::Hours => Some(delta_hours(n)),
            Unit::Days => Some(delta_days(n)),
        },
        None => None,
    }
}


/// The letter that writes a unit.
pub open spec fn unit_letter(u: Unit) -> char {
    match u {
        Unit::Seconds => 's',
        Unit::Minutes => 'm',
        Unit::Hours => 'h',
        Unit::Days => 'd',
    }
}

/// A count written in decimal and followed by a unit letter reads back as
/// that many units, in seconds.
pub proof fn duration_round_trip(n: u64, u: Unit)
    requires
        n <= i64::MAX,
    ensures
        duration_secs(decimal(n as nat) + seq![unit_letter(u)]) == Some(n * unit_seconds(u)),
{
    let d = decimal(n as nat);
    let s = d + seq![unit_letter(u)];
    lemma_decimal(n as nat);
    assert(s[0] == d[0]);
    assert(s.last() == unit_letter(u));
    lemma_trim_unchanged(s);
    assert(unit_of(s.last()) == Some(u));
    assert(s.drop_last() =~= d);
    lemma_parse_decimal(n as nat, i64::MAX as nat);
    assert(parse_i64_spec(d) == Some(n as i64));
}

} // verus!
