//! Texts for people: durations, ages and points in time.

use vstd::prelude::*;
use vstd::string::*;
use crate::text::{decimal, decimal_string, digit, signed_decimal, signed_decimal_string};
use crate::time::{elapsed_seconds, saturated, whole_seconds_between, Timestamp};

verus! {

/// The gap between neighbouring double-precision numbers at `b`: one up to
/// two to the power 53, and twice as much for each doubling after that.
pub open spec fn double_gap(b: int) -> int
    decreases b,
{
    if b < 9007199254740992 {
        1
    } else {
        2 * double_gap(b / 2)
    }
}

/// `num / den` rounded to the nearest integer, a tie to the even one.
pub open spec fn round_half_even(num: int, den: int) -> int {
    let q = num / den;
    let r = num % den;
    if 2 * r > den || (2 * r == den && q % 2 == 1) {
        q + 1
    } else {
        q
    }
}

/// The double-precision number nearest to `b`.
pub open spec fn nearest_double(b: int) -> int {
    round_half_even(b, double_gap(b)) * double_gap(b)
}

/// The unit that a byte count of 1024 or more is given in: 0 for KB up to 3
/// for TB. A count is given in the largest unit that it fills once.
pub open spec fn byte_unit(b: int) -> int {
    if b < 1048576 {
        0
    } else if b < 1073741824 {
        1
    } else if b < 1099511627776 {
        2
    } else {
        3
    }
}

/// The number of bytes in one of the unit `unit`.
pub open spec fn unit_size(unit: int) -> int {
    if unit == 0 {
        1024
    } else if unit == 1 {
        1048576
    } else if unit == 2 {
        1073741824
    } else {
        1099511627776
    }
}

/// The name of the unit `unit`.
pub open spec fn unit_name(unit: int) -> Seq<char> {
    if unit == 0 {
        "KB"@
    } else if unit == 1 {
        "MB"@
    } else if unit == 2 {
        "GB"@
    } else {
        "TB"@
    }
}

/// A byte count of 1024 or more in tenths of its unit: the count is taken as
/// a double-precision number, and the quotient is rounded to one decimal
/// place, a tie to the even digit.
pub open spec fn unit_tenths(b: int) -> int {
    round_half_even(nearest_double(b) * 10, unit_size(byte_unit(b)))
}

/// A byte count for people: `512 B`, `1.5 KB`, `3.0 GB`. Counts under 1024
/// are given in bytes, larger ones with one decimal place in the largest
/// unit up to TB that they fill.
pub open spec fn bytes_text(b: int) -> Seq<char> {
    if b < 1024 {
        signed_decimal(b) + " B"@
    } else {
        decimal((unit_tenths(b) / 10) as nat).push('.').push(digit(unit_tenths(b) % 10)) + " "@
            + unit_name(byte_unit(b))
    }
}

fn double_gap_of(b: u64) -> (gap: u64)
    requires
        b <= i64::MAX,
    ensures
        gap == double_gap(b as int),
        1 <= gap <= 1024,
{
    reveal_with_fuel(double_gap, 12);
    if b < 9007199254740992 {
        1
    } else if b < 18014398509481984 {
        2
    } else if b < 36028797018963968 {
        4
    } else if b < 72057594037927936 {
        8
    } else if b < 144115188075855872 {
        16
    } else if b < 288230376151711744 {
        32
    } else if b < 576460752303423488 {
        64
    } else if b < 1152921504606846976 {
        128
    } else if b < 2305843009213693952 {
        256
    } else if b < 4611686018427387904 {
        512
    } else {
        1024
    }
}

fn rounded_division(num: u128, den: u128) -> (q: u128)
    requires
        den > 0,
        num < 0x1_0000_0000_0000_0000_0000,
        den < 0x1_0000_0000_0000_0000_0000,
    ensures
        q == round_half_even(num as int, den as int),
        q <= num + 1,
{
    let q: u128 = num / den;
    let r: u128 = num % den;
    assert(q <= num) by (nonlinear_arith)
        requires
            q == num / den,
            den > 0,
    ;
    if 2 * r > den || (2 * r == den && q % 2 == 1) {
        q + 1
    } else {
        q
    }
}

/// Renders a byte count.
pub fn human_bytes(b: i64) -> (s: String)
    ensures
        s@ == bytes_text(b as int),
{
    if b < 1024 {
        let mut s = signed_decimal_string(b);
        s.append(" B");
        return s;
    }
    let (unit, size): (&str, u128) = if b < 1048576 {
        ("KB", 1024)
    } else if b < 1073741824 {
        ("MB", 1048576)
    } else if b < 1099511627776 {
        ("GB", 1073741824)
    } else {
        ("TB", 1099511627776)
    };
    let gap: u64 = double_gap_of(b as u64);
    let mantissa: u128 = rounded_division(b as u128, gap as u128);
    assert(mantissa * gap <= 0x8000_0000_0000_0001 * 1024) by (nonlinear_arith)
        requires
            mantissa <= 0x8000_0000_0000_0001,
            gap <= 1024,
    ;
    let nearest: u128 = mantissa * (gap as u128);
    assert(nearest == nearest_double(b as int));
    let tenths: u128 = rounded_division(nearest * 10, size);
    assert(tenths == unit_tenths(b as int));
    let mut s = decimal_string((tenths / 10) as u64);
    proof {
        reveal_strlit(".");
    }
    s.append(".");
    let last = decimal_string((tenths % 10) as u64);
    assert(last@ =~= seq![digit((tenths % 10) as int)]);
    s.append(last.as_str());
    s.append(" ");
    s.append(unit);
    assert(s@ =~= bytes_text(b as int));
    s
}

/// A duration in its two largest units: `42s`, `3m7s`, `5h12m`, `2d3h`.
/// Anything under a minute, negative durations among them, is given in
/// seconds.
pub open spec fn duration_text(total_secs: int) -> Seq<char> {
    if total_secs < 60 {
        signed_decimal(total_secs).push('s')
    } else if total_secs < 3600 {
        (decimal((total_secs / 60) as nat).push('m') + decimal((total_secs % 60) as nat)).push('s')
    } else if total_secs < 86400 {
        (decimal((total_secs / 3600) as nat).push('h') + decimal(
            ((total_secs % 3600) / 60) as nat,
        )).push('m')
    } else {
        (decimal((total_secs / 86400) as nat).push('d') + decimal(
            ((total_secs % 86400) / 3600) as nat,
        )).push('h')
    }
}

/// `a`, the mark `first`, `b`, the mark `second`.
fn two_units(a: u64, first: &str, b: u64, second: &str) -> (s: String)
    requires
        first@.len() == 1,
        second@.len() == 1,
    ensures
        s@ == (decimal(a as nat).push(first@[0]) + decimal(b as nat)).push(second@[0]),
{
    let mut s = decimal_string(a);
    s.append(first);
    let rest = decimal_string(b);
    s.append(rest.as_str());
    s.append(second);
    assert(first@ =~= seq![first@[0]]);
    assert(second@ =~= seq![second@[0]]);
    assert(s@ =~= (decimal(a as nat).push(first@[0]) + decimal(b as nat)).push(second@[0]));
    s
}

/// Renders a duration of `total_secs` seconds.
pub fn human_duration_secs(total_secs: i64) -> (s: String)
    ensures
        s@ == duration_text(total_secs as int),
{
    proof {
        reveal_strlit("s");
        reveal_strlit("m");
        reveal_strlit("h");
        reveal_strlit("d");
    }
    if total_secs < 60 {
        let mut s = signed_decimal_string(total_secs);
        s.append("s");
        assert(s@ =~= signed_decimal(total_secs as int).push('s'));
        s
    } else if total_secs < 3600 {
        two_units((total_secs / 60) as u64, "m", (total_secs % 60) as u64, "s")
    } else if total_secs < 86400 {
        two_units((total_secs / 3600) as u64, "h", ((total_secs % 3600) / 60) as u64, "m")
    } else {
        two_units((total_secs / 86400) as u64, "d", ((total_secs % 86400) / 3600) as u64, "h")
    }
}

/// `n` of a unit, in words: `1 minute ago`, `5 minutes ago`.
pub open spec fn ago_text(n: int, unit: Seq<char>) -> Seq<char> {
    if n == 1 {
        "1 "@ + unit + " ago"@
    } else {
        decimal(n as nat) + " "@ + unit + "s ago"@
    }
}

/// How long ago something was that lies `secs` seconds back, for anything
/// younger than thirty days; `None` from thirty days on.
pub open spec fn relative_text(secs: int) -> Option<Seq<char>> {
    if secs < 60 {
        Some("just now"@)
    } else if secs < 3600 {
        Some(ago_text(secs / 60, "minute"@))
    } else if secs < 86400 {
        Some(ago_text(secs / 3600, "hour"@))
    } else if secs < 30 * 86400 {
        Some(ago_text(secs / 86400, "day"@))
    } else {
        None
    }
}

fn ago(n: u64, unit: &str) -> (s: String)
    ensures
        s@ == ago_text(n as int, unit@),
{
    if n == 1 {
        let mut s = String::from_str("1 ");
        s.append(unit);
        s.append(" ago");
        assert(s@ =~= "1 "@ + unit@ + " ago"@);
        s
    } else {
        let mut s = decimal_string(n);
        s.append(" ");
        s.append(unit);
        s.append("s ago");
        assert(s@ =~= decimal(n as nat) + " "@ + unit@ + "s ago"@);
        s
    }
}

/// Says how long ago something was that lies `secs` seconds back, where that
/// is less than thirty days.
pub fn relative_time(secs: i64) -> (text: Option<String>)
    ensures
        match text {
            Some(s) => relative_text(secs as int) == Some(s@),
            None => relative_text(secs as int) is None,
        },
{
    if secs < 60 {
        Some(String::from_str("just now"))
    } else if secs < 3600 {
        Some(ago((secs / 60) as u64, "minute"))
    } else if secs < 86400 {
        Some(ago((secs / 3600) as u64, "hour"))
    } else if secs < 30 * 86400 {
        Some(ago((secs / 86400) as u64, "day"))
    } else {
        None
    }
}

/// The calendar date of an instant in UTC, as `Jan  5, 2024`: the month's
/// English short name, the day of the month padded with a space, the year.
/// `None` for an instant outside the range of the calendar.
pub uninterp spec fn calendar_date(secs: i64, nanos: u32) -> Option<Seq<char>>;

/// The instant that a text in the format of RFC 3339 names, as seconds since
/// the epoch and nanoseconds past that second. `None` where the text is not
/// in that format.
pub uninterp spec fn rfc3339_instant(text: Seq<char>) -> Option<(i64, u32)>;

/// Calls chrono's `DateTime::from_timestamp` and `DateTime::format` with the
/// pattern `%b %e, %Y`. The result depends on the instant alone, which is
/// what the contract says; what the text looks like is chrono's matter.
#[verifier::external_body]
fn format_date(t: Timestamp) -> (text: Option<String>)
    ensures
        match text {
            Some(s) => calendar_date(t.secs, t.nanos) == Some(s@),
            None => calendar_date(t.secs, t.nanos) is None,
        },
{
    match chrono::DateTime::from_timestamp(t.secs, t.nanos) {
        Some(moment) => Some(moment.format("%b %e, %Y").to_string()),
        None => None,
    }
}

/// Calls chrono's `DateTime::parse_from_rfc3339` and hands the instant out as
/// plain numbers. The result depends on the text alone, which is what the
/// contract says; which texts are accepted is chrono's matter.
#[verifier::external_body]
fn parse_rfc3339(text: &str) -> (instant: Option<Timestamp>)
    ensures
        match instant {
            Some(t) => rfc3339_instant(text@) == Some((t.secs, t.nanos)),
            None => rfc3339_instant(text@) is None,
        },
{
    match chrono::DateTime::parse_from_rfc3339(text) {
        Ok(moment) => Some(
            Timestamp { secs: moment.timestamp(), nanos: moment.timestamp_subsec_nanos() },
        ),
        Err(_) => None,
    }
}

/// What `human_time` says of the instant `t` seen from `now`.
pub open spec fn human_time_text(t: Option<Timestamp>, now: Timestamp) -> Seq<char> {
    match t {
        None => "never"@,
        Some(then) => match relative_text(saturated(elapsed_seconds(then, now))) {
            Some(text) => text,
            None => match calendar_date(then.secs, then.nanos) {
                Some(date) => date,
                None => Seq::empty(),
            },
        },
    }
}

/// Says when `t` was, seen from `now`: `never` where there is no `t`, how
/// long ago where that is less than thirty days, and the date otherwise.
pub fn human_time(t: Option<Timestamp>, now: Timestamp) -> (s: String)
    ensures
        s@ == human_time_text(t, now),
{
    let then = match t {
        Some(then) => then,
        None => {
            return String::from_str("never");
        },
    };
    let secs = whole_seconds_between(then, now);
    match relative_time(secs) {
        Some(text) => text,
        None => match format_date(then) {
            Some(date) => date,
            None => String::new(),
        },
    }
}

/// What `parse_age` says of a start time seen from `now`.
pub open spec fn age_text(start_time: Option<String>, now: Timestamp) -> Seq<char> {
    match start_time {
        Some(text) => if text@.len() == 0 {
            Seq::empty()
        } else {
            match rfc3339_instant(text@) {
                Some((secs, nanos)) => duration_text(
                    saturated(elapsed_seconds(Timestamp { secs, nanos }, now)),
                ),
                None => Seq::empty(),
            }
        },
        None => Seq::empty(),
    }
}

/// The age at `now` of what started at `start_time`, as a duration. Empty
/// where there is no start time or it is not in the format of RFC 3339.
pub fn parse_age(start_time: &Option<String>, now: Timestamp) -> (s: String)
    ensures
        s@ == age_text(*start_time, now),
{
    match start_time {
        Some(text) => {
            if text.as_str().is_empty() {
                return String::new();
            }
            match parse_rfc3339(text.as_str()) {
                Some(then) => human_duration_secs(whole_seconds_between(then, now)),
                None => String::new(),
            }
        },
        None => String::new(),
    }
}

} // verus!
