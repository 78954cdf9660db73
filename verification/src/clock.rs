//! Local days and times of day, from unix milliseconds and an offset.
use crate::text::{decimal, digit, push_decimal};
use vstd::prelude::*;

verus! {

/// How far a zone's clock may be from UTC, in seconds, to be told the time.
pub const OFFSET_LIMIT: i64 = 1_000_000_000_000_000_000;

/// The local second a timestamp falls in, counted from the epoch.
pub open spec fn local_second(ms: int, offset: int) -> int {
    ms / 1000 + offset
}

/// The local second a timestamp falls in.
fn second_of(ms: i64, offset: i64) -> (second: i64)
    requires
        -OFFSET_LIMIT <= offset <= OFFSET_LIMIT,
    ensures
        second == local_second(ms as int, offset as int),
{
    let whole: i64 = ms.checked_div_euclid(1000).unwrap();
    whole + offset
}

/// Which calendar day a unix-millisecond timestamp falls on, `offset` seconds
/// east of UTC, as a day number since the epoch.
///
/// Only differences between these numbers are used, so the origin does not
/// matter. What matters is that two timestamps on the same local day produce
/// the same number.
pub fn day_of(ms: i64, offset: i64) -> (day: i64)
    requires
        -OFFSET_LIMIT <= offset <= OFFSET_LIMIT,
    ensures
        day == local_second(ms as int, offset as int) / 86_400,
{
    second_of(ms, offset).checked_div_euclid(86_400).unwrap()
}

/// A number below a hundred as two digits.
pub open spec fn two_digits(n: nat) -> Seq<char> {
    seq![digit(n / 10), digit(n % 10)]
}

/// A time of day, in seconds since midnight, as hours, minutes and seconds.
pub open spec fn clock(second: nat) -> Seq<char> {
    two_digits(second / 3600).push(':') + two_digits(second % 3600 / 60).push(':') + two_digits(
        second % 60,
    )
}

/// Append a number below a hundred as two digits.
fn push_two(out: &mut String, n: u64)
    requires
        n < 100,
    ensures
        final(out)@ == old(out)@ + two_digits(n as nat),
{
    let (a, b): (u8, u8) = ((n / 10) as u8, (n % 10) as u8);
    out.push((48u8 + a) as char);
    out.push((48u8 + b) as char);
    assert(out@ =~= old(out)@ + two_digits(n as nat));
}

/// A timestamp as a log reads it: `14:03:27`, local time, no date.
pub fn format_clock(ms: i64, offset: i64) -> (text: String)
    requires
        -OFFSET_LIMIT <= offset <= OFFSET_LIMIT,
    ensures
        text@ == clock((local_second(ms as int, offset as int) % 86_400) as nat),
{
    let second: u64 = second_of(ms, offset).checked_rem_euclid(86_400).unwrap() as u64;
    let mut text = String::new();
    push_two(&mut text, second / 3600);
    text.push(':');
    push_two(&mut text, second % 3600 / 60);
    text.push(':');
    push_two(&mut text, second % 60);
    assert(text@ =~= clock(second as nat));
    text
}

/// A number in decimal, with its sign when it is negative.
pub open spec fn signed(n: int) -> Seq<char> {
    if n < 0 {
        seq!['-'] + decimal((-n) as nat)
    } else {
        decimal(n as nat)
    }
}

/// How long ago a day was, as a heading.
pub open spec fn heading(today: int, day: int) -> Seq<char> {
    let ago = today - day;
    if ago == 0 {
        "Today"@
    } else if ago == 1 {
        "Yesterday"@
    } else if ago < 7 {
        signed(ago) + " days ago"@
    } else {
        decimal((ago / 7) as nat) + " weeks ago"@
    }
}

/// The heading over a day of the history, both days as [`day_of`] counts them.
pub fn day_heading(today: i64, day: i64) -> (text: String)
    requires
        i64::MIN < today - day <= i64::MAX,
    ensures
        text@ == heading(today as int, day as int),
{
    let ago: i64 = today - day;
    if ago == 0 {
        "Today".to_owned()
    } else if ago == 1 {
        "Yesterday".to_owned()
    } else if ago < 7 {
        let mut text = String::new();
        if ago < 0 {
            text.push('-');
            push_decimal(&mut text, (-ago) as u64);
        } else {
            push_decimal(&mut text, ago as u64);
        }
        assert(text@ =~= signed(ago as int));
        text.append(" days ago");
        text
    } else {
        let mut text = String::new();
        push_decimal(&mut text, ago as u64 / 7);
        assert(text@ =~= decimal((ago / 7) as nat));
        text.append(" weeks ago");
        text
    }
}

/// Two timestamps in the same second are on the same day, and a later one is
/// never on an earlier day.
pub proof fn days_follow_the_clock(earlier: int, later: int, offset: int)
    requires
        earlier <= later,
    ensures
        local_second(earlier, offset) / 86_400 <= local_second(later, offset) / 86_400,
{
}

} // verus!
