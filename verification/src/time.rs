//! Points in time, and their text forms.
//!
//! A FILETIME counts intervals of 100 nanoseconds since 1601-01-01 UTC. The
//! calendar arithmetic is chrono's; the conversion between the two epochs and
//! the fraction of a second are computed here.

use crate::text::{digit_char, from_chars, optional_text, to_chars};
use vstd::prelude::*;

verus! {

/// FILETIME intervals in one second.
pub const TICKS_PER_SECOND: u64 = 10_000_000;

/// Seconds from 1601-01-01 to 1970-01-01.
pub const EPOCH_GAP_SECONDS: i64 = 11_644_473_600;

/// The calendar pattern of a formatted FILETIME, down to the second.
pub open spec fn second_pattern() -> Seq<char> {
    "%Y-%m-%dT%H:%M:%S"@
}

/// What chrono writes for the UTC time `secs` seconds and `nanos` nanoseconds
/// after 1970-01-01 under the strftime pattern `pattern`; `None` where chrono
/// has no such time or rejects the pattern.
pub uninterp spec fn utc_text(secs: int, nanos: int, pattern: Seq<char>) -> Option<Seq<char>>;

/// Makes the time with `chrono::DateTime::<Utc>::from_timestamp` and writes
/// it with `DateTime::format` and `DelayedFormat::write_to`. Where chrono
/// refuses the time or the pattern the result is `None`. The result is a
/// function of the three arguments alone: the time is in UTC and no locale
/// takes part.
#[verifier::external_body]
fn format_utc(secs: i64, nanos: u32, pattern: &str) -> (r: Option<String>)
    ensures
        optional_text(r) == utc_text(secs as int, nanos as int, pattern@),
{
    match chrono::DateTime::<chrono::Utc>::from_timestamp(secs, nanos) {
        Some(t) => {
            let mut s = String::new();
            match t.format(pattern).write_to(&mut s) {
                Ok(()) => Some(s),
                Err(_) => None,
            }
        },
        None => None,
    }
}

/// A point in time in UTC: seconds since 1970-01-01 and nanoseconds within
/// the second.
#[derive(Clone, Copy, Debug, PartialEq, Eq, Structural)]
pub struct UtcTime {
    pub secs: i64,
    pub nanos: u32,
}

impl UtcTime {
    /// The time written under the strftime pattern `pattern`.
    pub fn format(&self, pattern: &str) -> (r: Option<String>)
        ensures
            optional_text(r) == utc_text(self.secs as int, self.nanos as int, pattern@),
    {
        format_utc(self.secs, self.nanos, pattern)
    }
}

/// Whole seconds between 1970-01-01 and the FILETIME `filetime`.
pub open spec fn filetime_seconds(filetime: u64) -> int {
    filetime as int / 10_000_000 - 11_644_473_600
}

/// The FILETIME intervals of `filetime` beyond its last whole second.
pub open spec fn filetime_ticks(filetime: u64) -> int {
    filetime as int % 10_000_000
}

/// The time of the FILETIME `filetime`, to the second.
pub fn filetime_to_utc(filetime: u64) -> (t: UtcTime)
    ensures
        t.secs == filetime_seconds(filetime),
        t.nanos == 0,
{
    let whole: u64 = filetime / TICKS_PER_SECOND;
    UtcTime { secs: whole as i64 - EPOCH_GAP_SECONDS, nanos: 0 }
}

/// `n` in exactly `width` decimal digits, the lowest ones where `n` has more.
pub open spec fn padded_decimal(n: nat, width: nat) -> Seq<char>
    decreases width,
{
    if width == 0 {
        Seq::empty()
    } else {
        padded_decimal(n / 10, (width - 1) as nat).push(digit_char((n % 10) as int))
    }
}

/// The text of a FILETIME whose calendar part reads `seconds_text` and whose
/// fraction is `ticks` intervals: seven decimals and a closing `Z`.
pub open spec fn stamped(seconds_text: Seq<char>, ticks: nat) -> Seq<char> {
    seconds_text + seq!['.'] + padded_decimal(ticks, 7) + seq!['Z']
}

/// The ISO 8601 text of the FILETIME `filetime` in UTC, with seven decimals;
/// `None` where chrono has no such time.
pub open spec fn filetime_text(filetime: u64) -> Option<Seq<char>> {
    match utc_text(filetime_seconds(filetime), 0, second_pattern()) {
        Some(t) => Some(stamped(t, filetime_ticks(filetime) as nat)),
        None => None,
    }
}

/// Appends the fraction `ticks` to the calendar text `seconds_text`.
pub fn stamp_with_ticks(seconds_text: &str, ticks: u32) -> (r: String)
    ensures
        r@ == stamped(seconds_text@, ticks as nat),
{
    let mut out: Vec<char> = to_chars(seconds_text);
    out.push('.');
    // Seven digits, lowest first.
    let mut digits: Vec<char> = Vec::new();
    let mut rest: u32 = ticks;
    let mut k: usize = 0;
    while k < 7
        invariant
            k <= 7,
            digits.len() == k,
            padded_decimal(ticks as nat, 7) == padded_decimal(rest as nat, (7 - k) as nat)
                + digits@.reverse(),
        decreases 7 - k,
    {
        let d: u8 = (rest % 10) as u8;
        let ghost before = digits@;
        digits.push((48u8 + d) as char);
        proof {
            assert(digits@.reverse() =~= seq![digit_char(d as int)] + before.reverse());
            assert(padded_decimal((rest / 10) as nat, (7 - k - 1) as nat).push(
                digit_char(d as int),
            ) + before.reverse() =~= padded_decimal((rest / 10) as nat, (7 - k - 1) as nat)
                + digits@.reverse());
        }
        rest = rest / 10;
        k += 1;
    }
    assert(padded_decimal(ticks as nat, 7) =~= digits@.reverse());
    let mut i: usize = 7;
    while i > 0
        invariant
            i <= 7,
            digits.len() == 7,
            out@ == seconds_text@ + seq!['.'] + digits@.reverse().take(7 - i),
        decreases i,
    {
        i -= 1;
        out.push(digits[i]);
        assert(digits@.reverse().take(7 - i) =~= digits@.reverse().take(7 - i - 1).push(
            digits@[i as int],
        ));
    }
    assert(digits@.reverse().take(7) =~= digits@.reverse());
    out.push('Z');
    from_chars(&out)
}

/// The ISO 8601 text of the FILETIME `filetime` in UTC, with seven decimals.
pub fn format_date_time(filetime: u64) -> (r: Option<String>)
    ensures
        optional_text(r) == filetime_text(filetime),
{
    let t = filetime_to_utc(filetime);
    let ticks: u32 = (filetime % TICKS_PER_SECOND) as u32;
    match t.format("%Y-%m-%dT%H:%M:%S") {
        Some(seconds_text) => Some(stamp_with_ticks(seconds_text.as_str(), ticks)),
        None => None,
    }
}

} // verus!
