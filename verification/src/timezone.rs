//! Recipient-local clock arithmetic: timezone offsets of the form
//! `[+|-]HH:MM`, the hour of a UTC instant, and the quiet-hours window.
//!
//! Delivery is permitted only while the recipient-local hour lies in the
//! half-open waking window `[08:00, 22:00)`. The local hour of an instant is
//! its UTC hour plus the signed hour part of the recipient's offset, modulo
//! 24. A malformed offset counts as zero.

use vstd::prelude::*;
use vstd::string::StrSliceExecFns;

use crate::digits::all_digits;
use crate::digits::digit_val;
use crate::digits::digits_val;
use crate::digits::is_digit;

verus! {

/// First hour (inclusive) of the recipient-local waking window.
pub const WAKING_START_HOUR: u8 = 8;

/// First hour (exclusive) after the recipient-local waking window.
pub const WAKING_END_HOUR: u8 = 22;

/// Seconds in a day and in an hour.
pub const SECS_PER_DAY: u64 = 86400;

pub const SECS_PER_HOUR: u64 = 3600;

/// Hour of the day (0..24) of an instant given in seconds since the Unix
/// epoch, UTC.
pub open spec fn spec_utc_hour(t: int) -> int {
    (t % (SECS_PER_DAY as int)) / (SECS_PER_HOUR as int)
}

/// Recipient-local hour from a UTC hour and a signed offset in hours.
pub open spec fn spec_local_hour(utc_hour: int, offset_hours: int) -> int {
    (utc_hour + offset_hours) % 24
}

/// The waking window of the quiet-hours policy.
pub open spec fn spec_in_waking_hours(h: int) -> bool {
    WAKING_START_HOUR <= h < WAKING_END_HOUR
}

/// Hour of the day of a UTC instant.
pub fn utc_hour_of(t: i64) -> (h: u8)
    ensures
        h == spec_utc_hour(t as int),
        h < 24,
{
    // Shift by a multiple of the day length that is at least 2^63, so the
    // remainder can be taken on a nonnegative value.
    let shifted: u128 = ((t as i128) + 9223372036854806400i128) as u128;
    let sec_of_day: u128 = shifted % 86400;
    let hour: u128 = sec_of_day / 3600;
    proof {
        vstd::arithmetic::div_mod::lemma_mod_multiples_vanish(106751991167301, t as int, 86400);
        assert(86400 * 106751991167301 + t == shifted);
    }
    hour as u8
}

/// Recipient-local hour from a UTC hour and a signed offset in hours.
pub fn local_hour(utc_hour: u8, offset_hours: i64) -> (h: u8)
    requires
        utc_hour < 24,
        -100 <= offset_hours <= 100,
    ensures
        h == spec_local_hour(utc_hour as int, offset_hours as int),
        h < 24,
{
    let shifted: u64 = ((utc_hour as i64) + offset_hours + 2400) as u64;
    let m: u64 = shifted % 24;
    proof {
        vstd::arithmetic::div_mod::lemma_mod_multiples_vanish(
            100,
            utc_hour + offset_hours,
            24,
        );
        assert(24 * 100 + (utc_hour + offset_hours) == shifted);
    }
    m as u8
}

/// Position of the first colon at or after `i`, or -1 if there is none.
pub open spec fn find_colon_from(s: Seq<char>, i: int) -> int
    decreases s.len() - i,
{
    if i < 0 || i >= s.len() {
        -1
    } else if s[i] == ':' {
        i
    } else {
        find_colon_from(s, i + 1)
    }
}

/// Length of the optional leading sign of an offset string.
pub open spec fn spec_sign_len(s: Seq<char>) -> int {
    if s.len() > 0 && (s[0] == '+' || s[0] == '-') {
        1int
    } else {
        0int
    }
}

/// Sign of an offset string: -1 exactly under a leading minus.
pub open spec fn spec_offset_sign(s: Seq<char>) -> int {
    if s.len() > 0 && s[0] == '-' {
        -1int
    } else {
        1int
    }
}

/// A well-formed offset: an optional sign, one or two hour digits, a colon,
/// and one or two minute digits.
pub open spec fn wf_offset(s: Seq<char>) -> bool {
    let b = spec_sign_len(s);
    let c = find_colon_from(s, 0);
    &&& b + 1 <= c <= b + 2
    &&& c + 2 <= s.len() <= c + 3
    &&& all_digits(s.subrange(b, c))
    &&& all_digits(s.subrange(c + 1, s.len() as int))
}

/// The signed hour part of an offset; zero for a malformed offset.
pub open spec fn spec_offset_hours(s: Seq<char>) -> int {
    if wf_offset(s) {
        spec_offset_sign(s) * digits_val(s.subrange(spec_sign_len(s), find_colon_from(s, 0)))
    } else {
        0
    }
}

/// The whole offset in seconds: signed hours plus unsigned minutes; zero
/// for a malformed offset.
pub open spec fn spec_offset_seconds(s: Seq<char>) -> int {
    if wf_offset(s) {
        spec_offset_hours(s) * 3600 + digits_val(
            s.subrange(find_colon_from(s, 0) + 1, s.len() as int),
        ) * 60
    } else {
        0
    }
}

/// A scan that saw no colon before `i` determines `find_colon_from` at 0.
proof fn lemma_find_colon_prefix(s: Seq<char>, k: int, i: int)
    requires
        0 <= k <= i <= s.len(),
        forall|j: int| k <= j < i ==> s[j] != ':',
    ensures
        find_colon_from(s, k) == find_colon_from(s, i),
    decreases i - k,
{
    if k < i {
        lemma_find_colon_prefix(s, k + 1, i);
    }
}

/// Digit values are bounded for one- and two-digit sequences.
proof fn lemma_digits_val_small(s: Seq<char>)
    requires
        all_digits(s),
        1 <= s.len() <= 2,
    ensures
        0 <= digits_val(s) <= 99,
{
    assert(is_digit(s[s.len() - 1]));
    if s.len() == 1 {
        assert(s.drop_last() =~= Seq::<char>::empty());
        assert(digits_val(s.drop_last()) == 0);
    } else {
        assert(is_digit(s[0]));
        let d = s.drop_last();
        assert(d.last() == s[0]);
        assert(d.drop_last() =~= Seq::<char>::empty());
        assert(digits_val(d.drop_last()) == 0);
        assert(digits_val(d) == digit_val(s[0]));
        assert(digits_val(s) == digit_val(s[0]) * 10 + digit_val(s.last()));
    }
}

/// The numeric value of one digit character, if it is one.
fn digit_of(c: char) -> (r: Option<i64>)
    ensures
        r is Some <==> is_digit(c),
        r matches Some(v) ==> v == digit_val(c),
{
    let u = c as u32;
    if 48 <= u && u <= 57 {
        Some((u - 48) as i64)
    } else {
        None
    }
}

/// The value of the digit run `s[start..end]`, if it is one or two digits.
fn read_digit_run(s: &str, start: usize, end: usize) -> (r: Option<i64>)
    requires
        start <= end <= s@.len(),
    ensures
        r is Some <==> (1 <= end - start <= 2 && all_digits(
            s@.subrange(start as int, end as int),
        )),
        r matches Some(v) ==> v == digits_val(s@.subrange(start as int, end as int)) && 0 <= v
            <= 99,
{
    let ghost sub = s@.subrange(start as int, end as int);
    if end - start == 1 {
        let c = s.get_char(start);
        proof {
            assert(sub.len() == 1 && sub[0] == c);
            assert(sub.last() == c);
            assert(sub.drop_last() =~= Seq::<char>::empty());
            assert(digits_val(sub.drop_last()) == 0);
            assert(digits_val(sub) == digit_val(c));
        }
        match digit_of(c) {
            Some(v) => {
                proof {
                    assert(all_digits(sub)) by {
                        assert(forall|i: int| 0 <= i < 1 ==> #[trigger] sub[i] == c);
                    }
                }
                Some(v)
            },
            None => {
                proof {
                    if all_digits(sub) {
                        assert(is_digit(sub[0]));
                    }
                }
                None
            },
        }
    } else if end - start == 2 {
        let c0 = s.get_char(start);
        let c1 = s.get_char(start + 1);
        proof {
            assert(sub.len() == 2 && sub[0] == c0 && sub[1] == c1);
            assert(sub.last() == c1);
            assert(sub.drop_last().len() == 1 && sub.drop_last()[0] == c0);
            assert(sub.drop_last().last() == c0);
            assert(sub.drop_last().drop_last() =~= Seq::<char>::empty());
            assert(digits_val(sub.drop_last().drop_last()) == 0);
            assert(digits_val(sub.drop_last()) == digit_val(c0));
            assert(digits_val(sub) == digit_val(c0) * 10 + digit_val(c1));
        }
        match (digit_of(c0), digit_of(c1)) {
            (Some(v0), Some(v1)) => {
                proof {
                    assert(all_digits(sub)) by {
                        assert(forall|i: int|
                            0 <= i < 2 ==> is_digit(#[trigger] sub[i])) by {
                            assert(sub[0] == c0 && sub[1] == c1);
                        }
                    }
                }
                Some(v0 * 10 + v1)
            },
            _ => {
                proof {
                    if all_digits(sub) {
                        assert(is_digit(sub[0]) && is_digit(sub[1]));
                        assert(false);
                    }
                }
                None
            },
        }
    } else {
        None
    }
}

/// Index of the first colon of `s`, scanning left to right.
fn find_colon(s: &str) -> (r: Option<usize>)
    ensures
        r matches Some(i) ==> i < s@.len() && s@[i as int] == ':' && find_colon_from(s@, 0)
            == i,
        r is None ==> find_colon_from(s@, 0) == -1,
{
    let n = s.unicode_len();
    let mut i: usize = 0;
    while i < n
        invariant
            i <= n,
            n == s@.len(),
            forall|j: int| 0 <= j < i ==> s@[j] != ':',
        decreases n - i,
    {
        let c = s.get_char(i);
        if c == ':' {
            proof {
                lemma_find_colon_prefix(s@, 0, i as int);
            }
            return Some(i);
        }
        i += 1;
    }
    proof {
        lemma_find_colon_prefix(s@, 0, n as int);
    }
    None
}

/// Parse an offset into its signed hour part and unsigned minute part.
/// `None` reports a malformed offset.
fn offset_parts(s: &str) -> (r: Option<(i64, i64)>)
    ensures
        r is Some <==> wf_offset(s@),
        r matches Some(p) ==> {
            &&& p.0 == spec_offset_hours(s@)
            &&& p.1 == digits_val(s@.subrange(find_colon_from(s@, 0) + 1, s@.len() as int))
            &&& -99 <= p.0 <= 99
            &&& 0 <= p.1 <= 99
        },
{
    let n = s.unicode_len();
    if n == 0 {
        return None;
    }
    let c0 = s.get_char(0);
    let neg = c0 == '-';
    let b: usize = if c0 == '+' || c0 == '-' {
        1
    } else {
        0
    };
    let c = match find_colon(s) {
        Some(c) => c,
        None => {
            return None;
        },
    };
    if c < b + 1 || c > b + 2 || n < c + 2 || n > c + 3 {
        return None;
    }
    let hh = match read_digit_run(s, b, c) {
        Some(v) => v,
        None => {
            return None;
        },
    };
    let mm = match read_digit_run(s, c + 1, n) {
        Some(v) => v,
        None => {
            return None;
        },
    };
    proof {
        assert(wf_offset(s@));
        lemma_digits_val_small(s@.subrange(b as int, c as int));
    }
    if neg {
        Some((-hh, mm))
    } else {
        Some((hh, mm))
    }
}

/// The signed hour part of a recipient timezone offset; a malformed offset
/// counts as zero.
pub fn offset_hours(offset: &str) -> (r: i64)
    ensures
        r == spec_offset_hours(offset@),
        -99 <= r <= 99,
{
    match offset_parts(offset) {
        Some((hh, _)) => hh,
        None => 0,
    }
}

/// A recipient timezone offset in seconds: signed hours plus minutes; a
/// malformed offset counts as zero.
pub fn offset_to_int(offset: &str) -> (r: i64)
    ensures
        r == spec_offset_seconds(offset@),
        -362340 <= r <= 362340,
{
    match offset_parts(offset) {
        Some((hh, mm)) => hh * 3600 + mm * 60,
        None => 0,
    }
}

/// Shift a UTC instant by a recipient timezone offset.
pub fn calculate_recipient_time(utc_time: i64, offset: &str) -> (r: i64)
    requires
        i64::MIN + 362340 <= utc_time <= i64::MAX - 362340,
    ensures
        r == utc_time + spec_offset_seconds(offset@),
{
    utc_time + offset_to_int(offset)
}

/// Whether the quiet-hours policy permits delivery to a recipient with the
/// given timezone offset at the given UTC instant.
pub open spec fn spec_delivery_allowed(t: int, timezone_offset: Seq<char>) -> bool {
    spec_in_waking_hours(spec_local_hour(spec_utc_hour(t), spec_offset_hours(timezone_offset)))
}

/// Quiet-hours check for one recipient at one instant.
pub fn delivery_allowed(t: i64, timezone_offset: &str) -> (b: bool)
    ensures
        b == spec_delivery_allowed(t as int, timezone_offset@),
{
    let h = utc_hour_of(t);
    let off = offset_hours(timezone_offset);
    let lh = local_hour(h, off);
    WAKING_START_HOUR <= lh && lh < WAKING_END_HOUR
}

} // verus!
