//! Timestamps of the feed: `YYYY-MM-DDTHH:MM:SS[.fraction]Z` strings,
//! read into milliseconds since the Unix epoch.
//!
//! The calendar arithmetic is spelled out as spec functions — leap years,
//! days before a month, leap days since 1970 — and the reader is proved
//! to compute exactly that. Timestamps before 1970 or with out-of-range
//! fields are rejected; fraction digits beyond milliseconds are dropped.

use crate::digits::{
    all_digits, digits_val, lemma_all_digits_push, lemma_digits_val_bounds, lemma_pow10_adds,
    lemma_pow10_pos, pow10, pow10_u64, read_digits, spec_is_digit,
};
use vstd::arithmetic::div_mod::{
    lemma_div_is_ordered, lemma_div_pos_is_pos, lemma_fundamental_div_mod,
    lemma_fundamental_div_mod_converse, lemma_mod_division_less_than_divisor,
};
use vstd::prelude::*;
use vstd::string::StrSliceExecFns;

verus! {

/// A leap year of the Gregorian calendar.
pub open spec fn spec_is_leap(y: int) -> bool {
    y % 4 == 0 && (y % 100 != 0 || y % 400 == 0)
}

/// Days of month `m` in year `y`.
pub open spec fn spec_days_in_month(y: int, m: int) -> int {
    if m == 2 {
        if spec_is_leap(y) {
            29
        } else {
            28
        }
    } else if m == 4 || m == 6 || m == 9 || m == 11 {
        30
    } else {
        31
    }
}

/// Days of year `y` before month `m` begins.
pub open spec fn spec_days_before_month(y: int, m: int) -> int {
    let base = if m == 1 {
        0int
    } else if m == 2 {
        31int
    } else if m == 3 {
        59int
    } else if m == 4 {
        90int
    } else if m == 5 {
        120int
    } else if m == 6 {
        151int
    } else if m == 7 {
        181int
    } else if m == 8 {
        212int
    } else if m == 9 {
        243int
    } else if m == 10 {
        273int
    } else if m == 11 {
        304int
    } else {
        334int
    };
    if m >= 3 && spec_is_leap(y) {
        base + 1
    } else {
        base
    }
}

/// Leap years in `[1, y)`, by the inclusion–exclusion count.
pub open spec fn leap_count_to(y: int) -> int {
    (y - 1) / 4 - (y - 1) / 100 + (y - 1) / 400
}

/// Leap years in `[1970, y)`.
pub open spec fn leap_days_since_epoch(y: int) -> int {
    leap_count_to(y) - 477
}

/// Days from 1970-01-01 to the given date.
pub open spec fn spec_days_from_epoch(y: int, m: int, d: int) -> int {
    365 * (y - 1970) + leap_days_since_epoch(y) + spec_days_before_month(y, m) + (d - 1)
}

/// Milliseconds since the Unix epoch of the given civil time.
pub open spec fn spec_civil_millis(
    y: int,
    m: int,
    d: int,
    h: int,
    mi: int,
    s: int,
    ms: int,
) -> int {
    (((spec_days_from_epoch(y, m, d) * 24 + h) * 60 + mi) * 60 + s) * 1000 + ms
}

/// `y/k` grows by one exactly at the multiples of `k`.
proof fn lemma_div_step(y: int, k: int)
    requires
        y >= 1,
        k >= 1,
    ensures
        y / k - (y - 1) / k == (if y % k == 0 {
            1int
        } else {
            0int
        }),
{
    lemma_fundamental_div_mod(y, k);
    lemma_mod_division_less_than_divisor(y, k);
    let q = y / k;
    let r = y % k;
    assert(y == q * k + r) by (nonlinear_arith)
        requires
            y == k * q + r,
    ;
    if r == 0 {
        assert((q - 1) * k == q * k - k) by (nonlinear_arith);
        lemma_fundamental_div_mod_converse(y - 1, k, q - 1, k - 1);
    } else {
        lemma_fundamental_div_mod_converse(y - 1, k, q, r - 1);
    }
}

/// `x` divisible by 100 is divisible by 4; by 400, by 100.
proof fn lemma_divisibility(x: int)
    requires
        x >= 0,
    ensures
        x % 100 == 0 ==> x % 4 == 0,
        x % 400 == 0 ==> x % 100 == 0,
{
    lemma_fundamental_div_mod(x, 100);
    lemma_fundamental_div_mod(x, 400);
    if x % 100 == 0 {
        let q = x / 100;
        assert((25 * q) * 4 == 100 * q) by (nonlinear_arith);
        lemma_fundamental_div_mod_converse(x, 4, 25 * q, 0);
    }
    if x % 400 == 0 {
        let q = x / 400;
        assert((4 * q) * 100 == 400 * q) by (nonlinear_arith);
        lemma_fundamental_div_mod_converse(x, 100, 4 * q, 0);
    }
}

/// One year's step of the leap count: each leap year adds one day.
proof fn lemma_leap_count_step(y: int)
    requires
        y >= 2,
    ensures
        leap_count_to(y) == leap_count_to(y - 1) + (if spec_is_leap(y - 1) {
            1int
        } else {
            0int
        }),
{
    lemma_div_step(y - 1, 4);
    lemma_div_step(y - 1, 100);
    lemma_div_step(y - 1, 400);
    lemma_divisibility(y - 1);
}

/// 1969 divided down: the leap count up to 1970.
proof fn lemma_leap_count_1970()
    ensures
        leap_count_to(1970) == 477,
{
    lemma_fundamental_div_mod_converse(1969, 4, 492, 1);
    lemma_fundamental_div_mod_converse(1969, 100, 19, 69);
    lemma_fundamental_div_mod_converse(1969, 400, 4, 369);
}

/// From 1970 on, the epoch leap-day count never goes negative: every
/// yearly step adds one day or none.
pub proof fn lemma_leap_days_nonneg(y: int)
    requires
        1970 <= y,
    ensures
        0 <= leap_days_since_epoch(y),
    decreases y,
{
    if y == 1970 {
        lemma_leap_count_1970();
    } else {
        lemma_leap_days_nonneg(y - 1);
        lemma_leap_count_step(y);
    }
}

/// The year field of a feed timestamp.
pub open spec fn ts_year(s: Seq<char>) -> int {
    digits_val(s.subrange(0, 4))
}

pub open spec fn ts_month(s: Seq<char>) -> int {
    digits_val(s.subrange(5, 7))
}

pub open spec fn ts_day(s: Seq<char>) -> int {
    digits_val(s.subrange(8, 10))
}

pub open spec fn ts_hour(s: Seq<char>) -> int {
    digits_val(s.subrange(11, 13))
}

pub open spec fn ts_minute(s: Seq<char>) -> int {
    digits_val(s.subrange(14, 16))
}

pub open spec fn ts_second(s: Seq<char>) -> int {
    digits_val(s.subrange(17, 19))
}

/// The fractional field read as milliseconds: the first three fraction
/// digits, padded with zeros on the right.
pub open spec fn ts_frac_ms(s: Seq<char>) -> int {
    if s.len() == 20 {
        0
    } else {
        let fl = s.len() - 21;
        let tl = if fl <= 3 {
            fl
        } else {
            3int
        };
        digits_val(s.subrange(20, 20 + tl)) * pow10((3 - tl) as nat)
    }
}

/// A well-formed feed timestamp: date, `T`, time, an optional non-empty
/// fraction, and a closing `Z`, with every field in range and the year
/// not before the Unix epoch.
pub open spec fn spec_ts_valid(s: Seq<char>) -> bool {
    &&& s.len() >= 20
    &&& all_digits(s.subrange(0, 4))
    &&& s[4] == '-'
    &&& all_digits(s.subrange(5, 7))
    &&& s[7] == '-'
    &&& all_digits(s.subrange(8, 10))
    &&& s[10] == 'T'
    &&& all_digits(s.subrange(11, 13))
    &&& s[13] == ':'
    &&& all_digits(s.subrange(14, 16))
    &&& s[16] == ':'
    &&& all_digits(s.subrange(17, 19))
    &&& (if s.len() == 20 {
        s[19] == 'Z'
    } else {
        &&& s.len() >= 22
        &&& s[19] == '.'
        &&& s[s.len() - 1] == 'Z'
        &&& all_digits(s.subrange(20, s.len() - 1))
    })
    &&& 1970 <= ts_year(s)
    &&& 1 <= ts_month(s) <= 12
    &&& 1 <= ts_day(s) <= spec_days_in_month(ts_year(s), ts_month(s))
    &&& ts_hour(s) <= 23
    &&& ts_minute(s) <= 59
    &&& ts_second(s) <= 59
}

pub open spec fn spec_ts_millis(s: Seq<char>) -> int {
    spec_civil_millis(
        ts_year(s),
        ts_month(s),
        ts_day(s),
        ts_hour(s),
        ts_minute(s),
        ts_second(s),
        ts_frac_ms(s),
    )
}

/// What parsing a timestamp string yields: its epoch milliseconds when it
/// is well formed, nothing otherwise.
pub open spec fn spec_parse_rfc3339(s: Seq<char>) -> Option<u64> {
    if spec_ts_valid(s) {
        Some(spec_ts_millis(s) as u64)
    } else {
        None
    }
}

fn days_in_month_u(y: u64, m: u64) -> (r: u64)
    requires
        1 <= m <= 12,
    ensures
        r == spec_days_in_month(y as int, m as int),
{
    if m == 2 {
        if y % 4 == 0 && (y % 100 != 0 || y % 400 == 0) {
            29
        } else {
            28
        }
    } else if m == 4 || m == 6 || m == 9 || m == 11 {
        30
    } else {
        31
    }
}

fn days_before_month_u(y: u64, m: u64) -> (r: u64)
    requires
        1 <= m <= 12,
    ensures
        r == spec_days_before_month(y as int, m as int),
{
    let base: u64 = if m == 1 {
        0
    } else if m == 2 {
        31
    } else if m == 3 {
        59
    } else if m == 4 {
        90
    } else if m == 5 {
        120
    } else if m == 6 {
        151
    } else if m == 7 {
        181
    } else if m == 8 {
        212
    } else if m == 9 {
        243
    } else if m == 10 {
        273
    } else if m == 11 {
        304
    } else {
        334
    };
    if m >= 3 && y % 4 == 0 && (y % 100 != 0 || y % 400 == 0) {
        base + 1
    } else {
        base
    }
}

/// Reads a feed timestamp into milliseconds since the Unix epoch:
/// exactly `spec_parse_rfc3339` of the string.
pub fn parse_rfc3339_millis(s: &str) -> (r: Option<u64>)
    ensures
        r == spec_parse_rfc3339(s@),
{
    let n = s.unicode_len();
    if n < 20 {
        return None;
    }
    if !(s.get_char(4) == '-' && s.get_char(7) == '-' && s.get_char(10) == 'T' && s.get_char(13)
        == ':' && s.get_char(16) == ':') {
        return None;
    }
    let y = match read_digits(s, 0, 4) {
        Some(v) => v,
        None => {
            return None;
        },
    };
    let mo = match read_digits(s, 5, 2) {
        Some(v) => v,
        None => {
            return None;
        },
    };
    let d = match read_digits(s, 8, 2) {
        Some(v) => v,
        None => {
            return None;
        },
    };
    let h = match read_digits(s, 11, 2) {
        Some(v) => v,
        None => {
            return None;
        },
    };
    let mi = match read_digits(s, 14, 2) {
        Some(v) => v,
        None => {
            return None;
        },
    };
    let sec = match read_digits(s, 17, 2) {
        Some(v) => v,
        None => {
            return None;
        },
    };
    if y < 1970 || mo < 1 || mo > 12 || h > 23 || mi > 59 || sec > 59 {
        return None;
    }
    if d < 1 || d > days_in_month_u(y, mo) {
        return None;
    }
    let ms: u64;
    if n == 20 {
        if !(s.get_char(19) == 'Z') {
            return None;
        }
        ms = 0;
    } else {
        if !(s.get_char(19) == '.') {
            return None;
        }
        if n < 22 {
            return None;
        }
        if !(s.get_char(n - 1) == 'Z') {
            return None;
        }
        let mut i: usize = 20;
        while i < n - 1
            invariant
                22 <= n,
                n == s@.len(),
                20 <= i <= n - 1,
                all_digits(s@.subrange(20, i as int)),
            decreases n - 1 - i,
        {
            let c = s.get_char(i);
            let cu: u32 = c as u32;
            if cu < 48 || cu > 57 {
                proof {
                    assert(s@.subrange(20, s@.len() - 1)[i - 20] == s@[i as int]);
                }
                return None;
            }
            proof {
                lemma_all_digits_push(s@.subrange(20, i as int), s@[i as int]);
                assert(s@.subrange(20, i as int + 1) =~= s@.subrange(20, i as int).push(
                    s@[i as int],
                ));
            }
            i = i + 1;
        }
        let fl: usize = n - 21;
        let tl: usize = if fl < 3 {
            fl
        } else {
            3
        };
        proof {
            assert forall|j: int| 0 <= j < tl implies spec_is_digit(
                #[trigger] s@.subrange(20, 20 + tl as int)[j],
            ) by {
                assert(s@.subrange(20, 20 + tl as int)[j] == s@.subrange(20, s@.len() - 1)[j]);
            }
        }
        let fv = match read_digits(s, 20, tl) {
            Some(v) => v,
            None => {
                return None;
            },
        };
        proof {
            lemma_digits_val_bounds(s@.subrange(20, 20 + tl as int));
            lemma_pow10_adds(tl as nat, (3 - tl) as nat);
            assert(pow10(3) == 1000) by {
                reveal_with_fuel(pow10, 4);
            }
            lemma_pow10_pos((3 - tl) as nat);
            assert(fv * pow10((3 - tl) as nat) < pow10(tl as nat) * pow10((3 - tl) as nat)) by (
            nonlinear_arith)
                requires
                    fv < pow10(tl as nat),
                    pow10((3 - tl) as nat) >= 1,
            ;
        }
        ms = fv * pow10_u64(3 - tl);
    }
    proof {
        lemma_digits_val_bounds(s@.subrange(0, 4));
        assert(pow10(4) == 10000) by {
            reveal_with_fuel(pow10, 5);
        }
        lemma_leap_days_nonneg(y as int);
        lemma_div_is_ordered(y as int - 1, 9998, 4);
        lemma_div_is_ordered(y as int - 1, 9998, 400);
        lemma_div_pos_is_pos(y as int - 1, 100);
        lemma_div_pos_is_pos(y as int - 1, 4);
        lemma_div_pos_is_pos(y as int - 1, 400);
        lemma_fundamental_div_mod_converse(9998, 4, 2499, 2);
        lemma_fundamental_div_mod_converse(9998, 400, 24, 398);
    }
    let a: u64 = y - 1;
    let leaps: u64 = a / 4 + a / 400 - a / 100 - 477;
    let dbm = days_before_month_u(y, mo);
    let days: u64 = 365 * (y - 1970) + leaps + dbm + (d - 1);
    let total: u64 = ((days * 24 + h) * 60 + mi) * 60 + sec;
    Some(total * 1000 + ms)
}

} // verus!
