//! Tick records and their decoding.
//!
//! The feed delivers every numeric field as decimal text. A raw record —
//! plain strings, as read off the wire — is decoded into a typed `Tick`:
//! prices as fixed-point integers with eight decimal places, the side as
//! an enum, the timestamp as epoch milliseconds. One malformed field
//! fails the whole record with an error naming the first bad field; such
//! records are dropped by the ingestor and never reach the buffer.

use crate::digits::{
    all_digits, digits_val, lemma_all_digits_push, lemma_digits_val_bounds,
    lemma_digits_val_prefix, lemma_digits_val_push, lemma_pow10_adds, lemma_pow10_pos, pow10,
    pow10_u64, read_digits, spec_is_digit,
};
use crate::timestamp::{parse_rfc3339_millis, spec_parse_rfc3339};
use vstd::arithmetic::div_mod::{
    lemma_fundamental_div_mod, lemma_mod_division_less_than_divisor,
};
use vstd::arithmetic::mul::lemma_mul_inequality;
use vstd::prelude::*;
use vstd::string::StrSliceExecFns;
use vstd::string::StringExecFns;

verus! {

/// Whether a trade hit the bid or lifted the ask.
#[derive(Clone, Copy, Debug, PartialEq, Eq, Structural)]
pub enum Side {
    Buy,
    Sell,
}

/// Fixed-point prices carry eight decimal places: one unit of account is
/// `PRICE_SCALE` price units.
pub const PRICE_SCALE: u64 = 100000000;

/// Index of the first `.` in `s`, or `s.len()` when there is none.
pub open spec fn dot_pos(s: Seq<char>) -> int
    decreases s.len(),
{
    if s.len() == 0 {
        0
    } else if s[0] == '.' {
        0
    } else {
        1 + dot_pos(s.drop_first())
    }
}

pub proof fn lemma_dot_pos(s: Seq<char>)
    ensures
        0 <= dot_pos(s) <= s.len(),
        dot_pos(s) < s.len() ==> s[dot_pos(s)] == '.',
        forall|i: int| 0 <= i < dot_pos(s) ==> s[i] != '.',
    decreases s.len(),
{
    if s.len() == 0 {
    } else if s[0] == '.' {
    } else {
        lemma_dot_pos(s.drop_first());
        assert forall|i: int| 0 <= i < dot_pos(s) implies s[i] != '.' by {
            if i > 0 {
                assert(s.drop_first()[i - 1] == s[i]);
            }
        }
        if dot_pos(s) < s.len() {
            assert(s[dot_pos(s)] == s.drop_first()[dot_pos(s) - 1]);
        }
    }
}

/// A well-formed decimal price: digits, optionally a `.` with at least
/// one digit behind it.
pub open spec fn spec_price_valid(s: Seq<char>) -> bool {
    let d = dot_pos(s);
    if d == s.len() {
        s.len() >= 1 && all_digits(s)
    } else {
        &&& 1 <= d
        &&& d + 2 <= s.len()
        &&& all_digits(s.subrange(0, d))
        &&& all_digits(s.subrange(d + 1, s.len() as int))
    }
}

/// The fixed-point value of a decimal price string: the integer part
/// scaled up, plus the first eight fraction digits padded with zeros.
pub open spec fn spec_price_value(s: Seq<char>) -> int {
    let d = dot_pos(s);
    if d == s.len() {
        digits_val(s) * (PRICE_SCALE as int)
    } else {
        let fr = s.subrange(d + 1, s.len() as int);
        let tl = if fr.len() <= 8 {
            fr.len() as int
        } else {
            8int
        };
        digits_val(s.subrange(0, d)) * (PRICE_SCALE as int) + digits_val(fr.subrange(0, tl))
            * pow10((8 - tl) as nat)
    }
}

/// What parsing a price yields: its fixed-point value when the string is
/// well formed and the value fits a machine word, nothing otherwise.
pub open spec fn spec_parse_price(s: Seq<char>) -> Option<u64> {
    if spec_price_valid(s) && spec_price_value(s) <= u64::MAX {
        Some(spec_price_value(s) as u64)
    } else {
        None
    }
}

/// Reads `s@[from..to]` as a number: its value when all characters are
/// digits and the value fits, otherwise nothing — then either a character
/// is not a digit or the digits outgrow a machine word.
fn parse_digits_capped(s: &str, from: usize, to: usize) -> (r: Option<u64>)
    requires
        from <= to <= s@.len(),
        to <= usize::MAX,
    ensures
        (match r {
            Some(v) => all_digits(s@.subrange(from as int, to as int)) && v == digits_val(
                s@.subrange(from as int, to as int),
            ),
            None => !all_digits(s@.subrange(from as int, to as int)) || digits_val(
                s@.subrange(from as int, to as int),
            ) > u64::MAX,
        }),
{
    let mut acc: u64 = 0;
    let mut i: usize = from;
    while i < to
        invariant
            from <= i <= to <= s@.len(),
            to <= usize::MAX,
            all_digits(s@.subrange(from as int, i as int)),
            acc == digits_val(s@.subrange(from as int, i as int)),
        decreases to - i,
    {
        let c = s.get_char(i);
        let cu: u32 = c as u32;
        if cu < 48 || cu > 57 {
            proof {
                assert(s@.subrange(from as int, to as int)[i - from] == s@[i as int]);
            }
            return None;
        }
        let d: u64 = (cu - 48) as u64;
        proof {
            lemma_digits_val_push(s@.subrange(from as int, i as int), s@[i as int]);
            lemma_all_digits_push(s@.subrange(from as int, i as int), s@[i as int]);
            assert(s@.subrange(from as int, i + 1) =~= s@.subrange(from as int, i as int).push(
                s@[i as int],
            ));
            lemma_fundamental_div_mod(u64::MAX - d, 10);
            lemma_mod_division_less_than_divisor(u64::MAX - d, 10);
        }
        if acc > (u64::MAX - d) / 10 {
            proof {
                let whole = s@.subrange(from as int, to as int);
                if all_digits(whole) {
                    lemma_digits_val_prefix(whole, i + 1 - from, to - from as int);
                    assert(whole.subrange(0, i + 1 - from) =~= s@.subrange(from as int, i + 1));
                    assert(whole.subrange(0, to - from as int) =~= whole);
                }
            }
            return None;
        }
        acc = acc * 10 + d;
        i = i + 1;
    }
    proof {
        assert(s@.subrange(from as int, to as int) =~= s@.subrange(from as int, i as int));
    }
    Some(acc)
}

/// Parses a decimal price string into its fixed-point value: exactly
/// `spec_parse_price`.
pub fn parse_price(s: &str) -> (r: Option<u64>)
    ensures
        r == spec_parse_price(s@),
{
    let n = s.unicode_len();
    if n == 0 {
        return None;
    }
    // Find the first dot.
    let mut dp: usize = n;
    let mut i: usize = 0;
    while i < n
        invariant_except_break
            dp == n,
        invariant
            n == s@.len(),
            i <= n,
            forall|j: int| 0 <= j < i ==> s@[j] != '.',
        ensures
            dp == n && (forall|j: int| 0 <= j < n ==> s@[j] != '.') || dp < n && s@[dp as int]
                == '.' && (forall|j: int| 0 <= j < dp ==> s@[j] != '.'),
        decreases n - i,
    {
        if s.get_char(i) == '.' {
            dp = i;
            break ;
        }
        i = i + 1;
    }
    proof {
        lemma_dot_pos(s@);
        assert(dot_pos(s@) == dp as int);
    }
    if dp == n {
        match parse_digits_capped(s, 0, n) {
            Some(ip) => {
                proof {
                    assert(s@.subrange(0, n as int) =~= s@);
                    lemma_fundamental_div_mod(u64::MAX as int, PRICE_SCALE as int);
                    lemma_mod_division_less_than_divisor(u64::MAX as int, PRICE_SCALE as int);
                }
                if ip > u64::MAX / PRICE_SCALE {
                    return None;
                }
                Some(ip * PRICE_SCALE)
            },
            None => {
                proof {
                    assert(s@.subrange(0, n as int) =~= s@);
                    if all_digits(s@) {
                        lemma_digits_val_bounds(s@);
                        lemma_mul_inequality(1, PRICE_SCALE as int, digits_val(s@));
                    }
                }
                None
            },
        }
    } else {
        if dp == 0 {
            return None;
        }
        if n - dp < 2 {
            return None;
        }
        // Every fraction character must be a digit.
        let mut i: usize = dp + 1;
        while i < n
            invariant
                n == s@.len(),
                dot_pos(s@) == dp as int,
                1 <= dp,
                dp + 2 <= n,
                dp + 1 <= i <= n,
                all_digits(s@.subrange(dp + 1, i as int)),
            decreases n - i,
        {
            let c = s.get_char(i);
            let cu: u32 = c as u32;
            if cu < 48 || cu > 57 {
                proof {
                    assert(s@.subrange(dp + 1, n as int)[i - dp - 1] == s@[i as int]);
                }
                return None;
            }
            proof {
                lemma_all_digits_push(s@.subrange(dp + 1, i as int), s@[i as int]);
                assert(s@.subrange(dp + 1, i + 1) =~= s@.subrange(dp + 1, i as int).push(
                    s@[i as int],
                ));
            }
            i = i + 1;
        }
        let fl: usize = n - dp - 1;
        let tl: usize = if fl < 8 {
            fl
        } else {
            8
        };
        proof {
            assert forall|j: int| 0 <= j < tl implies spec_is_digit(
                #[trigger] s@.subrange(dp + 1, dp + 1 + tl as int)[j],
            ) by {
                assert(s@.subrange(dp + 1, dp + 1 + tl as int)[j] == s@.subrange(
                    dp + 1,
                    n as int,
                )[j]);
            }
        }
        let fv = match read_digits(s, dp + 1, tl) {
            Some(v) => v,
            None => {
                return None;
            },
        };
        proof {
            lemma_digits_val_bounds(s@.subrange(dp + 1, dp + 1 + tl as int));
            lemma_pow10_adds(tl as nat, (8 - tl) as nat);
            assert(pow10(8) == 100000000) by {
                reveal_with_fuel(pow10, 9);
            }
            lemma_pow10_pos((8 - tl) as nat);
            assert(fv * pow10((8 - tl) as nat) < pow10(tl as nat) * pow10((8 - tl) as nat)) by (
            nonlinear_arith)
                requires
                    fv < pow10(tl as nat),
                    pow10((8 - tl) as nat) >= 1,
            ;
            let fr = s@.subrange(dp + 1, n as int);
            assert(fr.subrange(0, tl as int) =~= s@.subrange(dp + 1, dp + 1 + tl as int));
        }
        let fscaled: u64 = fv * pow10_u64(8 - tl);
        match parse_digits_capped(s, 0, dp) {
            Some(ip) => {
                proof {
                    lemma_fundamental_div_mod(u64::MAX - fscaled, PRICE_SCALE as int);
                    lemma_mod_division_less_than_divisor(
                        u64::MAX - fscaled,
                        PRICE_SCALE as int,
                    );
                }
                if ip > (u64::MAX - fscaled) / PRICE_SCALE {
                    return None;
                }
                Some(ip * PRICE_SCALE + fscaled)
            },
            None => {
                proof {
                    if all_digits(s@.subrange(0, dp as int)) {
                        lemma_digits_val_bounds(s@.subrange(0, dp as int));
                        lemma_mul_inequality(
                            1,
                            PRICE_SCALE as int,
                            digits_val(s@.subrange(0, dp as int)),
                        );
                        lemma_digits_val_bounds(s@.subrange(dp + 1, dp + 1 + tl as int));
                        assert(digits_val(s@.subrange(dp + 1, dp + 1 + tl as int)) * pow10(
                            (8 - tl) as nat,
                        ) >= 0) by (nonlinear_arith)
                            requires
                                digits_val(s@.subrange(dp + 1, dp + 1 + tl as int)) >= 0,
                                pow10((8 - tl) as nat) >= 1,
                        ;
                        let fr = s@.subrange(dp + 1, n as int);
                        assert(fr.subrange(0, tl as int) =~= s@.subrange(
                            dp + 1,
                            dp + 1 + tl as int,
                        ));
                    }
                }
                None
            },
        }
    }
}

/// Which side string the feed sent: `buy`, `sell`, or something else.
pub open spec fn spec_parse_side(s: Seq<char>) -> Option<Side> {
    if s == "buy"@ {
        Some(Side::Buy)
    } else if s == "sell"@ {
        Some(Side::Sell)
    } else {
        None
    }
}

pub fn parse_side(s: &str) -> (r: Option<Side>)
    ensures
        r == spec_parse_side(s@),
{
    let owned = s.to_owned();
    if owned == String::from_str("buy") {
        Some(Side::Buy)
    } else if owned == String::from_str("sell") {
        Some(Side::Sell)
    } else {
        None
    }
}

/// One tick record as read off the wire, every field still text.
#[derive(Debug)]
pub struct RawTick {
    pub product_id: String,
    pub price: String,
    pub side: String,
    pub time: String,
    pub sequence: usize,
    pub best_bid: String,
    pub best_ask: String,
    pub high_24h: String,
    pub low_24h: String,
    pub volume_24h: String,
}

/// One decoded tick: fixed-point prices, typed side, epoch-millisecond
/// timestamp. Never mutated after decoding.
#[derive(Debug)]
pub struct Tick {
    pub product_id: String,
    pub price: u64,
    pub side: Side,
    pub time_ms: u64,
    pub sequence: usize,
    pub best_bid: u64,
    pub best_ask: u64,
    pub high_24h: u64,
    pub low_24h: u64,
    pub volume_24h: u64,
}

impl Clone for RawTick {
    /// A clone is the same record.
    fn clone(&self) -> (r: Self)
        ensures
            r == *self,
    {
        RawTick {
            product_id: self.product_id.clone(),
            price: self.price.clone(),
            side: self.side.clone(),
            time: self.time.clone(),
            sequence: self.sequence,
            best_bid: self.best_bid.clone(),
            best_ask: self.best_ask.clone(),
            high_24h: self.high_24h.clone(),
            low_24h: self.low_24h.clone(),
            volume_24h: self.volume_24h.clone(),
        }
    }
}

impl Clone for Tick {
    /// A clone is the same tick.
    fn clone(&self) -> (r: Self)
        ensures
            r == *self,
    {
        Tick {
            product_id: self.product_id.clone(),
            price: self.price,
            side: self.side,
            time_ms: self.time_ms,
            sequence: self.sequence,
            best_bid: self.best_bid,
            best_ask: self.best_ask,
            high_24h: self.high_24h,
            low_24h: self.low_24h,
            volume_24h: self.volume_24h,
        }
    }
}

/// The first field of a raw record that failed to decode.
#[derive(Clone, Copy, Debug, PartialEq, Eq, Structural)]
pub enum DecodeError {
    BadPrice,
    BadSide,
    BadTime,
    BadBid,
    BadAsk,
    BadHigh,
    BadLow,
    BadVolume,
}

/// Every field of a raw record decodes.
pub open spec fn spec_raw_ok(raw: RawTick) -> bool {
    &&& spec_parse_price(raw.price@) is Some
    &&& spec_parse_side(raw.side@) is Some
    &&& spec_parse_rfc3339(raw.time@) is Some
    &&& spec_parse_price(raw.best_bid@) is Some
    &&& spec_parse_price(raw.best_ask@) is Some
    &&& spec_parse_price(raw.high_24h@) is Some
    &&& spec_parse_price(raw.low_24h@) is Some
    &&& spec_parse_price(raw.volume_24h@) is Some
}

/// Decodes a raw record into a tick.
///
/// Succeeds exactly when every field decodes; the result carries each
/// field's decoded value. Otherwise the error names the first field, in
/// wire order, that failed.
pub fn decode_tick(raw: RawTick) -> (r: Result<Tick, DecodeError>)
    ensures
        (r is Ok) == spec_raw_ok(raw),
        (r matches Ok(t) ==> {
            &&& Some(t.price) == spec_parse_price(raw.price@)
            &&& Some(t.side) == spec_parse_side(raw.side@)
            &&& Some(t.time_ms) == spec_parse_rfc3339(raw.time@)
            &&& Some(t.best_bid) == spec_parse_price(raw.best_bid@)
            &&& Some(t.best_ask) == spec_parse_price(raw.best_ask@)
            &&& Some(t.high_24h) == spec_parse_price(raw.high_24h@)
            &&& Some(t.low_24h) == spec_parse_price(raw.low_24h@)
            &&& Some(t.volume_24h) == spec_parse_price(raw.volume_24h@)
            &&& t.product_id == raw.product_id
            &&& t.sequence == raw.sequence
        }),
        (r matches Err(e) ==> e == spec_decode_error(raw)),
{
    let price = match parse_price(raw.price.as_str()) {
        Some(v) => v,
        None => {
            return Err(DecodeError::BadPrice);
        },
    };
    let side = match parse_side(raw.side.as_str()) {
        Some(v) => v,
        None => {
            return Err(DecodeError::BadSide);
        },
    };
    let time_ms = match parse_rfc3339_millis(raw.time.as_str()) {
        Some(v) => v,
        None => {
            return Err(DecodeError::BadTime);
        },
    };
    let best_bid = match parse_price(raw.best_bid.as_str()) {
        Some(v) => v,
        None => {
            return Err(DecodeError::BadBid);
        },
    };
    let best_ask = match parse_price(raw.best_ask.as_str()) {
        Some(v) => v,
        None => {
            return Err(DecodeError::BadAsk);
        },
    };
    let high_24h = match parse_price(raw.high_24h.as_str()) {
        Some(v) => v,
        None => {
            return Err(DecodeError::BadHigh);
        },
    };
    let low_24h = match parse_price(raw.low_24h.as_str()) {
        Some(v) => v,
        None => {
            return Err(DecodeError::BadLow);
        },
    };
    let volume_24h = match parse_price(raw.volume_24h.as_str()) {
        Some(v) => v,
        None => {
            return Err(DecodeError::BadVolume);
        },
    };
    Ok(
        Tick {
            product_id: raw.product_id,
            price,
            side,
            time_ms,
            sequence: raw.sequence,
            best_bid,
            best_ask,
            high_24h,
            low_24h,
            volume_24h,
        },
    )
}

/// The first field, in wire order, that fails to decode.
pub open spec fn spec_decode_error(raw: RawTick) -> DecodeError {
    if spec_parse_price(raw.price@) is None {
        DecodeError::BadPrice
    } else if spec_parse_side(raw.side@) is None {
        DecodeError::BadSide
    } else if spec_parse_rfc3339(raw.time@) is None {
        DecodeError::BadTime
    } else if spec_parse_price(raw.best_bid@) is None {
        DecodeError::BadBid
    } else if spec_parse_price(raw.best_ask@) is None {
        DecodeError::BadAsk
    } else if spec_parse_price(raw.high_24h@) is None {
        DecodeError::BadHigh
    } else if spec_parse_price(raw.low_24h@) is None {
        DecodeError::BadLow
    } else {
        DecodeError::BadVolume
    }
}

} // verus!
