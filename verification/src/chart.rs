//! The chart model: everything a frame needs to draw one instrument's
//! pane, computed from a buffer snapshot.
//!
//! The time axis keeps the newest data visible with a trailing window
//! five times wider than the look-ahead margin; the price axis is the
//! user's ± band around the last price; the series color follows a simple
//! majority of buys over the snapshot. An empty snapshot yields no model
//! — the caller renders a placeholder and nothing fails.

use crate::digits::{pow10, spec_digits_of, spec_padded_digits, u64_to_padded_string, u64_to_string};
use crate::tick::{Side, Tick, PRICE_SCALE};
use vstd::arithmetic::div_mod::{
    lemma_div_is_ordered, lemma_div_multiples_vanish, lemma_div_pos_is_pos,
    lemma_mod_division_less_than_divisor,
};
use vstd::arithmetic::mul::lemma_mul_inequality;
use vstd::prelude::*;
use vstd::string::{StrSliceExecFns, StringExecFns};

verus! {

/// The fixed look-ahead margin of the time axis, in milliseconds.
pub const WINDOW_SPAN_MS: u64 = 60000;

/// Whether the snapshot leans to buys or not.
#[derive(Clone, Copy, Debug, PartialEq, Eq, Structural)]
pub enum Bias {
    Bullish,
    Bearish,
}

/// Buys in the snapshot.
pub open spec fn count_buys(ts: Seq<Tick>) -> int
    decreases ts.len(),
{
    if ts.len() == 0 {
        0
    } else {
        count_buys(ts.drop_last()) + (if ts.last().side == Side::Buy {
            1int
        } else {
            0int
        })
    }
}

/// A strict majority of buys is bullish; a tie or fewer is bearish.
pub open spec fn spec_bias(ts: Seq<Tick>) -> Bias {
    if count_buys(ts) > ts.len() / 2 {
        Bias::Bullish
    } else {
        Bias::Bearish
    }
}

/// The series color of each bias.
pub open spec fn spec_bias_color(b: Bias) -> crate::color::Rgb {
    match b {
        Bias::Bullish => crate::color::Rgb { r: 0, g: 255, b: 100 },
        Bias::Bearish => crate::color::Rgb { r: 255, g: 0, b: 100 },
    }
}

pub fn bias_color(b: Bias) -> (c: crate::color::Rgb)
    ensures
        c == spec_bias_color(b),
{
    match b {
        Bias::Bullish => crate::color::Rgb { r: 0, g: 255, b: 100 },
        Bias::Bearish => crate::color::Rgb { r: 255, g: 0, b: 100 },
    }
}

/// Lower price bound: the last price shrunk by `band` hundredths of a
/// percent.
pub open spec fn spec_y_lo(price: int, band: int) -> int {
    price * (10000 - band) / 10000
}

/// Upper price bound: the last price grown by `band` hundredths of a
/// percent.
pub open spec fn spec_y_hi(price: int, band: int) -> int {
    price * (10000 + band) / 10000
}

/// First position of `c` in `s`, or `s.len()` when absent.
pub open spec fn char_pos(s: Seq<char>, c: char) -> int
    decreases s.len(),
{
    if s.len() == 0 {
        0
    } else if s[0] == c {
        0
    } else {
        1 + char_pos(s.drop_first(), c)
    }
}

proof fn lemma_char_pos(s: Seq<char>, c: char)
    ensures
        0 <= char_pos(s, c) <= s.len(),
        char_pos(s, c) < s.len() ==> s[char_pos(s, c)] == c,
        forall|i: int| 0 <= i < char_pos(s, c) ==> s[i] != c,
    decreases s.len(),
{
    if s.len() == 0 {
    } else if s[0] == c {
    } else {
        lemma_char_pos(s.drop_first(), c);
        assert forall|i: int| 0 <= i < char_pos(s, c) implies s[i] != c by {
            if i > 0 {
                assert(s.drop_first()[i - 1] == s[i]);
            }
        }
        if char_pos(s, c) < s.len() {
            assert(s[char_pos(s, c)] == s.drop_first()[char_pos(s, c) - 1]);
        }
    }
}

/// The currency glyph of an instrument: the euro sign when the part after
/// the first `-` of the symbol is `EUR`, the dollar sign otherwise (also
/// for symbols without a `-`).
pub open spec fn spec_currency(coin: Seq<char>) -> char {
    let d = char_pos(coin, '-');
    if d < coin.len() && coin.subrange(d + 1, coin.len() as int) == "EUR"@ {
        '\u{20ac}'
    } else {
        '$'
    }
}

/// Picks the currency glyph for an instrument symbol.
pub fn currency_for(coin: &String) -> (c: char)
    ensures
        c == spec_currency(coin@),
{
    proof {
        lemma_char_pos(coin@, '-');
    }
    let s = coin.as_str();
    let n = s.unicode_len();
    let mut dp: usize = n;
    let mut i: usize = 0;
    while i < n
        invariant_except_break
            dp == n,
        invariant
            n == coin@.len(),
            i <= n,
            forall|j: int| 0 <= j < i ==> coin@[j] != '-',
            s@ == coin@,
        ensures
            s@ == coin@,
            dp == n && (forall|j: int| 0 <= j < n ==> coin@[j] != '-') || dp < n
                && coin@[dp as int] == '-' && (forall|j: int| 0 <= j < dp ==> coin@[j] != '-'),
        decreases n - i,
    {
        if s.get_char(i) == '-' {
            dp = i;
            break ;
        }
        i = i + 1;
    }
    proof {
        assert(char_pos(coin@, '-') == dp as int);
    }
    if dp == n {
        return '$';
    }
    let tail = s.substring_char(dp + 1, n);
    if tail.to_owned() == String::from_str("EUR") {
        '\u{20ac}'
    } else {
        '$'
    }
}

/// A fixed-point price written with two decimal places, truncated:
/// integer part, a dot, and two fraction digits.
pub open spec fn spec_price_2dp(v: nat) -> Seq<char> {
    spec_digits_of(v / (PRICE_SCALE as nat)) + "."@ + spec_padded_digits(
        v % (PRICE_SCALE as nat) / 1000000,
        2,
    )
}

/// Writes a fixed-point price with two decimal places.
pub fn price_2dp(v: u64) -> (s: String)
    ensures
        s@ == spec_price_2dp(v as nat),
{
    proof {
        reveal_strlit(".");
        lemma_mod_division_less_than_divisor(v as int, PRICE_SCALE as int);
        lemma_div_pos_is_pos(v as int, PRICE_SCALE as int);
        lemma_div_is_ordered((v % PRICE_SCALE) as int, PRICE_SCALE as int - 1, 1000000);
        lemma_div_pos_is_pos((v % PRICE_SCALE) as int, 1000000);
        assert(pow10(2) == 100) by {
            reveal_with_fuel(crate::digits::pow10, 3);
        }
    }
    let ip = v / PRICE_SCALE;
    let fr = (v % PRICE_SCALE) / 1000000;
    let s = u64_to_string(ip);
    let s = s.concat(".");
    let s = s.concat(u64_to_padded_string(fr, 2).as_str());
    assert(s@ =~= spec_price_2dp(v as nat));
    s
}

/// The pane title: the instrument symbol, a dash, and the sample count.
pub open spec fn spec_title(coin: Seq<char>, n: nat) -> Seq<char> {
    coin + " - "@ + spec_digits_of(n)
}

fn currency_prefix(c: char) -> (s: &'static str)
    requires
        c == '$' || c == '\u{20ac}',
    ensures
        s@ =~= seq![c],
{
    proof {
        reveal_strlit("$");
        reveal_strlit("\u{20ac}");
    }
    if c == '$' {
        "$"
    } else {
        "\u{20ac}"
    }
}

/// What one frame draws for one instrument, computed from a snapshot.
pub struct ChartModel {
    /// One point per tick, in arrival order: time and fixed-point price.
    pub points: Vec<(u64, u64)>,
    /// Time axis bounds: a trailing window of five spans and one span of
    /// look-ahead.
    pub x_min: u64,
    pub x_max: u64,
    /// Price axis bounds: the band around the last price.
    pub y_min: u64,
    pub y_max: u64,
    /// Majority side of the snapshot, deciding the series color.
    pub bias: Bias,
    /// Symbol and sample count.
    pub title: String,
    /// Currency glyph of the symbol's quote currency.
    pub currency: char,
    /// Price axis labels: the lower bound with its distance below the
    /// last price, the last price, and the upper bound with its distance
    /// above, each led by the currency glyph.
    pub label_low: String,
    pub label_mid: String,
    pub label_high: String,
}

/// Computes the chart model for one pane.
///
/// Yields a model exactly when the snapshot is non-empty; an empty
/// snapshot yields nothing and the caller draws a placeholder, so rendering
/// an unknown instrument never fails. `band_c` is the price band in
/// hundredths of a percent; `span_ms` the look-ahead margin.
pub fn build_chart_model(coin: &String, ticks: &Vec<Tick>, band_c: u32, now_ms: u64, span_ms: u64) -> (r:
    Option<ChartModel>)
    requires
        band_c <= 10000,
        span_ms <= 1000000000,
        now_ms + span_ms <= u64::MAX,
    ensures
        (r is Some) == (ticks@.len() != 0),
        (r matches Some(m) ==> {
            &&& m.points@ == ticks@.map_values(|t: Tick| (t.time_ms, t.price))
            &&& m.x_min == (if now_ms >= 5 * span_ms {
                now_ms - 5 * span_ms
            } else {
                0
            })
            &&& m.x_max == now_ms + span_ms
            &&& m.y_min == spec_y_lo(ticks@.last().price as int, band_c as int)
            &&& m.y_max == (if spec_y_hi(ticks@.last().price as int, band_c as int)
                <= u64::MAX {
                spec_y_hi(ticks@.last().price as int, band_c as int)
            } else {
                u64::MAX as int
            })
            &&& m.bias == spec_bias(ticks@)
            &&& m.title@ == spec_title(coin@, ticks@.len())
            &&& m.currency == spec_currency(coin@)
            &&& m.y_min <= ticks@.last().price <= m.y_max
            &&& m.label_low@ == seq![m.currency] + spec_price_2dp(m.y_min as nat) + "-"@
                + spec_price_2dp((ticks@.last().price - m.y_min) as nat)
            &&& m.label_mid@ == seq![m.currency] + spec_price_2dp(ticks@.last().price as nat)
            &&& m.label_high@ == seq![m.currency] + spec_price_2dp(m.y_max as nat) + "+"@
                + spec_price_2dp((m.y_max - ticks@.last().price) as nat)
        }),
{
    let n = ticks.len();
    if n == 0 {
        return None;
    }
    // Series points.
    let mut points: Vec<(u64, u64)> = Vec::new();
    let mut i: usize = 0;
    while i < n
        invariant
            n == ticks@.len(),
            i <= n,
            points@ =~= ticks@.subrange(0, i as int).map_values(
                |t: Tick| (t.time_ms, t.price),
            ),
        decreases n - i,
    {
        let t = &ticks[i];
        points.push((t.time_ms, t.price));
        i = i + 1;
        assert(points@ =~= ticks@.subrange(0, i as int).map_values(
            |t: Tick| (t.time_ms, t.price),
        ));
    }
    assert(ticks@.subrange(0, n as int) =~= ticks@);
    // Buy majority.
    let mut buys: usize = 0;
    let mut i: usize = 0;
    while i < n
        invariant
            n == ticks@.len(),
            i <= n,
            buys <= i,
            buys == count_buys(ticks@.subrange(0, i as int)),
        decreases n - i,
    {
        if ticks[i].side == Side::Buy {
            buys = buys + 1;
        }
        i = i + 1;
        assert(ticks@.subrange(0, i as int).drop_last() =~= ticks@.subrange(0, i - 1));
    }
    let bias = if buys > n / 2 {
        Bias::Bullish
    } else {
        Bias::Bearish
    };
    // Axis bounds.
    let x_min: u64 = if now_ms >= 5 * span_ms {
        now_ms - 5 * span_ms
    } else {
        0
    };
    let x_max: u64 = now_ms + span_ms;
    let price = ticks[n - 1].price;
    proof {
        assert(ticks@[n - 1] == ticks@.last());
        lemma_mul_inequality(10000 - band_c as int, 10000, price as int);
        lemma_div_is_ordered(
            (price as int) * (10000 - band_c as int),
            (price as int) * 10000,
            10000,
        );
        lemma_div_multiples_vanish(price as int, 10000);
        lemma_div_pos_is_pos((price as int) * (10000 - band_c as int), 10000);
        assert((price as int) * (10000 - band_c as int) >= 0) by (nonlinear_arith)
            requires
                price as int >= 0,
                10000 - band_c as int >= 0,
        ;
        assert((price as int) * 10000 == 10000 * (price as int)) by (nonlinear_arith);
        assert((price as u128) * ((10000 - band_c) as u128) < u128::MAX) by (nonlinear_arith)
            requires
                price <= u64::MAX,
                band_c <= 10000,
        ;
        assert((price as u128) * ((10000 + band_c) as u128) < u128::MAX) by (nonlinear_arith)
            requires
                price <= u64::MAX,
                band_c <= 10000,
        ;
        lemma_div_pos_is_pos((price as int) * (10000 + band_c as int), 10000);
    }
    proof {
        lemma_mul_inequality(10000, 10000 + band_c as int, price as int);
        lemma_div_is_ordered(
            (price as int) * 10000,
            (price as int) * (10000 + band_c as int),
            10000,
        );
    }
    let y_min: u64 = (((price as u128) * ((10000 - band_c) as u128)) / 10000u128) as u64;
    let hi128: u128 = ((price as u128) * ((10000 + band_c) as u128)) / 10000u128;
    let y_max: u64 = if hi128 > u64::MAX as u128 {
        u64::MAX
    } else {
        hi128 as u64
    };
    assert(y_min <= price <= y_max);
    // Title and currency.
    proof {
        reveal_strlit(" - ");
    }
    let title = coin.clone().concat(" - ").concat(u64_to_string(n as u64).as_str());
    assert(title@ =~= spec_title(coin@, ticks@.len()));
    let currency = currency_for(coin);
    assert(currency == '$' || currency == '\u{20ac}');
    // Price axis labels.
    proof {
        reveal_strlit("-");
        reveal_strlit("+");
    }
    let cs = currency_prefix(currency);
    let label_low = String::from_str(cs).concat(price_2dp(y_min).as_str()).concat("-").concat(
        price_2dp(price - y_min).as_str(),
    );
    let label_mid = String::from_str(cs).concat(price_2dp(price).as_str());
    let label_high = String::from_str(cs).concat(price_2dp(y_max).as_str()).concat("+").concat(
        price_2dp(y_max - price).as_str(),
    );
    assert(label_low@ =~= seq![currency] + spec_price_2dp(y_min as nat) + "-"@ + spec_price_2dp(
        (price - y_min) as nat,
    ));
    assert(label_mid@ =~= seq![currency] + spec_price_2dp(price as nat));
    assert(label_high@ =~= seq![currency] + spec_price_2dp(y_max as nat) + "+"@ + spec_price_2dp(
        (y_max - price) as nat,
    ));
    Some(
        ChartModel {
            points,
            x_min,
            x_max,
            y_min,
            y_max,
            bias,
            title,
            currency,
            label_low,
            label_mid,
            label_high,
        },
    )
}

} // verus!
