//! Colors, gradients, decoding and timestamps, exercised on concrete
//! values.

use coinwatch::color::{gradient_for, interpolate_color, GradientConfig, Rgb};
use coinwatch::tick::{decode_tick, parse_price, parse_side, DecodeError, RawTick, Side};
use coinwatch::timestamp::parse_rfc3339_millis;

fn rgb(r: u8, g: u8, b: u8) -> Rgb {
    Rgb { r, g, b }
}

#[test]
fn interpolate_midpoint_is_halfway() {
    let c = interpolate_color(rgb(255, 0, 0), rgb(0, 0, 255), 1, 2);
    assert!(c.r == 127 || c.r == 128);
    assert_eq!(c.g, 0);
    assert!(c.b == 127 || c.b == 128);
}

#[test]
fn interpolate_zero_is_start() {
    let c = interpolate_color(rgb(12, 200, 7), rgb(255, 0, 99), 0, 7);
    assert_eq!(c, rgb(12, 200, 7));
}

#[test]
fn interpolate_full_is_end() {
    let c = interpolate_color(rgb(12, 200, 7), rgb(255, 0, 99), 7, 7);
    assert_eq!(c, rgb(255, 0, 99));
}

#[test]
fn gradient_table_known_and_fallback() {
    let btc = gradient_for(&String::from("BTC"));
    assert_eq!(btc, GradientConfig::new_1(rgb(247, 147, 26)));
    let sol = gradient_for(&String::from("SOL"));
    assert_eq!(
        sol,
        GradientConfig::new_4(rgb(154, 69, 254), rgb(87, 152, 203), rgb(21, 240, 150), rgb(87, 152, 203))
    );
    let other = gradient_for(&String::from("NOPE"));
    assert_eq!(other, GradientConfig::default());
}

#[test]
fn price_parses_integers_and_decimals() {
    assert_eq!(parse_price("111.08"), Some(11_108_000_000));
    assert_eq!(parse_price("123"), Some(12_300_000_000));
    assert_eq!(parse_price("0.00001234"), Some(1234));
    assert_eq!(parse_price("0.123456789"), Some(12_345_678));
}

#[test]
fn price_rejects_malformed_text() {
    assert_eq!(parse_price(""), None);
    assert_eq!(parse_price("12."), None);
    assert_eq!(parse_price(".5"), None);
    assert_eq!(parse_price("a1"), None);
    assert_eq!(parse_price("1.2.3"), None);
    assert_eq!(parse_price("-1"), None);
    assert_eq!(parse_price("999999999999999999999"), None);
}

#[test]
fn side_parses_buy_and_sell_only() {
    assert_eq!(parse_side("buy"), Some(Side::Buy));
    assert_eq!(parse_side("sell"), Some(Side::Sell));
    assert_eq!(parse_side("hold"), None);
    assert_eq!(parse_side("BUY"), None);
}

#[test]
fn timestamp_epoch_is_zero() {
    assert_eq!(parse_rfc3339_millis("1970-01-01T00:00:00Z"), Some(0));
}

#[test]
fn timestamp_feed_format() {
    assert_eq!(
        parse_rfc3339_millis("2022-10-19T23:28:22.061769Z"),
        Some(1_666_222_102_061)
    );
}

#[test]
fn timestamp_leap_day() {
    assert_eq!(
        parse_rfc3339_millis("2020-02-29T12:00:00Z"),
        Some(1_582_977_600_000)
    );
    assert_eq!(parse_rfc3339_millis("2021-02-29T12:00:00Z"), None);
}

#[test]
fn timestamp_rejects_malformed_text() {
    assert_eq!(parse_rfc3339_millis(""), None);
    assert_eq!(parse_rfc3339_millis("2022-13-01T00:00:00Z"), None);
    assert_eq!(parse_rfc3339_millis("2022-10-19T23:28:22"), None);
    assert_eq!(parse_rfc3339_millis("2022-10-19T23:28:22.Z"), None);
    assert_eq!(parse_rfc3339_millis("1969-12-31T23:59:59Z"), None);
}

fn good_raw() -> RawTick {
    RawTick {
        product_id: String::from("BTC-USD"),
        price: String::from("100.5"),
        side: String::from("buy"),
        time: String::from("2022-10-19T23:28:22.061769Z"),
        sequence: 7,
        best_bid: String::from("100.4"),
        best_ask: String::from("100.6"),
        high_24h: String::from("110"),
        low_24h: String::from("90"),
        volume_24h: String::from("12345.5"),
    }
}

#[test]
fn decode_accepts_a_good_record() {
    let t = decode_tick(good_raw()).unwrap();
    assert_eq!(t.product_id, "BTC-USD");
    assert_eq!(t.price, 10_050_000_000);
    assert_eq!(t.side, Side::Buy);
    assert_eq!(t.time_ms, 1_666_222_102_061);
    assert_eq!(t.sequence, 7);
    assert_eq!(t.best_bid, 10_040_000_000);
    assert_eq!(t.best_ask, 10_060_000_000);
    assert_eq!(t.high_24h, 11_000_000_000);
    assert_eq!(t.low_24h, 9_000_000_000);
    assert_eq!(t.volume_24h, 1_234_550_000_000);
}

#[test]
fn decode_names_the_first_bad_field() {
    let mut r = good_raw();
    r.price = String::from("x");
    assert_eq!(decode_tick(r).unwrap_err(), DecodeError::BadPrice);
    let mut r = good_raw();
    r.side = String::from("hold");
    assert_eq!(decode_tick(r).unwrap_err(), DecodeError::BadSide);
    let mut r = good_raw();
    r.time = String::from("yesterday");
    assert_eq!(decode_tick(r).unwrap_err(), DecodeError::BadTime);
    let mut r = good_raw();
    r.best_bid = String::from("");
    assert_eq!(decode_tick(r).unwrap_err(), DecodeError::BadBid);
    let mut r = good_raw();
    r.best_ask = String::from("1..");
    assert_eq!(decode_tick(r).unwrap_err(), DecodeError::BadAsk);
    let mut r = good_raw();
    r.high_24h = String::from("hi");
    assert_eq!(decode_tick(r).unwrap_err(), DecodeError::BadHigh);
    let mut r = good_raw();
    r.low_24h = String::from("lo");
    assert_eq!(decode_tick(r).unwrap_err(), DecodeError::BadLow);
    let mut r = good_raw();
    r.volume_24h = String::from("-");
    assert_eq!(decode_tick(r).unwrap_err(), DecodeError::BadVolume);
}
