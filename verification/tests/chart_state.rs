//! The chart model and the application state machine, exercised on
//! concrete values.

use coinwatch::chart::{build_chart_model, price_2dp, Bias, WINDOW_SPAN_MS};
use coinwatch::state::{App, AppEvent, KeyCode, KeyPress};
use coinwatch::tick::{Side, Tick};

fn tick(side: Side, price: u64, at: u64) -> Tick {
    Tick {
        product_id: String::from("BTC-USD"),
        price,
        side,
        time_ms: at,
        sequence: 0,
        best_bid: 0,
        best_ask: 0,
        high_24h: 0,
        low_24h: 0,
        volume_24h: 0,
    }
}

#[test]
fn empty_snapshot_yields_a_placeholder() {
    let coin = String::from("BTC-USD");
    let ticks: Vec<Tick> = Vec::new();
    let m = build_chart_model(&coin, &ticks, 50, 1_000_000, WINDOW_SPAN_MS);
    assert!(m.is_none());
}

#[test]
fn price_band_bounds_are_exact() {
    // Last price 100, band 0.5 percent: bounds exactly 99.5 and 100.5.
    let coin = String::from("BTC-USD");
    let ticks = vec![tick(Side::Buy, 10_000_000_000, 500)];
    let m = build_chart_model(&coin, &ticks, 50, 1_000_000, WINDOW_SPAN_MS).unwrap();
    assert_eq!(m.y_min, 9_950_000_000);
    assert_eq!(m.y_max, 10_050_000_000);
    assert_eq!(price_2dp(m.y_min), "99.50");
    assert_eq!(price_2dp(m.y_max), "100.50");
    assert_eq!(m.label_low, "$99.50-0.50");
    assert_eq!(m.label_mid, "$100.00");
    assert_eq!(m.label_high, "$100.50+0.50");
}

#[test]
fn time_axis_trails_five_spans() {
    let coin = String::from("BTC-USD");
    let ticks = vec![tick(Side::Sell, 7, 500)];
    let m = build_chart_model(&coin, &ticks, 50, 1_000_000, 60_000).unwrap();
    assert_eq!(m.x_min, 700_000);
    assert_eq!(m.x_max, 1_060_000);
}

#[test]
fn six_of_ten_buys_is_bullish() {
    let coin = String::from("BTC-USD");
    let mut ticks = Vec::new();
    for k in 0..10usize {
        let side = if k < 6 { Side::Buy } else { Side::Sell };
        ticks.push(tick(side, 100, k as u64));
    }
    let m = build_chart_model(&coin, &ticks, 50, 1_000_000, 60_000).unwrap();
    assert_eq!(m.bias, Bias::Bullish);
}

#[test]
fn an_even_split_is_bearish() {
    let coin = String::from("BTC-USD");
    let mut ticks = Vec::new();
    for k in 0..10usize {
        let side = if k % 2 == 0 { Side::Buy } else { Side::Sell };
        ticks.push(tick(side, 100, k as u64));
    }
    let m = build_chart_model(&coin, &ticks, 50, 1_000_000, 60_000).unwrap();
    assert_eq!(m.bias, Bias::Bearish);
}

#[test]
fn title_and_currency_follow_the_symbol() {
    let coin = String::from("BTC-EUR");
    let ticks = vec![
        tick(Side::Buy, 100, 1),
        tick(Side::Buy, 101, 2),
        tick(Side::Sell, 102, 3),
    ];
    let m = build_chart_model(&coin, &ticks, 50, 1_000_000, 60_000).unwrap();
    assert_eq!(m.title, "BTC-EUR - 3");
    assert_eq!(m.currency, '\u{20ac}');
    assert_eq!(m.points.len(), 3);
    assert_eq!(m.points[2], (3, 102));

    let usd = build_chart_model(&String::from("BTC-USD"), &ticks, 50, 1_000_000, 60_000).unwrap();
    assert_eq!(usd.currency, '$');
    let bare = build_chart_model(&String::from("FOO"), &ticks, 50, 1_000_000, 60_000).unwrap();
    assert_eq!(bare.currency, '$');
}

#[test]
fn pulse_cycles_between_bounds() {
    let mut app = App::default();
    assert_eq!(app.color, 255);
    // Falls in steps of five down to the lower bound...
    let mut prev = app.color;
    for _ in 0..21 {
        app.calc_color();
        assert!(app.color < prev);
        assert!((150..=255).contains(&app.color));
        prev = app.color;
    }
    assert_eq!(app.color, 150);
    // ...then rises back to the top, never leaving the range.
    for _ in 0..21 {
        app.calc_color();
        assert!(app.color > prev);
        assert!((150..=255).contains(&app.color));
        prev = app.color;
    }
    assert_eq!(app.color, 255);
    // And repeats.
    app.calc_color();
    assert_eq!(app.color, 250);
}

#[test]
fn tick_only_animates_when_enabled() {
    let mut app = App::default();
    app.border_animation = false;
    app.tick();
    assert_eq!(app.color, 255);
    app.border_animation = true;
    app.tick();
    assert_eq!(app.color, 250);
}

fn key(code: KeyCode) -> KeyPress {
    KeyPress { code, shift: false, ctrl: false, alt: false }
}

#[test]
fn keys_map_to_events() {
    let mut app = App::default();
    assert_eq!(app.handle_key_events(key(KeyCode::Esc)), Some(AppEvent::Quit));
    assert_eq!(app.handle_key_events(key(KeyCode::Char('q'))), Some(AppEvent::Quit));
    let ctrl_c = KeyPress { code: KeyCode::Char('c'), shift: false, ctrl: true, alt: false };
    assert_eq!(app.handle_key_events(ctrl_c), Some(AppEvent::Quit));
    assert_eq!(app.handle_key_events(key(KeyCode::Char('c'))), None);
    assert_eq!(app.handle_key_events(key(KeyCode::Up)), Some(AppEvent::IncMult(false)));
    let shift_down = KeyPress { code: KeyCode::Down, shift: true, ctrl: false, alt: false };
    assert_eq!(app.handle_key_events(shift_down), Some(AppEvent::DecMult(true)));
    assert_eq!(app.handle_key_events(key(KeyCode::Other)), None);
}

#[test]
fn band_moves_in_steps_and_stays_clamped() {
    let mut app = App::new(Some(vec![String::from("BTC-USD")]));
    assert_eq!(app.bands[0], 50);
    app.apply_event(AppEvent::IncMult(false));
    assert_eq!(app.bands[0], 60);
    app.apply_event(AppEvent::IncMult(true));
    assert_eq!(app.bands[0], 61);
    app.apply_event(AppEvent::DecMult(false));
    app.apply_event(AppEvent::DecMult(true));
    assert_eq!(app.bands[0], 50);
    // The floor clamps.
    for _ in 0..10 {
        app.apply_event(AppEvent::DecMult(false));
    }
    assert_eq!(app.bands[0], 1);
    // The ceiling clamps.
    for _ in 0..1000 {
        app.apply_event(AppEvent::IncMult(false));
    }
    assert_eq!(app.bands[0], 5000);
}

#[test]
fn quit_stops_the_loop() {
    let mut app = App::default();
    assert!(app.running);
    app.apply_event(AppEvent::Quit);
    assert!(!app.running);
}

#[test]
fn new_fills_one_band_per_instrument() {
    let app = App::new(Some(vec![String::from("BTC-USD"), String::from("ETH-USD")]));
    assert_eq!(app.watching.len(), 2);
    assert_eq!(app.bands, vec![50, 50]);
    let dflt = App::new(None);
    assert_eq!(dflt.watching, vec![String::from("SOL-USD")]);
}

#[test]
fn band_lookup_falls_back_to_one_percent() {
    let app = App::new(Some(vec![String::from("BTC-USD")]));
    assert_eq!(app.get_coin_mult(&String::from("BTC-USD")), 50);
    assert_eq!(app.get_coin_mult(&String::from("DOGE-USD")), 100);
}
