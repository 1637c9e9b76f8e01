//! The gradient border, the feed step and the small helpers, exercised on
//! concrete values.

use coinwatch::border::{inner_rect, CellPaint, GradientWrapper};
use coinwatch::buffer::TickBuffer;
use coinwatch::color::{GradientConfig, Rgb};
use coinwatch::engine::Engine;
use coinwatch::feed::{
    backoff_with_jitter, feed_step, next_backoff, subscription_request, FeedAction, FeedFrame,
};
use coinwatch::layout::Rect;
use coinwatch::rng::XorShift32;
use coinwatch::tick::{DecodeError, RawTick};
use coinwatch::utils::rotate_string;

fn area(x: u16, y: u16, width: u16, height: u16) -> Rect {
    Rect { x, y, width, height }
}

/// The cell that ends up visible at a position: the last one painted.
fn cell_at(cells: &[CellPaint], x: u16, y: u16) -> &CellPaint {
    cells.iter().rev().find(|c| c.x == x && c.y == y).unwrap()
}

#[test]
fn degenerate_areas_paint_nothing() {
    let w: GradientWrapper<u8> = GradientWrapper::new(0);
    assert_eq!(w.draw_gradient_border(area(0, 0, 1, 10)).len(), 0);
    assert_eq!(w.draw_gradient_border(area(0, 0, 10, 1)).len(), 0);
}

#[test]
fn border_corners_take_the_adjacent_gradient_colors() {
    let cfg = GradientConfig::new_4(
        Rgb { r: 10, g: 0, b: 0 },
        Rgb { r: 0, g: 20, b: 0 },
        Rgb { r: 0, g: 0, b: 30 },
        Rgb { r: 40, g: 40, b: 0 },
    );
    let w: GradientWrapper<u8> = GradientWrapper::new(0).gradient_colors(cfg);
    let cells = w.draw_gradient_border(area(0, 0, 4, 3));
    // Four corners, two cells per horizontal edge, one per vertical edge.
    assert_eq!(cells.len(), 4 + 2 + 2 + 1 + 1);
    let tl = cell_at(&cells, 0, 0);
    assert_eq!(tl.ch, '\u{256d}');
    assert_eq!(tl.fg, Some(Rgb { r: 10, g: 0, b: 0 }));
    let tr = cell_at(&cells, 3, 0);
    assert_eq!(tr.ch, '\u{256e}');
    assert_eq!(tr.fg, Some(Rgb { r: 0, g: 20, b: 0 }));
    let bl = cell_at(&cells, 0, 2);
    assert_eq!(bl.ch, '\u{2570}');
    assert_eq!(bl.fg, Some(Rgb { r: 40, g: 40, b: 0 }));
    let br = cell_at(&cells, 3, 2);
    assert_eq!(br.ch, '\u{256f}');
    assert_eq!(br.fg, Some(Rgb { r: 0, g: 0, b: 30 }));
}

#[test]
fn top_edge_interpolates_left_to_right() {
    let cfg = GradientConfig::new_4(
        Rgb { r: 0, g: 0, b: 0 },
        Rgb { r: 200, g: 0, b: 0 },
        Rgb { r: 0, g: 0, b: 0 },
        Rgb { r: 0, g: 0, b: 0 },
    );
    let w: GradientWrapper<u8> = GradientWrapper::new(0).gradient_colors(cfg);
    // Width 6: four interior columns at positions 0/4 .. 3/4.
    let cells = w.draw_gradient_border(area(0, 0, 6, 3));
    assert_eq!(cell_at(&cells, 1, 0).fg, Some(Rgb { r: 0, g: 0, b: 0 }));
    assert_eq!(cell_at(&cells, 2, 0).fg, Some(Rgb { r: 50, g: 0, b: 0 }));
    assert_eq!(cell_at(&cells, 3, 0).fg, Some(Rgb { r: 100, g: 0, b: 0 }));
    assert_eq!(cell_at(&cells, 4, 0).fg, Some(Rgb { r: 150, g: 0, b: 0 }));
}

#[test]
fn title_is_centered_when_it_fits() {
    let w: GradientWrapper<u8> = GradientWrapper::new(0).title(String::from("ab"));
    let cells = w.draw_gradient_border(area(0, 0, 8, 3));
    // Block of four cells starting at x = (8 - 4) / 2 = 2.
    assert_eq!(cell_at(&cells, 2, 0).ch, '\u{2524}');
    let a = cell_at(&cells, 3, 0);
    assert_eq!(a.ch, 'a');
    assert_eq!(a.fg, Some(Rgb { r: 255, g: 255, b: 255 }));
    assert_eq!(cell_at(&cells, 4, 0).ch, 'b');
    assert_eq!(cell_at(&cells, 5, 0).ch, '\u{251c}');
}

#[test]
fn an_overlong_title_is_dropped() {
    let w: GradientWrapper<u8> = GradientWrapper::new(0).title(String::from("much too long"));
    let cells = w.draw_gradient_border(area(0, 0, 6, 3));
    assert!(cells.iter().all(|c| c.ch != '\u{2524}'));
    assert_eq!(cells.len(), 4 + 2 * 4 + 2 * 1);
}

#[test]
fn inner_rect_insets_by_one() {
    assert_eq!(inner_rect(area(2, 3, 10, 6)), area(3, 4, 8, 4));
    assert_eq!(inner_rect(area(2, 3, 1, 6)), area(2, 3, 0, 0));
}

#[test]
fn subscription_names_all_products() {
    let products = vec![String::from("BTC-USD"), String::from("SOL-USD")];
    let msg = subscription_request(&products).unwrap();
    assert_eq!(
        msg,
        "{\"type\":\"subscribe\",\"channels\":[\"ticker\"],\"product_ids\":[\"BTC-USD\",\"SOL-USD\"]}"
    );
    let bad = vec![String::from("BTC\"USD")];
    assert!(subscription_request(&bad).is_none());
}

fn good_raw() -> RawTick {
    RawTick {
        product_id: String::from("SOL-USD"),
        price: String::from("195.5"),
        side: String::from("sell"),
        time: String::from("2022-10-19T23:28:22Z"),
        sequence: 1,
        best_bid: String::from("195.4"),
        best_ask: String::from("195.6"),
        high_24h: String::from("200"),
        low_24h: String::from("190"),
        volume_24h: String::from("1000"),
    }
}

#[test]
fn feed_appends_good_records() {
    let mut buf = TickBuffer::new(10);
    let a = feed_step(&mut buf, FeedFrame::Text(good_raw()));
    assert!(matches!(a, FeedAction::Appended));
    let snap = buf.snapshot(&String::from("SOL-USD"));
    assert_eq!(snap.len(), 1);
    assert_eq!(snap[0].price, 19_550_000_000);
}

#[test]
fn feed_drops_malformed_records() {
    let mut buf = TickBuffer::new(10);
    let mut raw = good_raw();
    raw.price = String::from("n/a");
    let a = feed_step(&mut buf, FeedFrame::Text(raw));
    assert!(matches!(a, FeedAction::Dropped(DecodeError::BadPrice)));
    assert_eq!(buf.snapshot(&String::from("SOL-USD")).len(), 0);
}

#[test]
fn feed_answers_pings_with_matching_pongs() {
    let mut buf = TickBuffer::new(10);
    let a = feed_step(&mut buf, FeedFrame::Ping(vec![1, 2, 3]));
    match a {
        FeedAction::Pong(p) => assert_eq!(p, vec![1, 2, 3]),
        _ => panic!("expected a pong"),
    }
    let b = feed_step(&mut buf, FeedFrame::Other);
    assert!(matches!(b, FeedAction::Ignored));
}

#[test]
fn backoff_doubles_and_caps() {
    assert_eq!(next_backoff(1000), 2000);
    assert_eq!(next_backoff(16000), 32000);
    assert_eq!(next_backoff(32000), 60000);
    assert_eq!(next_backoff(60000), 60000);
}

#[test]
fn jitter_stays_in_the_upper_half() {
    for rand in [0u64, 1, 7, u64::MAX] {
        let p = backoff_with_jitter(1000, rand);
        assert!((500..=1000).contains(&p));
    }
    assert_eq!(backoff_with_jitter(1000, 0), 500);
    assert_eq!(backoff_with_jitter(0, 12345), 0);
}

#[test]
fn xorshift_is_deterministic() {
    let mut rng = XorShift32::new(1);
    assert_eq!(rng.next(), 270_369);
    assert_eq!(rng.next(), 68_787_111_425);
    let mut rng2 = XorShift32::new(1);
    let r = rng2.gen_range(7);
    assert_eq!(r, 270_369 % 7);
    assert!(r < 7);
}

#[test]
fn engine_remembers_its_screen_and_emits_escapes() {
    let e = Engine::new(80, 24);
    assert_eq!(e.get_screen_size(), (80, 24));
    assert_eq!(e.render(), "\u{1b}[2J\u{1b}[H");
    assert_eq!(e.clear(), "\u{1b}[2J\u{1b}[H");
    assert_eq!(e.place_cursor(3, 7), "\u{1b}[3;7H");
    Engine::rerender();
}

#[test]
fn rotate_string_moves_the_last_character_to_the_front() {
    let mut s = String::from("abc");
    let r = rotate_string(&mut s);
    assert_eq!(r, "cab");
    assert_eq!(s, "ab");
}
