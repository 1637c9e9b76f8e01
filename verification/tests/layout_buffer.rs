//! The layout engine and the tick buffer, exercised on concrete values.

use coinwatch::buffer::TickBuffer;
use coinwatch::layout::{calc_body_layout, Rect, WindowType};
use coinwatch::tick::{Side, Tick};

fn area(x: u16, y: u16, width: u16, height: u16) -> Rect {
    Rect { x, y, width, height }
}

#[test]
fn one_instrument_gets_the_full_area() {
    let a = area(2, 3, 100, 50);
    let panes = calc_body_layout(a, 1, WindowType::Splace);
    assert_eq!(panes.len(), 1);
    assert_eq!(panes[0], a);
}

#[test]
fn four_instruments_on_an_even_area_are_quadrants() {
    let a = area(0, 0, 80, 40);
    let panes = calc_body_layout(a, 4, WindowType::Splace);
    assert_eq!(panes.len(), 4);
    assert_eq!(panes[0], area(0, 0, 40, 20));
    assert_eq!(panes[1], area(40, 0, 40, 20));
    assert_eq!(panes[2], area(0, 20, 40, 20));
    assert_eq!(panes[3], area(40, 20, 40, 20));
}

#[test]
fn pane_count_matches_and_union_fits() {
    for n in 0..9usize {
        let a = area(5, 7, 93, 41);
        let panes = calc_body_layout(a, n, WindowType::Splace);
        assert_eq!(panes.len(), n);
        let mut total: u64 = 0;
        for p in &panes {
            assert!(p.x >= a.x && p.y >= a.y);
            assert!(p.x as u32 + p.width as u32 <= a.x as u32 + a.width as u32);
            assert!(p.y as u32 + p.height as u32 <= a.y as u32 + a.height as u32);
            total += p.width as u64 * p.height as u64;
        }
        assert!(total <= a.width as u64 * a.height as u64);
    }
}

#[test]
fn rect_edges() {
    let r = area(2, 3, 10, 6);
    assert_eq!(r.left(), 2);
    assert_eq!(r.right(), 12);
    assert_eq!(r.top(), 3);
    assert_eq!(r.bottom(), 9);
}

#[test]
fn master_mode_splits_two_to_one() {
    let a = area(0, 0, 90, 30);
    let panes = calc_body_layout(a, 2, WindowType::Master);
    assert_eq!(panes.len(), 2);
    assert_eq!(panes[0], area(0, 0, 60, 30));
    assert_eq!(panes[1], area(60, 0, 30, 30));
}

#[test]
fn short_areas_use_fewer_rows() {
    // Two rows of minimum height do not fit in height 12, so four panes
    // share a single row.
    let a = area(0, 0, 80, 12);
    let panes = calc_body_layout(a, 4, WindowType::Splace);
    assert_eq!(panes.len(), 4);
    for p in &panes {
        assert_eq!(p.height, 12);
        assert_eq!(p.width, 20);
    }
}

fn tick(id: &str, seq: usize) -> Tick {
    Tick {
        product_id: String::from(id),
        price: 100 + seq as u64,
        side: Side::Buy,
        time_ms: 1000 + seq as u64,
        sequence: seq,
        best_bid: 1,
        best_ask: 2,
        high_24h: 3,
        low_24h: 4,
        volume_24h: 5,
    }
}

#[test]
fn buffer_keeps_the_most_recent_ticks() {
    let mut buf = TickBuffer::new(3);
    for seq in 0..5usize {
        buf.append(tick("BTC-USD", seq));
    }
    let snap = buf.snapshot(&String::from("BTC-USD"));
    assert_eq!(snap.len(), 3);
    assert_eq!(snap[0].sequence, 2);
    assert_eq!(snap[1].sequence, 3);
    assert_eq!(snap[2].sequence, 4);
}

#[test]
fn buffer_below_capacity_keeps_everything() {
    let mut buf = TickBuffer::new(5000);
    for seq in 0..4usize {
        buf.append(tick("ETH-USD", seq));
    }
    let snap = buf.snapshot(&String::from("ETH-USD"));
    assert_eq!(snap.len(), 4);
    for (k, t) in snap.iter().enumerate() {
        assert_eq!(t.sequence, k);
    }
}

#[test]
fn buffer_unknown_instrument_is_empty() {
    let buf = TickBuffer::new(8);
    assert_eq!(buf.snapshot(&String::from("XRP-USD")).len(), 0);
}

#[test]
fn buffer_keeps_instruments_apart() {
    let mut buf = TickBuffer::new(2);
    buf.append(tick("BTC-USD", 1));
    buf.append(tick("ETH-USD", 2));
    buf.append(tick("BTC-USD", 3));
    buf.append(tick("BTC-USD", 4));
    buf.append(tick("BTC-USD", 5));
    let b = buf.snapshot(&String::from("BTC-USD"));
    let e = buf.snapshot(&String::from("ETH-USD"));
    assert_eq!(b.len(), 2);
    assert_eq!(b[0].sequence, 4);
    assert_eq!(b[1].sequence, 5);
    assert_eq!(e.len(), 1);
    assert_eq!(e[0].sequence, 2);
}

#[test]
fn buffer_capacity_is_fixed() {
    let buf = TickBuffer::new(41);
    assert_eq!(buf.capacity(), 41);
}
