//! The pane layout engine.
//!
//! Given a terminal area and a count of watched instruments it partitions
//! the area into one pane per instrument. In grid mode the row count is
//! `ceil(sqrt(n))`, lowered when the area's height cannot fit that many
//! rows of minimum usable height; the column count is then just large
//! enough that every pane gets a cell (`rows * cols >= n`), which prefers
//! more rows than columns and keeps panes close to square. Rows share the
//! height evenly and the panes of a row share the width evenly; a final,
//! partially filled row is divided among the panes that remain, so the
//! last pane never shares its row with phantom columns. The computation
//! is pure integer arithmetic: same inputs, same panes.

use vstd::arithmetic::div_mod::{
    lemma_div_is_ordered, lemma_div_is_ordered_by_denominator, lemma_div_multiples_vanish,
    lemma_div_nonincreasing, lemma_div_of0, lemma_div_pos_is_pos, lemma_fundamental_div_mod,
    lemma_fundamental_div_mod_converse, lemma_mod_division_less_than_divisor,
    lemma_multiply_divide_lt,
};
use vstd::arithmetic::mul::{lemma_mul_inequality, lemma_mul_upper_bound};
use vstd::prelude::*;

verus! {

/// Minimum usable pane height; fewer rows are used when panes would get
/// shorter than this.
pub const BODY_MIN_H: u16 = 10;

/// A rectangle of terminal cells.
#[derive(Clone, Copy, Debug, PartialEq, Eq, Structural)]
pub struct Rect {
    pub x: u16,
    pub y: u16,
    pub width: u16,
    pub height: u16,
}

/// A rectangle whose far corner still fits in cell coordinates.
pub open spec fn rect_wf(r: Rect) -> bool {
    &&& r.x + r.width <= u16::MAX
    &&& r.y + r.height <= u16::MAX
}

/// `inner` lies entirely inside `outer`, so the cells of `inner` are a
/// subset of the cells of `outer`.
pub open spec fn rect_in(inner: Rect, outer: Rect) -> bool {
    &&& outer.x <= inner.x
    &&& inner.x + inner.width <= outer.x + outer.width
    &&& outer.y <= inner.y
    &&& inner.y + inner.height <= outer.y + outer.height
}

impl Rect {
    pub fn left(&self) -> (v: u16)
        ensures
            v == self.x,
    {
        self.x
    }

    pub fn right(&self) -> (v: u16)
        requires
            rect_wf(*self),
        ensures
            v == self.x + self.width,
    {
        self.x + self.width
    }

    pub fn top(&self) -> (v: u16)
        ensures
            v == self.y,
    {
        self.y
    }

    pub fn bottom(&self) -> (v: u16)
        requires
            rect_wf(*self),
        ensures
            v == self.y + self.height,
    {
        self.y + self.height
    }
}

/// How the panes are arranged: one near-square grid cell per instrument,
/// or a master pane with a sidebar.
#[derive(Clone, Copy, Debug, PartialEq, Eq, Structural)]
pub enum WindowType {
    Master,
    Splace,
}

/// Offset of boundary `i` when `total` cells are shared evenly by `parts`
/// panes: boundary i sits at `i * total / parts`.
pub open spec fn goff(total: int, parts: int, i: int) -> int {
    i * total / parts
}

proof fn lemma_goff_bounds(total: int, parts: int, i: int, j: int)
    requires
        0 <= total,
        1 <= parts,
        0 <= i <= j <= parts,
    ensures
        0 <= goff(total, parts, i) <= goff(total, parts, j) <= total,
        goff(total, parts, 0) == 0,
        goff(total, parts, parts) == total,
{
    lemma_mul_inequality(i, j, total);
    lemma_mul_inequality(j, parts, total);
    lemma_div_is_ordered(i * total, j * total, parts);
    lemma_div_is_ordered(j * total, parts * total, parts);
    lemma_div_multiples_vanish(total, parts);
    lemma_div_pos_is_pos(i * total, parts);
    lemma_div_of0(parts);
}

/// The row count: starting from one row, raise the count while another
/// row would still help (`r * r < n`, i.e. `r < ceil(sqrt(n))`) and the
/// height cap allows it. The result is `ceil(sqrt(n))` lowered to `hcap`.
pub open spec fn spec_rows_from(n: int, hcap: int, r: int) -> int
    decreases hcap - r,
{
    if r < hcap && r * r < n {
        spec_rows_from(n, hcap, r + 1)
    } else {
        r
    }
}

/// How many rows of minimum usable height fit in `h`, at least one.
pub open spec fn spec_hcap(h: int) -> int {
    if h / (BODY_MIN_H as int) >= 1 {
        h / (BODY_MIN_H as int)
    } else {
        1
    }
}

pub open spec fn spec_rows(n: int, h: int) -> int {
    spec_rows_from(n, spec_hcap(h), 1)
}

/// Smallest column count that gives every pane a grid cell:
/// `ceil(n / rows)`.
pub open spec fn spec_cols(n: int, rows: int) -> int {
    n / rows + if n % rows != 0 {
        1int
    } else {
        0int
    }
}

proof fn lemma_rows_range(n: int, hcap: int, r: int)
    requires
        1 <= r <= hcap,
    ensures
        r <= spec_rows_from(n, hcap, r) <= hcap,
    decreases hcap - r,
{
    if r < hcap && r * r < n {
        lemma_rows_range(n, hcap, r + 1);
    }
}

proof fn lemma_cols_facts(n: int, rows: int)
    requires
        1 <= n,
        1 <= rows,
    ensures
        1 <= spec_cols(n, rows),
        n <= rows * spec_cols(n, rows),
{
    let q = n / rows;
    let m = n % rows;
    let c = spec_cols(n, rows);
    lemma_fundamental_div_mod(n, rows);
    lemma_mod_division_less_than_divisor(n, rows);
    lemma_div_pos_is_pos(n, rows);
    assert(1 <= c && n <= rows * c) by (nonlinear_arith)
        requires
            n == rows * q + m,
            0 <= m < rows,
            1 <= n,
            1 <= rows,
            0 <= q,
            c == q + (if m != 0 {
                1int
            } else {
                0int
            }),
    ;
}

/// Pane `i` of the grid: row `i / cols`, column `i % cols`; a row that
/// would be only partly filled is shared by the panes that remain.
pub open spec fn grid_pane(area: Rect, n: int, rows: int, cols: int, i: int) -> Rect {
    let r = i / cols;
    let j = i % cols;
    let k = if n - r * cols < cols {
        n - r * cols
    } else {
        cols
    };
    Rect {
        x: (area.x + goff(area.width as int, k, j)) as u16,
        y: (area.y + goff(area.height as int, rows, r)) as u16,
        width: (goff(area.width as int, k, j + 1) - goff(area.width as int, k, j)) as u16,
        height: (goff(area.height as int, rows, r + 1) - goff(area.height as int, rows, r)) as u16,
    }
}

/// The grid layout: one pane per instrument, one full-area pane when a
/// single instrument is watched, nothing when none is.
pub open spec fn spec_grid_layout(area: Rect, n: int) -> Seq<Rect> {
    if n <= 0 {
        Seq::empty()
    } else if n == 1 {
        seq![area]
    } else {
        let rows = spec_rows(n, area.height as int);
        let cols = spec_cols(n, rows);
        Seq::new(n as nat, |i: int| grid_pane(area, n, rows, cols, i))
    }
}

/// The master layout: a main pane of two thirds of the width on the left
/// and a sidebar with the rest on the right.
pub open spec fn spec_master_layout(area: Rect) -> Seq<Rect> {
    let lw = 2 * area.width / 3;
    seq![
        (Rect { x: area.x, y: area.y, width: lw as u16, height: area.height }),
        (Rect {
            x: (area.x + lw) as u16,
            y: area.y,
            width: (area.width - lw) as u16,
            height: area.height,
        }),
    ]
}

/// What `calc_body_layout` returns for each mode and instrument count.
pub open spec fn spec_body_layout(area: Rect, n: int, window_type: WindowType) -> Seq<Rect> {
    if n == 1 {
        seq![area]
    } else {
        match window_type {
            WindowType::Splace => spec_grid_layout(area, n),
            WindowType::Master => spec_master_layout(area),
        }
    }
}

fn grid_off(total: u16, parts: usize, i: usize) -> (v: u16)
    requires
        1 <= parts,
        i <= parts,
    ensures
        v == goff(total as int, parts as int, i as int),
{
    proof {
        lemma_goff_bounds(total as int, parts as int, i as int, parts as int);
        lemma_mul_upper_bound(i as int, usize::MAX as int, total as int, u16::MAX as int);
    }
    (((i as u128) * (total as u128)) / (parts as u128)) as u16
}

/// Partitions `area` into one pane per watched instrument.
///
/// The result is a pure function of the inputs, `spec_body_layout`; its
/// pane count, containment in `area` and the quadrant shape for four
/// instruments are stated by the lemmas below.
pub fn calc_body_layout(area: Rect, amount: usize, window_type: WindowType) -> (panes: Vec<Rect>)
    requires
        rect_wf(area),
    ensures
        panes@ == spec_body_layout(area, amount as int, window_type),
{
    let n = amount;
    if n == 1 {
        let panes = vec![area];
        assert(panes@ =~= spec_body_layout(area, 1, window_type));
        return panes;
    }
    match window_type {
        WindowType::Master => {
            proof {
                lemma_div_is_ordered(2 * area.width as int, 3 * area.width as int, 3);
                lemma_div_multiples_vanish(area.width as int, 3);
                lemma_div_pos_is_pos(2 * area.width as int, 3);
            }
            let lw: u16 = ((2u32 * area.width as u32) / 3u32) as u16;
            let left = Rect { x: area.x, y: area.y, width: lw, height: area.height };
            let right = Rect {
                x: area.x + lw,
                y: area.y,
                width: area.width - lw,
                height: area.height,
            };
            let panes = vec![left, right];
            assert(panes@ =~= spec_body_layout(area, n as int, window_type));
            panes
        },
        WindowType::Splace => {
            let mut panes: Vec<Rect> = Vec::new();
            if n == 0 {
                assert(panes@ =~= spec_body_layout(area, 0, window_type));
                return panes;
            }
            // Row count: ceil(sqrt(n)), capped by the rows that fit.
            let hcap: u16 = if area.height / BODY_MIN_H >= 1 {
                area.height / BODY_MIN_H
            } else {
                1
            };
            let mut rw: u16 = 1;
            loop
                invariant
                    1 <= rw <= hcap,
                    2 <= n,
                    spec_rows_from(n as int, hcap as int, rw as int) == spec_rows(
                        n as int,
                        area.height as int,
                    ),
                ensures
                    rw == spec_rows(n as int, area.height as int),
                decreases hcap - rw,
            {
                proof {
                    lemma_mul_upper_bound(rw as int, 0xffff, rw as int, 0xffff);
                }
                let sq: u64 = (rw as u64) * (rw as u64);
                if !(rw < hcap && sq < n as u64) {
                    break ;
                }
                rw = rw + 1;
            }
            let rows: usize = rw as usize;
            let q: usize = n / rows;
            let m: usize = n % rows;
            proof {
                if rows != 1 {
                    lemma_div_is_ordered_by_denominator(n as int, 2, rows as int);
                    lemma_div_is_ordered(n as int, usize::MAX as int, 2);
                }
            }
            let cols: usize = if m != 0 {
                q + 1
            } else {
                q
            };
            proof {
                lemma_cols_facts(n as int, rows as int);
            }
            let ghost gn = n as int;
            let ghost grows = rows as int;
            let ghost gcols = cols as int;
            let mut r: usize = 0;
            while panes.len() < n
                invariant
                    rect_wf(area),
                    2 <= n,
                    1 <= rows <= u16::MAX,
                    grows == rows as int,
                    gcols == cols as int,
                    gn == n as int,
                    grows == spec_rows(gn, area.height as int),
                    gcols == spec_cols(gn, grows),
                    1 <= gcols,
                    gn <= grows * gcols,
                    panes@.len() <= gn,
                    panes@.len() < gn ==> panes@.len() == r * gcols,
                    forall|i: int|
                        0 <= i < panes@.len() ==> panes@[i] == grid_pane(
                            area,
                            gn,
                            grows,
                            gcols,
                            i,
                        ),
                decreases gn - panes@.len(),
            {
                let row_start = panes.len();
                proof {
                    if r as int >= grows {
                        lemma_mul_inequality(grows, r as int, gcols);
                        assert(false);
                    }
                }
                let k: usize = if n - row_start < cols {
                    n - row_start
                } else {
                    cols
                };
                proof {
                    lemma_goff_bounds(area.height as int, grows, r as int, r + 1);
                    lemma_goff_bounds(area.height as int, grows, r + 1, grows);
                }
                let y0: u16 = area.y + grid_off(area.height, rows, r);
                let hr: u16 = grid_off(area.height, rows, r + 1) - grid_off(
                    area.height,
                    rows,
                    r,
                );
                let mut j: usize = 0;
                while j < k
                    invariant
                        rect_wf(area),
                        2 <= n,
                        1 <= rows <= u16::MAX,
                        grows == rows as int,
                        gcols == cols as int,
                        gn == n as int,
                        grows == spec_rows(gn, area.height as int),
                        gcols == spec_cols(gn, grows),
                        1 <= gcols,
                        gn <= grows * gcols,
                        0 <= (r as int) < grows,
                        row_start == r * gcols,
                        1 <= k,
                        k as int == (if gn - r * gcols < gcols {
                            gn - r * gcols
                        } else {
                            gcols
                        }),
                        j <= k,
                        row_start + k <= gn,
                        panes@.len() == row_start + j,
                        y0 == area.y + goff(area.height as int, grows, r as int),
                        hr == goff(area.height as int, grows, r + 1) - goff(
                            area.height as int,
                            grows,
                            r as int,
                        ),
                        forall|i: int|
                            0 <= i < panes@.len() ==> panes@[i] == grid_pane(
                                area,
                                gn,
                                grows,
                                gcols,
                                i,
                            ),
                    decreases k - j,
                {
                    proof {
                        lemma_goff_bounds(area.width as int, k as int, j as int, j + 1);
                        lemma_goff_bounds(area.width as int, k as int, j + 1, k as int);
                        lemma_fundamental_div_mod_converse(
                            r * gcols + j,
                            gcols,
                            r as int,
                            j as int,
                        );
                    }
                    let x0: u16 = area.x + grid_off(area.width, k, j);
                    let wd: u16 = grid_off(area.width, k, j + 1) - grid_off(area.width, k, j);
                    let pane = Rect { x: x0, y: y0, width: wd, height: hr };
                    assert(pane == grid_pane(area, gn, grows, gcols, row_start + j as int));
                    panes.push(pane);
                    j = j + 1;
                }
                proof {
                    assert((r as int + 1) * gcols == r as int * gcols + gcols) by (nonlinear_arith);
                }
                r = r + 1;
            }
            assert(panes@ =~= spec_body_layout(area, n as int, window_type));
            panes
        },
    }
}

/// The grid always yields exactly one pane per instrument.
pub proof fn lemma_layout_pane_count(area: Rect, n: int)
    requires
        0 <= n,
    ensures
        spec_grid_layout(area, n).len() == n,
{
}

/// Watching a single instrument yields one pane covering the full area.
pub proof fn lemma_layout_single(area: Rect)
    ensures
        spec_grid_layout(area, 1) =~= seq![area],
{
}

/// Every pane lies inside the given area, so the union of the panes'
/// cells never exceeds it.
pub proof fn lemma_layout_within(area: Rect, n: int)
    requires
        rect_wf(area),
        0 <= n,
    ensures
        forall|i: int|
            0 <= i < n ==> rect_wf(#[trigger] spec_grid_layout(area, n)[i]) && rect_in(
                spec_grid_layout(area, n)[i],
                area,
            ),
{
    if n <= 1 {
        return ;
    }
    let rows = spec_rows(n, area.height as int);
    let cols = spec_cols(n, rows);
    assert(1 <= spec_hcap(area.height as int));
    lemma_rows_range(n, spec_hcap(area.height as int), 1);
    lemma_cols_facts(n, rows);
    assert forall|i: int| 0 <= i < n implies rect_wf(#[trigger] spec_grid_layout(area, n)[i])
        && rect_in(spec_grid_layout(area, n)[i], area) by {
        let r = i / cols;
        let j = i % cols;
        let k = if n - r * cols < cols {
            n - r * cols
        } else {
            cols
        };
        lemma_div_pos_is_pos(i, cols);
        lemma_mod_division_less_than_divisor(i, cols);
        lemma_multiply_divide_lt(i, cols, rows);
        lemma_fundamental_div_mod(i, cols);
        assert(0 <= r < rows);
        assert(0 <= j < cols);
        assert(j < k && k <= cols);
        lemma_goff_bounds(area.width as int, k, j, j + 1);
        lemma_goff_bounds(area.width as int, k, j + 1, k);
        lemma_goff_bounds(area.height as int, rows, r, r + 1);
        lemma_goff_bounds(area.height as int, rows, r + 1, rows);
    }
}

proof fn lemma_rows_exit(n: int, hcap: int, r: int)
    requires
        1 <= r <= hcap,
    ensures
        spec_rows_from(n, hcap, r) == hcap || spec_rows_from(n, hcap, r) * spec_rows_from(
            n,
            hcap,
            r,
        ) >= n,
    decreases hcap - r,
{
    if r < hcap && r * r < n {
        lemma_rows_exit(n, hcap, r + 1);
    }
}

/// The tie-break prefers more rows: unless the height cap lowered the row
/// count, a grid never has more columns than rows, keeping panes closer
/// to square.
pub proof fn lemma_grid_prefers_rows(n: int, h: int)
    requires
        1 <= n,
    ensures
        spec_rows(n, h) == spec_hcap(h) || spec_cols(n, spec_rows(n, h)) <= spec_rows(n, h),
{
    let hcap = spec_hcap(h);
    assert(hcap >= 1);
    lemma_rows_exit(n, hcap, 1);
    lemma_rows_range(n, hcap, 1);
    let rows = spec_rows(n, h);
    if rows != hcap {
        let q = n / rows;
        let m = n % rows;
        lemma_fundamental_div_mod(n, rows);
        lemma_mod_division_less_than_divisor(n, rows);
        lemma_div_pos_is_pos(n, rows);
        assert(spec_cols(n, rows) <= rows) by (nonlinear_arith)
            requires
                n == rows * q + m,
                0 <= m < rows,
                1 <= n,
                1 <= rows,
                0 <= q,
                n <= rows * rows,
                spec_cols(n, rows) == q + (if m != 0 {
                    1int
                } else {
                    0int
                }),
        ;
    }
}

/// Four instruments on an area of even width and height that is tall
/// enough for two rows are laid out as four equal quadrants.
pub proof fn lemma_layout_quadrants(area: Rect)
    requires
        rect_wf(area),
        area.width % 2 == 0,
        area.height % 2 == 0,
        area.height >= 2 * BODY_MIN_H,
    ensures
        spec_grid_layout(area, 4) =~= seq![
            (Rect {
                x: area.x,
                y: area.y,
                width: (area.width / 2) as u16,
                height: (area.height / 2) as u16,
            }),
            (Rect {
                x: (area.x + area.width / 2) as u16,
                y: area.y,
                width: (area.width / 2) as u16,
                height: (area.height / 2) as u16,
            }),
            (Rect {
                x: area.x,
                y: (area.y + area.height / 2) as u16,
                width: (area.width / 2) as u16,
                height: (area.height / 2) as u16,
            }),
            (Rect {
                x: (area.x + area.width / 2) as u16,
                y: (area.y + area.height / 2) as u16,
                width: (area.width / 2) as u16,
                height: (area.height / 2) as u16,
            }),
        ],
{
    let h = area.height as int;
    let w = area.width as int;
    lemma_div_is_ordered(2 * BODY_MIN_H as int, h, BODY_MIN_H as int);
    lemma_div_multiples_vanish(2, BODY_MIN_H as int);
    let hcap = spec_hcap(h);
    assert(hcap >= 2);
    assert(spec_rows_from(4, hcap, 2) == 2);
    assert(spec_rows_from(4, hcap, 1) == spec_rows_from(4, hcap, 2));
    let rows = spec_rows(4, h);
    assert(rows == 2);
    let cols = spec_cols(4, rows);
    assert(4int / 2 == 2 && 4int % 2 == 0);
    assert(cols == spec_cols(4, 2));
    assert(cols == 2);
    lemma_fundamental_div_mod(w, 2);
    lemma_fundamental_div_mod(h, 2);
    lemma_div_multiples_vanish(w, 2);
    lemma_div_multiples_vanish(h, 2);
    lemma_div_nonincreasing(w, 2);
    lemma_div_nonincreasing(h, 2);
    lemma_div_pos_is_pos(w, 2);
    lemma_div_pos_is_pos(h, 2);
    assert(goff(w, 2, 0) == 0 && goff(h, 2, 0) == 0) by {
        lemma_div_of0(2);
    }
    assert(goff(w, 2, 1) == w / 2);
    assert(goff(w, 2, 2) == w) by {
        assert(2 * w / 2 == w);
    }
    assert(goff(h, 2, 1) == h / 2);
    assert(goff(h, 2, 2) == h) by {
        assert(2 * h / 2 == h);
    }
    let s = spec_grid_layout(area, 4);
    assert(s[0] == grid_pane(area, 4, 2, 2, 0));
    assert(s[1] == grid_pane(area, 4, 2, 2, 1));
    assert(s[2] == grid_pane(area, 4, 2, 2, 2));
    assert(s[3] == grid_pane(area, 4, 2, 2, 3));
}

} // verus!
