//! The gradient border renderer.
//!
//! `GradientWrapper` frames a widget with a border whose color runs along
//! each edge between that edge's start and end color, with rounded corner
//! glyphs and an optional centered title. Rendering is modeled as a list
//! of cell paints — position, glyph, foreground — applied to the frame
//! buffer by the caller; the list is a pure function of the gradient
//! configuration, the title and the target rectangle. Degenerate targets
//! (width or height below 2) paint nothing.

use crate::color::{interpolate_color, spec_interpolate, GradientConfig, Rgb};
use crate::layout::{rect_wf, Rect};
use vstd::arithmetic::div_mod::{lemma_div_nonincreasing, lemma_div_pos_is_pos};
use vstd::prelude::*;
use vstd::string::StrSliceExecFns;

verus! {

/// One terminal cell to paint: a position, a glyph, and an optional
/// foreground color (glyphs painted without a color keep the cell's).
#[derive(Clone, Copy, Debug)]
pub struct CellPaint {
    pub x: u16,
    pub y: u16,
    pub ch: char,
    pub fg: Option<Rgb>,
}

/// The color of the overlaid title characters.
pub open spec fn title_fg() -> Rgb {
    Rgb { r: 255, g: 255, b: 255 }
}

/// The four rounded corners: each takes the color its two adjacent edge
/// gradients share at that corner.
pub open spec fn sb_corners(cfg: GradientConfig, area: Rect) -> Seq<CellPaint> {
    seq![
        (CellPaint { x: area.x, y: area.y, ch: '\u{256d}', fg: Some(cfg.top_start) }),
        (CellPaint {
            x: (area.x + area.width - 1) as u16,
            y: area.y,
            ch: '\u{256e}',
            fg: Some(cfg.top_end),
        }),
        (CellPaint {
            x: area.x,
            y: (area.y + area.height - 1) as u16,
            ch: '\u{2570}',
            fg: Some(cfg.left_start),
        }),
        (CellPaint {
            x: (area.x + area.width - 1) as u16,
            y: (area.y + area.height - 1) as u16,
            ch: '\u{256f}',
            fg: Some(cfg.right_end),
        }),
    ]
}

/// Interior cells of the top edge: column `i` of `width - 2` takes the
/// top gradient at position `i / (width - 2)`.
pub open spec fn sb_top(cfg: GradientConfig, area: Rect) -> Seq<CellPaint> {
    let den = area.width - 2;
    Seq::new(
        den as nat,
        |i: int|
            CellPaint {
                x: (area.x + 1 + i) as u16,
                y: area.y,
                ch: '\u{2500}',
                fg: Some(spec_interpolate(cfg.top_start, cfg.top_end, i, den)),
            },
    )
}

/// Interior cells of the bottom edge; the bottom gradient runs right to
/// left, so column `i` sits at position `(den - i) / den` of it.
pub open spec fn sb_bottom(cfg: GradientConfig, area: Rect) -> Seq<CellPaint> {
    let den = area.width - 2;
    Seq::new(
        den as nat,
        |i: int|
            CellPaint {
                x: (area.x + 1 + i) as u16,
                y: (area.y + area.height - 1) as u16,
                ch: '\u{2500}',
                fg: Some(spec_interpolate(cfg.bottom_start, cfg.bottom_end, den - i, den)),
            },
    )
}

/// Interior cells of the left edge; the left gradient runs bottom to top,
/// so row `i` sits at position `(den - i) / den` of it.
pub open spec fn sb_left(cfg: GradientConfig, area: Rect) -> Seq<CellPaint> {
    let den = area.height - 2;
    Seq::new(
        den as nat,
        |i: int|
            CellPaint {
                x: area.x,
                y: (area.y + 1 + i) as u16,
                ch: '\u{2502}',
                fg: Some(spec_interpolate(cfg.left_start, cfg.left_end, den - i, den)),
            },
    )
}

/// Interior cells of the right edge: row `i` of `height - 2` takes the
/// right gradient at position `i / (height - 2)`.
pub open spec fn sb_right(cfg: GradientConfig, area: Rect) -> Seq<CellPaint> {
    let den = area.height - 2;
    Seq::new(
        den as nat,
        |i: int|
            CellPaint {
                x: (area.x + area.width - 1) as u16,
                y: (area.y + 1 + i) as u16,
                ch: '\u{2502}',
                fg: Some(spec_interpolate(cfg.right_start, cfg.right_end, i, den)),
            },
    )
}

/// Where the title block starts: the title plus its two junction glyphs,
/// centered on the top edge.
pub open spec fn spec_title_x(tlen: int, area: Rect) -> int {
    area.x + (area.width - (tlen + 2)) / 2
}

/// The centered title overlaid on the top edge — a junction glyph, the
/// title's characters in the fixed title color, and a closing junction —
/// painted only when the block fits within the width.
pub open spec fn sb_title(title: Option<Seq<char>>, area: Rect) -> Seq<CellPaint> {
    match title {
        Option::None => Seq::empty(),
        Option::Some(t) => sb_title_cells(t, area),
    }
}

/// Cell `i` of the title text: character `i` in the title color, right
/// after the opening junction.
pub open spec fn title_char_cell(t: Seq<char>, area: Rect, i: int) -> CellPaint {
    CellPaint {
        x: (spec_title_x(t.len() as int, area) + 1 + i) as u16,
        y: area.y,
        ch: t[i],
        fg: Some(title_fg()),
    }
}

/// The cells of one title block, in paint order: an opening junction,
/// the title's characters in the title color, and a closing junction.
pub open spec fn sb_title_cells(t: Seq<char>, area: Rect) -> Seq<CellPaint> {
    if t.len() + 2 <= area.width {
        let tx = spec_title_x(t.len() as int, area);
        seq![(CellPaint { x: tx as u16, y: area.y, ch: '\u{2524}', fg: None })] + Seq::new(
            t.len(),
            |i: int| title_char_cell(t, area, i),
        ) + seq![
            (CellPaint { x: (tx + 1 + t.len()) as u16, y: area.y, ch: '\u{251c}', fg: None }),
        ]
    } else {
        Seq::empty()
    }
}

/// Everything a gradient border paints into `area`, in paint order:
/// corners, top and bottom edges, left and right edges, then the title.
pub open spec fn spec_border_cells(
    cfg: GradientConfig,
    title: Option<Seq<char>>,
    area: Rect,
) -> Seq<CellPaint> {
    if area.width < 2 || area.height < 2 {
        Seq::empty()
    } else {
        sb_corners(cfg, area) + sb_top(cfg, area) + sb_bottom(cfg, area) + sb_left(cfg, area)
            + sb_right(cfg, area) + sb_title(title, area)
    }
}

pub open spec fn title_view(title: Option<String>) -> Option<Seq<char>> {
    match title {
        Option::None => Option::None,
        Option::Some(t) => Option::Some(t@),
    }
}

/// Wraps a widget with a gradient border and an optional title.
pub struct GradientWrapper<W> {
    pub widget: W,
    pub title: Option<String>,
    pub gradient_config: GradientConfig,
}

impl<W> GradientWrapper<W> {
    /// Wraps the given widget with the default gradient and no title.
    pub fn new(widget: W) -> (r: Self)
        ensures
            r.widget == widget,
            r.title is None,
            r.gradient_config == crate::color::spec_default_gradient(),
    {
        GradientWrapper { widget, title: None, gradient_config: GradientConfig::default() }
    }

    /// Sets the title shown in the top border.
    pub fn title(self, title: String) -> (r: Self)
        ensures
            r.widget == self.widget,
            r.title == Some(title),
            r.gradient_config == self.gradient_config,
    {
        GradientWrapper { title: Some(title), ..self }
    }

    /// Sets the gradient used for the border colors.
    pub fn gradient_colors(self, config: GradientConfig) -> (r: Self)
        ensures
            r.widget == self.widget,
            r.title == self.title,
            r.gradient_config == config,
    {
        GradientWrapper { gradient_config: config, ..self }
    }

    /// Computes the border cells for `area`: exactly
    /// `spec_border_cells` of this wrapper's gradient and title.
    pub fn draw_gradient_border(&self, area: Rect) -> (out: Vec<CellPaint>)
        requires
            rect_wf(area),
        ensures
            out@ == spec_border_cells(self.gradient_config, title_view(self.title), area),
    {
        let mut out: Vec<CellPaint> = Vec::new();
        if area.width < 2 || area.height < 2 {
            assert(out@ =~= spec_border_cells(
                self.gradient_config,
                title_view(self.title),
                area,
            ));
            return out;
        }
        let ghost gcfg = self.gradient_config;
        let right: u16 = area.x + area.width - 1;
        let bottom: u16 = area.y + area.height - 1;
        out.push(CellPaint { x: area.x, y: area.y, ch: '\u{256d}', fg: Some(self.gradient_config.top_start) });
        out.push(CellPaint { x: right, y: area.y, ch: '\u{256e}', fg: Some(self.gradient_config.top_end) });
        out.push(CellPaint { x: area.x, y: bottom, ch: '\u{2570}', fg: Some(self.gradient_config.left_start) });
        out.push(CellPaint { x: right, y: bottom, ch: '\u{256f}', fg: Some(self.gradient_config.right_end) });
        assert(out@ =~= sb_corners(gcfg, area));

        let den_w: u16 = area.width - 2;
        let mut i: u16 = 0;
        while i < den_w
            invariant
                rect_wf(area),
                area.width >= 2,
                area.height >= 2,
                den_w == area.width - 2,
                right == area.x + area.width - 1,
                bottom == area.y + area.height - 1,
                gcfg == self.gradient_config,
                i <= den_w,
                out@ =~= sb_corners(gcfg, area) + sb_top(gcfg, area).subrange(0, i as int),
            decreases den_w - i,
        {
            let c = interpolate_color(self.gradient_config.top_start, self.gradient_config.top_end, i, den_w);
            let cp = CellPaint { x: area.x + 1 + i, y: area.y, ch: '\u{2500}', fg: Some(c) };
            assert(cp == sb_top(gcfg, area)[i as int]);
            out.push(cp);
            i = i + 1;
            assert(out@ =~= sb_corners(gcfg, area) + sb_top(gcfg, area).subrange(0, i as int));
        }
        let ghost base1 = sb_corners(gcfg, area) + sb_top(gcfg, area);
        assert(out@ =~= base1);

        let mut i: u16 = 0;
        while i < den_w
            invariant
                rect_wf(area),
                area.width >= 2,
                area.height >= 2,
                den_w == area.width - 2,
                right == area.x + area.width - 1,
                bottom == area.y + area.height - 1,
                gcfg == self.gradient_config,
                i <= den_w,
                out@ =~= base1 + sb_bottom(gcfg, area).subrange(0, i as int),
                base1 == sb_corners(gcfg, area) + sb_top(gcfg, area),
            decreases den_w - i,
        {
            let c = interpolate_color(self.gradient_config.bottom_start, self.gradient_config.bottom_end, den_w - i, den_w);
            out.push(CellPaint { x: area.x + 1 + i, y: bottom, ch: '\u{2500}', fg: Some(c) });
            i = i + 1;
            assert(out@ =~= base1 + sb_bottom(gcfg, area).subrange(0, i as int));
        }
        let ghost base2 = base1 + sb_bottom(gcfg, area);
        assert(out@ =~= base2);

        let den_h: u16 = area.height - 2;
        let mut i: u16 = 0;
        while i < den_h
            invariant
                rect_wf(area),
                area.width >= 2,
                area.height >= 2,
                den_h == area.height - 2,
                right == area.x + area.width - 1,
                bottom == area.y + area.height - 1,
                gcfg == self.gradient_config,
                i <= den_h,
                out@ =~= base2 + sb_left(gcfg, area).subrange(0, i as int),
                base2 == sb_corners(gcfg, area) + sb_top(gcfg, area) + sb_bottom(gcfg, area),
            decreases den_h - i,
        {
            let c = interpolate_color(self.gradient_config.left_start, self.gradient_config.left_end, den_h - i, den_h);
            out.push(CellPaint { x: area.x, y: area.y + 1 + i, ch: '\u{2502}', fg: Some(c) });
            i = i + 1;
            assert(out@ =~= base2 + sb_left(gcfg, area).subrange(0, i as int));
        }
        let ghost base3 = base2 + sb_left(gcfg, area);
        assert(out@ =~= base3);

        let mut i: u16 = 0;
        while i < den_h
            invariant
                rect_wf(area),
                area.width >= 2,
                area.height >= 2,
                den_h == area.height - 2,
                right == area.x + area.width - 1,
                bottom == area.y + area.height - 1,
                gcfg == self.gradient_config,
                i <= den_h,
                out@ =~= base3 + sb_right(gcfg, area).subrange(0, i as int),
                base3 == sb_corners(gcfg, area) + sb_top(gcfg, area) + sb_bottom(gcfg, area)
                    + sb_left(gcfg, area),
            decreases den_h - i,
        {
            let c = interpolate_color(self.gradient_config.right_start, self.gradient_config.right_end, i, den_h);
            out.push(CellPaint { x: right, y: area.y + 1 + i, ch: '\u{2502}', fg: Some(c) });
            i = i + 1;
            assert(out@ =~= base3 + sb_right(gcfg, area).subrange(0, i as int));
        }
        let ghost base4 = base3 + sb_right(gcfg, area);
        assert(out@ =~= base4);

        match &self.title {
            None => {
                assert(sb_title(title_view(self.title), area) =~= Seq::<CellPaint>::empty());
                assert(out@ =~= spec_border_cells(gcfg, title_view(self.title), area));
            },
            Some(t) => {
                let tstr = t.as_str();
                let len: usize = tstr.unicode_len();
                if len <= (area.width - 2) as usize {
                    let tlen: u16 = len as u16;
                    proof {
                        lemma_div_nonincreasing(area.width - (tlen + 2), 2);
                        lemma_div_pos_is_pos(area.width - (tlen + 2), 2);
                    }
                    let tx: u16 = area.x + (area.width - (tlen + 2)) / 2;
                    let ghost tv = t@;
                    let ghost ts = sb_title(title_view(self.title), area);
                    assert(ts == sb_title_cells(tv, area));
                    assert(ts.len() == tv.len() + 2);
                    out.push(CellPaint { x: tx, y: area.y, ch: '\u{2524}', fg: None });
                    assert(out@ =~= base4 + ts.subrange(0, 1));
                    let mut idx: usize = 0;
                    while idx < len
                        invariant
                            rect_wf(area),
                            area.width >= 2,
                            tv == t@,
                            len == tv.len(),
                            tlen == len,
                            tlen + 2 <= area.width,
                            tx == spec_title_x(tlen as int, area),
                            tx + tlen + 1 <= area.x + area.width - 1,
                            ts == sb_title(title_view(self.title), area),
                            ts == sb_title_cells(tv, area),
                            ts.len() == tv.len() + 2,
                            idx <= len,
                            tstr@ == tv,
                            out@ =~= base4 + ts.subrange(0, idx + 1),
                        decreases len - idx,
                    {
                        let c = tstr.get_char(idx);
                        out.push(CellPaint {
                            x: tx + 1 + (idx as u16),
                            y: area.y,
                            ch: c,
                            fg: Some(Rgb { r: 255, g: 255, b: 255 }),
                        });
                        idx = idx + 1;
                        assert(out@ =~= base4 + ts.subrange(0, idx + 1));
                    }
                    out.push(CellPaint { x: tx + 1 + tlen, y: area.y, ch: '\u{251c}', fg: None });
                    assert(out@ =~= base4 + ts.subrange(0, tlen + 2));
                    assert(out@ =~= base4 + ts);
                    assert(out@ =~= spec_border_cells(gcfg, title_view(self.title), area));
                } else {
                    assert(sb_title(title_view(self.title), area) =~= Seq::<CellPaint>::empty());
                    assert(out@ =~= spec_border_cells(gcfg, title_view(self.title), area));
                }
            },
        }
        out
    }
}

/// The rectangle a wrapped widget is rendered into: the area inset by one
/// cell on every side, or an empty rectangle when the border itself does
/// not fit.
pub fn inner_rect(area: Rect) -> (r: Rect)
    requires
        rect_wf(area),
    ensures
        r == spec_inner_rect(area),
        rect_wf(r),
        crate::layout::rect_in(r, area),
{
    if area.width < 2 || area.height < 2 {
        Rect { x: area.x, y: area.y, width: 0, height: 0 }
    } else {
        Rect { x: area.x + 1, y: area.y + 1, width: area.width - 2, height: area.height - 2 }
    }
}

pub open spec fn spec_inner_rect(area: Rect) -> Rect {
    if area.width < 2 || area.height < 2 {
        Rect { x: area.x, y: area.y, width: 0, height: 0 }
    } else {
        Rect {
            x: (area.x + 1) as u16,
            y: (area.y + 1) as u16,
            width: (area.width - 2) as u16,
            height: (area.height - 2) as u16,
        }
    }
}

} // verus!
