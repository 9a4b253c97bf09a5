use vstd::prelude::*;

use crate::pixels::{
    col_count, col_counts, cols_spec, lemma_col_count_le, lemma_row_count_le, max_of,
    region_row_counts, row_count, row_counts, rows_spec, seq_max, seq_sum, sum_range,
};
pub use crate::runs::Span;
use crate::runs::{
    is_longest_cluster, largest_run, largest_run_spec, lemma_largest_run_is_longest, long_run_mask,
    long_run_mask_spec,
};
use crate::types::{Frame, Rgb};

verus! {

/// Colours and thresholds of the fishing bar. Fractions are in thousandths:
/// `min_bar_aspect_milli == 1500` asks for a bar at least 1.5 times as tall
/// as it is wide.
#[derive(Clone, Copy, Debug, PartialEq, Eq, Structural)]
pub struct Palette {
    pub bar: Rgb,
    pub fish: Rgb,
    pub marker: Rgb,
    pub tolerance: u8,
    pub min_bar_height_px: usize,
    pub min_bar_aspect_milli: u32,
    pub min_bar_fill_milli: u32,
    pub min_row_fraction_milli: u32,
}

pub open spec fn default_palette() -> Palette {
    Palette {
        bar: Rgb { r: 85, g: 170, b: 255 },
        fish: Rgb { r: 25, g: 25, b: 25 },
        marker: Rgb { r: 255, g: 255, b: 255 },
        tolerance: 8,
        min_bar_height_px: 40,
        min_bar_aspect_milli: 1500,
        min_bar_fill_milli: 300,
        min_row_fraction_milli: 300,
    }
}

impl Default for Palette {
    fn default() -> (p: Self)
        ensures
            p == default_palette(),
    {
        Palette {
            bar: Rgb::new(85, 170, 255),
            fish: Rgb::new(25, 25, 25),
            marker: Rgb::new(255, 255, 255),
            tolerance: 8,
            min_bar_height_px: 40,
            min_bar_aspect_milli: 1500,
            min_bar_fill_milli: 300,
            min_row_fraction_milli: 300,
        }
    }
}

/// An inclusive pixel box `x0..=x1` by `y0..=y1`.
#[derive(Clone, Copy, Debug, PartialEq, Eq, Structural)]
pub struct Bbox {
    pub x0: usize,
    pub y0: usize,
    pub x1: usize,
    pub y1: usize,
}

impl Bbox {
    pub fn w(&self) -> (n: usize)
        requires
            self.x0 <= self.x1,
            self.x1 - self.x0 < usize::MAX,
        ensures
            n == self.x1 - self.x0 + 1,
    {
        self.x1 - self.x0 + 1
    }

    pub fn h(&self) -> (n: usize)
        requires
            self.y0 <= self.y1,
            self.y1 - self.y0 < usize::MAX,
        ensures
            n == self.y1 - self.y0 + 1,
    {
        self.y1 - self.y0 + 1
    }
}

/// One reading of the bar. Positions are exact fractions of the bar height
/// over `center_scale` (twice the height): `fish_center / center_scale` is
/// the middle of the fish, `marker_center / center_scale` that of the
/// marker, clamped to `0..=1`.
#[derive(Clone, Copy, Debug, PartialEq, Eq, Structural)]
pub struct Reading {
    pub bar: Bbox,
    pub fish: Span,
    pub marker: Span,
    pub center_scale: usize,
    pub fish_center: usize,
    pub marker_center: usize,
}

impl Reading {
    /// How far the fish is below the marker, over `center_scale`.
    pub fn error(&self) -> (e: i64)
        requires
            self.fish_center <= i64::MAX,
            self.marker_center <= i64::MAX,
        ensures
            e == self.fish_center - self.marker_center,
    {
        self.fish_center as i64 - self.marker_center as i64
    }
}

/// How much of each colour a frame holds, and a match score in tenths.
#[derive(Clone, Copy, Debug, PartialEq, Eq, Structural)]
pub struct Confidence {
    pub bar_px: u64,
    pub fish_px: u64,
    pub marker_px: u64,
    pub total_px: u64,
    pub score_tenths: u32,
}

/// `max(wn * fraction, 1)` rows, with the fraction in thousandths, saturated
/// to 32 bits.
pub open spec fn row_min(wn: int, frac_milli: u32) -> u32 {
    let v = wn * frac_milli / 1000;
    if v < 1 {
        1
    } else if v > u32::MAX {
        u32::MAX
    } else {
        v as u32
    }
}

/// Half the strip width, at least one.
pub open spec fn half_width(wn: int) -> u32 {
    if wn / 2 < 1 {
        1
    } else if wn / 2 > u32::MAX {
        u32::MAX
    } else {
        (wn / 2) as u32
    }
}

/// A row belongs to the bar when it is mostly bar-coloured, mostly marker,
/// or inside a long dark block (the fish).
pub open spec fn filled_spec(rows: Seq<u32>, white: Seq<u32>, block: Seq<bool>, min_row: u32) -> Seq<
    u32,
> {
    Seq::new(
        rows.len(),
        |i: int|
            if rows[i] >= min_row || white[i] >= min_row || block[i] {
                1u32
            } else {
                0u32
            },
    )
}

/// Columns of the bar: the longest run of columns holding at least half the
/// tallest bar-coloured column (and at least 3 pixels), when that column is
/// at least half the minimum bar height.
pub open spec fn bar_columns(f: &Frame, p: Palette) -> Option<Span> {
    let cols = cols_spec(f, p.bar, p.tolerance);
    let m = seq_max(cols);
    if m < p.min_bar_height_px / 2 {
        None
    } else {
        largest_run_spec(cols, if m / 2 > 3 { (m / 2) as u32 } else { 3 }, 1)
    }
}

/// Rows of the bar inside the column strip `xs`.
pub open spec fn bar_rows(f: &Frame, p: Palette, xs: Span) -> Option<Span> {
    let wn = xs.end - xs.start + 1;
    let rows = rows_spec(f, p.bar, p.tolerance, xs.start as int, 0, wn, f.h as int);
    let dark = rows_spec(f, p.fish, p.tolerance, xs.start as int, 0, wn, f.h as int);
    let white = rows_spec(f, p.marker, p.tolerance, xs.start as int, 0, wn, f.h as int);
    let mr = half_width(wn);
    let block = long_run_mask_spec(dark, mr, 8);
    largest_run_spec(filled_spec(rows, white, block, mr), 1, 4)
}

/// The box is tall enough, tall relative to its width, and filled enough
/// with bar colour.
pub open spec fn bar_shape_ok(f: &Frame, p: Palette, xs: Span, ys: Span) -> bool {
    let bw = xs.end - xs.start + 1;
    let bh = ys.end - ys.start + 1;
    let rows = rows_spec(f, p.bar, p.tolerance, xs.start as int, 0, bw, f.h as int);
    &&& bh >= p.min_bar_height_px
    &&& bh * 1000 >= p.min_bar_aspect_milli * bw
    &&& seq_sum(rows, ys.start as int, ys.end + 1) * 1000 >= p.min_bar_fill_milli * bw * bh
}

/// Where the fishing bar is in `f`, if anywhere.
#[verifier::opaque]
pub open spec fn find_bar_spec(f: &Frame, p: Palette) -> Option<Bbox> {
    if f.w == 0 || f.h == 0 {
        None
    } else {
        match bar_columns(f, p) {
            None => None,
            Some(xs) => if xs.end - xs.start + 1 < 4 {
                None
            } else {
                match bar_rows(f, p, xs) {
                    None => None,
                    Some(ys) => if bar_shape_ok(f, p, xs, ys) {
                        Some(Bbox { x0: xs.start, y0: ys.start, x1: xs.end, y1: ys.end })
                    } else {
                        None
                    },
                }
            },
        }
    }
}

proof fn lemma_counts_fit(f: &Frame)
    requires
        f.counts_fit(),
        f.w > 0,
    ensures
        f.h <= u32::MAX,
        f.h > 0 ==> f.w <= u32::MAX,
        forall|x: int, c: Rgb, tol: u8|
            0 <= x < f.w ==> #[trigger] col_count(f.rgba@, f.w as int, x, 0, f.h as int, c, tol)
                <= u32::MAX,
{
    assert(f.h <= f.w * f.h) by (nonlinear_arith)
        requires
            f.w > 0,
    ;
    assert(f.w <= f.w * f.h || f.h == 0) by (nonlinear_arith);
    assert forall|x: int, c: Rgb, tol: u8|
        0 <= x < f.w implies #[trigger] col_count(f.rgba@, f.w as int, x, 0, f.h as int, c, tol)
        <= u32::MAX by {
        lemma_col_count_le(f.rgba@, f.w as int, x, 0, f.h as int, c, tol);
    }
}

fn row_min_exec(wn: usize, frac_milli: u32) -> (m: u32)
    ensures
        m == row_min(wn as int, frac_milli),
{
    assert((wn as u128) * (frac_milli as u128) <= 0xffff_ffff_ffff_ffffu128 * 0xffff_ffffu128)
        by (nonlinear_arith)
        requires
            wn <= 0xffff_ffff_ffff_ffffu128,
            frac_milli <= 0xffff_ffffu128,
    ;
    let v = (wn as u128) * (frac_milli as u128) / 1000;
    if v < 1 {
        1
    } else if v > u32::MAX as u128 {
        u32::MAX
    } else {
        v as u32
    }
}

/// Finds the fishing bar: the longest strip of bar-coloured columns, then
/// the rows of that strip that hold bar colour, the marker, or the fish.
pub fn find_bar(f: &Frame, p: &Palette) -> (res: Option<Bbox>)
    requires
        f.counts_fit(),
    ensures
        res == find_bar_spec(f, *p),
        res matches Some(b) ==> {
            &&& b.x0 <= b.x1 < f.w
            &&& b.y0 <= b.y1 < f.h
            &&& b.x1 - b.x0 + 1 >= 4
            &&& b.y1 - b.y0 + 1 >= p.min_bar_height_px
            &&& (b.y1 - b.y0 + 1) * 1000 >= p.min_bar_aspect_milli * (b.x1 - b.x0 + 1)
        },
{
    reveal(find_bar_spec);
    if f.w == 0 || f.h == 0 {
        return None;
    }
    proof {
        lemma_counts_fit(f);
    }
    let cols = col_counts(f, p.bar, p.tolerance);
    let max_col = max_of(cols.as_slice());
    if (max_col as usize) < p.min_bar_height_px / 2 {
        return None;
    }
    let half = max_col / 2;
    let min_col = if half > 3 { half } else { 3 };
    let xs = match largest_run(cols.as_slice(), min_col, 1) {
        None => {
            return None;
        },
        Some(s) => s,
    };
    assert(is_longest_cluster(cols@, min_col, 1, xs));
    assert(crate::runs::is_hit(cols@, min_col, xs.end as int));
    let wn = xs.end - xs.start + 1;
    if wn < 4 {
        return None;
    }
    let rows = region_row_counts(f, p.bar, p.tolerance, xs.start, 0, wn, f.h);
    let dark = region_row_counts(f, p.fish, p.tolerance, xs.start, 0, wn, f.h);
    let white = region_row_counts(f, p.marker, p.tolerance, xs.start, 0, wn, f.h);
    let min_row: u32 = if wn / 2 > u32::MAX as usize {
        u32::MAX
    } else {
        (wn / 2) as u32
    };
    let block = long_run_mask(dark.as_slice(), min_row, 8);
    let mut filled: Vec<u32> = Vec::new();
    let mut i: usize = 0;
    while i < rows.len()
        invariant
            rows@.len() == f.h,
            white@.len() == f.h,
            block@.len() == f.h,
            i <= f.h,
            filled@.len() == i,
            forall|q: int|
                0 <= q < i ==> filled@[q] == filled_spec(rows@, white@, block@, min_row)[q],
        decreases f.h - i,
    {
        let v: u32 = if rows[i] >= min_row || white[i] >= min_row || block[i] {
            1
        } else {
            0
        };
        filled.push(v);
        i = i + 1;
    }
    assert(filled@ =~= filled_spec(rows@, white@, block@, min_row));
    let ys = match largest_run(filled.as_slice(), 1, 4) {
        None => {
            return None;
        },
        Some(s) => s,
    };
    assert(is_longest_cluster(filled@, 1, 4, ys));
    let bbox = Bbox { x0: xs.start, y0: ys.start, x1: xs.end, y1: ys.end };
    assert(crate::runs::is_hit(filled@, 1, ys.end as int));
    let bw = bbox.w();
    let bh = bbox.h();
    assert(bw <= f.w && bh <= f.h);
    assert((p.min_bar_aspect_milli as u128) * (bw as u128) <= 0xffff_ffffu128 * 0xffff_ffffu128)
        by (nonlinear_arith)
        requires
            bw <= 0xffff_ffffu128,
            p.min_bar_aspect_milli <= 0xffff_ffffu128,
    ;
    assert((p.min_bar_fill_milli as u128) * (bw as u128) <= 0xffff_ffffu128 * 0xffff_ffffu128)
        by (nonlinear_arith)
        requires
            bw <= 0xffff_ffffu128,
            p.min_bar_fill_milli <= 0xffff_ffffu128,
    ;
    assert((p.min_bar_fill_milli as u128) * (bw as u128) * (bh as u128) <= 0xffff_ffffu128
        * 0xffff_ffffu128 * 0xffff_ffffu128) by (nonlinear_arith)
        requires
            bw <= 0xffff_ffffu128,
            bh <= 0xffff_ffffu128,
            p.min_bar_fill_milli <= 0xffff_ffffu128,
    ;
    if bh < p.min_bar_height_px || (bh as u128) * 1000 < (p.min_bar_aspect_milli as u128)
        * (bw as u128) {
        return None;
    }
    let blue = sum_range(rows.as_slice(), ys.start, ys.end);
    if (blue as u128) * 1000 < (p.min_bar_fill_milli as u128) * (bw as u128) * (bh as u128) {
        return None;
    }
    Some(bbox)
}

/// Whether the fishing bar is visible in `f`.
pub fn has_bar(f: &Frame, p: &Palette) -> (b: bool)
    requires
        f.counts_fit(),
    ensures
        b == find_bar_spec(f, *p) is Some,
{
    find_bar(f, p).is_some()
}

/// Finds the marker: the longest run of rows (joined across single-row
/// gaps) whose marker-coloured pixels cover at least the row fraction.
pub fn find_marker(inner: &Frame, p: &Palette) -> (res: Option<Span>)
    requires
        inner.wf(),
        inner.w > 0,
    ensures
        res == largest_run_spec(
            rows_spec(inner, p.marker, p.tolerance, 0, 0, inner.w as int, inner.h as int),
            row_min(inner.w as int, p.min_row_fraction_milli),
            1,
        ),
{
    let rows = row_counts(inner, p.marker, p.tolerance);
    let min = row_min_exec(inner.w, p.min_row_fraction_milli);
    largest_run(rows.as_slice(), min, 1)
}

/// Finds the fish: the longest run of rows (joined across gaps of up to
/// `max_gap` rows) whose fish-coloured pixels cover at least the row
/// fraction.
pub fn find_fish(inner: &Frame, p: &Palette, max_gap: usize) -> (res: Option<Span>)
    requires
        inner.wf(),
        inner.w > 0,
    ensures
        res == largest_run_spec(
            rows_spec(inner, p.fish, p.tolerance, 0, 0, inner.w as int, inner.h as int),
            row_min(inner.w as int, p.min_row_fraction_milli),
            max_gap as int,
        ),
{
    let rows = row_counts(inner, p.fish, p.tolerance);
    let min = row_min_exec(inner.w, p.min_row_fraction_milli);
    largest_run(rows.as_slice(), min, max_gap)
}

/// The bar with its rows replaced by those of `lock`, when `lock` lies
/// above the bottom of the frame.
pub open spec fn locked_bar(f: &Frame, bar: Bbox, lock: Option<Bbox>) -> Bbox {
    match lock {
        Some(l) => if l.y1 < f.h {
            Bbox { x0: bar.x0, y0: l.y0, x1: bar.x1, y1: l.y1 }
        } else {
            bar
        },
        None => bar,
    }
}

/// Rows searched above the bar for the marker.
pub open spec fn marker_margin(bar: Bbox) -> int {
    if bar.y0 < 8 {
        bar.y0 as int
    } else {
        8
    }
}

pub open spec fn min_int(a: int, b: int) -> int {
    if a < b {
        a
    } else {
        b
    }
}

pub open spec fn sat_sub(a: int, b: int) -> int {
    if a >= b {
        a - b
    } else {
        0
    }
}

/// The marker's rows in the bar's columns, from `margin` rows above the bar
/// to 8 rows below it (cut at the bottom of the frame).
pub open spec fn marker_run(f: &Frame, p: Palette, bar: Bbox) -> Option<Span> {
    let bw = bar.x1 - bar.x0 + 1;
    let bh = bar.y1 - bar.y0 + 1;
    let m = marker_margin(bar);
    let ey0 = bar.y0 - m;
    let eh = min_int(bh + m + 8, f.h - ey0);
    largest_run_spec(
        rows_spec(f, p.marker, p.tolerance, bar.x0 as int, ey0, bw, eh),
        row_min(bw, p.min_row_fraction_milli),
        1,
    )
}

/// The reading once the marker's raw rows `raw` (counted from `margin` rows
/// above the bar) are known.
pub open spec fn reading_from(f: &Frame, p: Palette, bar: Bbox, raw: Span) -> Option<Reading> {
    let bw = bar.x1 - bar.x0 + 1;
    let bh = bar.y1 - bar.y0 + 1;
    let m = marker_margin(bar);
    let ms = min_int(sat_sub(raw.start as int, m), bh - 1);
    let me = min_int(sat_sub(raw.end as int, m), bh - 1);
    let gap = if (me - ms + 1) * 2 > 2 {
        (me - ms + 1) * 2
    } else {
        2
    };
    match largest_run_spec(
        rows_spec(f, p.fish, p.tolerance, bar.x0 as int, bar.y0 as int, bw, bh),
        row_min(bw, p.min_row_fraction_milli),
        gap,
    ) {
        None => None,
        Some(fish) => {
            let mc = raw.start + raw.end - 2 * m;
            Some(
                Reading {
                    bar,
                    fish,
                    marker: Span { start: ms as usize, end: me as usize },
                    center_scale: (2 * bh) as usize,
                    fish_center: (fish.start + fish.end) as usize,
                    marker_center: (if mc < 0 {
                        0
                    } else if mc > 2 * bh {
                        2 * bh
                    } else {
                        mc
                    }) as usize,
                },
            )
        },
    }
}

/// What `read_locked` returns.
pub open spec fn read_locked_spec(f: &Frame, p: Palette, lock: Option<Bbox>) -> Option<Reading> {
    match find_bar_spec(f, p) {
        None => None,
        Some(b0) => {
            let bar = locked_bar(f, b0, lock);
            match marker_run(f, p, bar) {
                None => None,
                Some(raw) => reading_from(f, p, bar, raw),
            }
        },
    }
}

fn marker_of(f: &Frame, p: &Palette, bar: Bbox, ey0: usize, eh: usize) -> (res: Option<Span>)
    requires
        f.wf(),
        bar.x0 <= bar.x1 < f.w,
        bar.y0 <= bar.y1 < f.h,
        ey0 == bar.y0 - marker_margin(bar),
        eh == min_int(bar.y1 - bar.y0 + 1 + marker_margin(bar) + 8, f.h - ey0),
    ensures
        res == marker_run(f, *p, bar),
        res matches Some(r) ==> r.start <= r.end < eh,
{
    let bw = bar.x1 - bar.x0 + 1;
    let mrows = region_row_counts(f, p.marker, p.tolerance, bar.x0, ey0, bw, eh);
    let min = row_min_exec(bw, p.min_row_fraction_milli);
    let raw = largest_run(mrows.as_slice(), min, 1);
    if let Some(r) = raw {
        assert(crate::runs::is_hit(mrows@, min, r.end as int));
    }
    raw
}

fn reading_of(
    f: &Frame,
    p: &Palette,
    bar: Bbox,
    raw: Span,
    margin: usize,
    bh: usize,
    bw: usize,
    min: u32,
) -> (res: Option<Reading>)
    requires
        f.wf(),
        f.h <= u32::MAX,
        bar.x0 <= bar.x1 < f.w,
        bar.y0 <= bar.y1 < f.h,
        bh == bar.y1 - bar.y0 + 1,
        bw == bar.x1 - bar.x0 + 1,
        margin == marker_margin(bar),
        min == row_min(bw as int, p.min_row_fraction_milli),
        raw.start <= raw.end < bh + margin + 8,
    ensures
        res == reading_from(f, *p, bar, raw),
        res matches Some(r) ==> r.bar == bar && r.center_scale == 2 * bh && r.fish.start
            <= r.fish.end < bh && r.marker.start <= r.marker.end < bh && r.fish_center
            < r.center_scale && r.marker_center <= r.center_scale && r.center_scale <= 2 * f.h,
{
    let len = f.rgba.len();
    assert(f.h * 4 <= f.w * f.h * 4) by (nonlinear_arith)
        requires
            f.w > 0,
    ;
    let ms0 = if raw.start >= margin {
        raw.start - margin
    } else {
        0
    };
    let me0 = if raw.end >= margin {
        raw.end - margin
    } else {
        0
    };
    let ms = if ms0 < bh - 1 {
        ms0
    } else {
        bh - 1
    };
    let me = if me0 < bh - 1 {
        me0
    } else {
        bh - 1
    };
    let mlen = me - ms + 1;
    let max_gap = if mlen * 2 > 2 {
        mlen * 2
    } else {
        2
    };
    let frows = region_row_counts(f, p.fish, p.tolerance, bar.x0, bar.y0, bw, bh);
    let fish = match largest_run(frows.as_slice(), min, max_gap) {
        None => {
            return None;
        },
        Some(s) => s,
    };
    assert(crate::runs::is_hit(frows@, min, fish.end as int));
    let mc = raw.start + raw.end;
    let marker_center = if mc < 2 * margin {
        0
    } else if mc - 2 * margin > 2 * bh {
        2 * bh
    } else {
        mc - 2 * margin
    };
    Some(
        Reading {
            bar,
            fish,
            marker: Span { start: ms, end: me },
            center_scale: 2 * bh,
            fish_center: fish.start + fish.end,
            marker_center,
        },
    )
}

/// A lock that applies keeps the bar's rows in order.
pub open spec fn lock_ok(f: &Frame, p: Palette, lock: Option<Bbox>) -> bool {
    match lock {
        Some(l) => find_bar_spec(f, p) is Some && l.y1 < f.h ==> l.y0 <= l.y1,
        None => true,
    }
}

/// Reads the bar, fish and marker, taking the bar's rows from `lock` when it
/// lies inside the frame.
pub fn read_locked(f: &Frame, p: &Palette, lock: Option<Bbox>) -> (res: Option<Reading>)
    requires
        f.counts_fit(),
        lock_ok(f, *p, lock),
    ensures
        res == read_locked_spec(f, *p, lock),
        res matches Some(r) ==> {
            &&& find_bar_spec(f, *p) matches Some(b0) && r.bar == locked_bar(f, b0, lock)
            &&& r.center_scale == 2 * (r.bar.y1 - r.bar.y0 + 1)
            &&& r.fish.start <= r.fish.end < r.bar.y1 - r.bar.y0 + 1
            &&& r.marker.start <= r.marker.end < r.bar.y1 - r.bar.y0 + 1
            &&& r.fish_center < r.center_scale
            &&& r.marker_center <= r.center_scale
            &&& r.center_scale <= 2 * f.h
            &&& f.h <= u32::MAX
        },
{
    let b0 = match find_bar(f, p) {
        None => {
            return None;
        },
        Some(b) => b,
    };
    proof {
        lemma_counts_fit(f);
    }
    let bar = match lock {
        Some(l) => if l.y1 < f.h {
            Bbox { x0: b0.x0, y0: l.y0, x1: b0.x1, y1: l.y1 }
        } else {
            b0
        },
        None => b0,
    };
    assert(bar.y1 < f.h && bar.x1 < f.w);
    let bw = bar.w();
    let bh = bar.h();
    assert(bh <= f.h && f.h <= u32::MAX);
    let len = f.rgba.len();
    assert(f.h * 4 <= f.w * f.h * 4) by (nonlinear_arith)
        requires
            f.w > 0,
    ;
    let margin = if bar.y0 < 8 {
        bar.y0
    } else {
        8
    };
    let ey0 = bar.y0 - margin;
    let want = bh + margin + 8;
    let eh = if want < f.h - ey0 {
        want
    } else {
        f.h - ey0
    };
    let min = row_min_exec(bw, p.min_row_fraction_milli);
    let raw = match marker_of(f, p, bar, ey0, eh) {
        None => {
            return None;
        },
        Some(r) => r,
    };
    reading_of(f, p, bar, raw, margin, bh, bw, min)
}

/// Reads the bar, fish and marker.
pub fn read(f: &Frame, p: &Palette) -> (res: Option<Reading>)
    requires
        f.counts_fit(),
    ensures
        res == read_locked_spec(f, *p, None),
        res matches Some(r) ==> {
            &&& find_bar_spec(f, *p) == Some(r.bar)
            &&& r.center_scale == 2 * (r.bar.y1 - r.bar.y0 + 1)
            &&& r.fish.start <= r.fish.end < r.bar.y1 - r.bar.y0 + 1
            &&& r.marker.start <= r.marker.end < r.bar.y1 - r.bar.y0 + 1
            &&& r.fish_center < r.center_scale
            &&& r.marker_center <= r.center_scale
            &&& f.h <= u32::MAX
        },
{
    read_locked(f, p, None)
}

/// Pixel totals and the match score of a frame.
pub open spec fn confidence_spec(f: &Frame, p: Palette) -> Confidence {
    let total = if f.w * f.h >= 1 {
        f.w * f.h
    } else {
        1
    };
    let all = |c: Rgb| seq_sum(rows_spec(f, c, p.tolerance, 0, 0, f.w as int, f.h as int), 0, f.h as int);
    let bar_px = all(p.bar);
    let fish_px = all(p.fish);
    let marker_px = all(p.marker);
    let score = (if find_bar_spec(f, p) is Some {
        4int
    } else {
        0
    }) + (if fish_px * 50 > total {
        3int
    } else {
        0
    }) + (if marker_px * 200 > total {
        3int
    } else {
        0
    });
    Confidence {
        bar_px: bar_px as u64,
        fish_px: fish_px as u64,
        marker_px: marker_px as u64,
        total_px: total as u64,
        score_tenths: score as u32,
    }
}

fn total_of(f: &Frame, c: Rgb, tol: u8) -> (t: u64)
    requires
        f.counts_fit(),
        f.w > 0,
    ensures
        t == seq_sum(rows_spec(f, c, tol, 0, 0, f.w as int, f.h as int), 0, f.h as int),
{
    proof {
        lemma_counts_fit(f);
    }
    let rows = row_counts(f, c, tol);
    if f.h == 0 {
        0
    } else {
        sum_range(rows.as_slice(), 0, f.h - 1)
    }
}

/// How much bar, fish and marker colour the frame holds, and a score in
/// tenths: 4 when the bar is found, 3 when over 1/50 of the pixels are fish,
/// 3 when over 1/200 are marker.
pub fn confidence(f: &Frame, p: &Palette) -> (c: Confidence)
    requires
        f.counts_fit(),
        f.w > 0,
    ensures
        c == confidence_spec(f, *p),
{
    let wh = f.w * f.h;
    let total: u64 = if wh >= 1 {
        wh as u64
    } else {
        1
    };
    let bar = total_of(f, p.bar, p.tolerance);
    let fish = total_of(f, p.fish, p.tolerance);
    let marker = total_of(f, p.marker, p.tolerance);
    let mut score: u32 = 0;
    if find_bar(f, p).is_some() {
        score = score + 4;
    }
    if (fish as u128) * 50 > total as u128 {
        score = score + 3;
    }
    if (marker as u128) * 200 > total as u128 {
        score = score + 3;
    }
    Confidence { bar_px: bar, fish_px: fish, marker_px: marker, total_px: total, score_tenths: score }
}


/// The bar's column strip is the longest run of columns (joined across
/// single-column gaps) whose bar-coloured pixel count reaches half the
/// tallest bar-coloured column, and at least 3; that tallest column holds at
/// least half the minimum bar height.
pub proof fn lemma_bar_is_longest_column_run(f: &Frame, p: Palette, b: Bbox)
    requires
        find_bar_spec(f, p) == Some(b),
    ensures
        ({
            let cols = cols_spec(f, p.bar, p.tolerance);
            let m = seq_max(cols);
            let half: u32 = if m / 2 > 3 {
                (m / 2) as u32
            } else {
                3
            };
            &&& m >= p.min_bar_height_px / 2
            &&& is_longest_cluster(cols, half, 1, Span { start: b.x0, end: b.x1 })
        }),
{
    reveal(find_bar_spec);
    let cols = cols_spec(f, p.bar, p.tolerance);
    let m = seq_max(cols);
    let half: u32 = if m / 2 > 3 {
        (m / 2) as u32
    } else {
        3
    };
    lemma_largest_run_is_longest(cols, half, 1);
}

/// The fish of a reading is the longest run of fish-coloured rows inside the
/// bar (rows holding at least the row fraction of the bar's width), joined
/// across gaps of up to twice the marker's height (at least 2 rows): a fish
/// that the marker covers in the middle is still read as one span.
pub proof fn lemma_fish_bridges_the_marker(f: &Frame, p: Palette, lock: Option<Bbox>, r: Reading)
    requires
        read_locked_spec(f, p, lock) == Some(r),
    ensures
        ({
            let bw = r.bar.x1 - r.bar.x0 + 1;
            let bh = r.bar.y1 - r.bar.y0 + 1;
            let mlen = r.marker.end - r.marker.start + 1;
            let gap = if 2 * mlen > 2 {
                2 * mlen
            } else {
                2
            };
            is_longest_cluster(
                rows_spec(f, p.fish, p.tolerance, r.bar.x0 as int, r.bar.y0 as int, bw, bh),
                row_min(bw, p.min_row_fraction_milli),
                gap,
                r.fish,
            )
        }),
{
    let b0 = find_bar_spec(f, p)->0;
    let bar = locked_bar(f, b0, lock);
    let raw = marker_run(f, p, bar)->0;
    let bw = bar.x1 - bar.x0 + 1;
    let bh = bar.y1 - bar.y0 + 1;
    let m = marker_margin(bar);
    let ms = min_int(sat_sub(raw.start as int, m), bh - 1);
    let me = min_int(sat_sub(raw.end as int, m), bh - 1);
    let gap = if (me - ms + 1) * 2 > 2 {
        (me - ms + 1) * 2
    } else {
        2
    };
    lemma_largest_run_is_longest(
        rows_spec(f, p.fish, p.tolerance, bar.x0 as int, bar.y0 as int, bw, bh),
        row_min(bw, p.min_row_fraction_milli),
        gap,
    );
}

} // verus!
