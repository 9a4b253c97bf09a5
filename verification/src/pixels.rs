use vstd::prelude::*;

use crate::types::{px_matches, Frame, Rgb};

verus! {

/// Number of pixels of row `y`, columns `x0 .. x0 + n`, that match `c`.
pub open spec fn row_count(data: Seq<u8>, w: int, y: int, x0: int, n: int, c: Rgb, tol: u8) -> nat
    decreases n,
{
    if n <= 0 {
        0
    } else {
        row_count(data, w, y, x0, n - 1, c, tol) + if px_matches(data, w, x0 + n - 1, y, c, tol) {
            1nat
        } else {
            0nat
        }
    }
}

/// Number of pixels of column `x`, rows `y0 .. y0 + n`, that match `c`.
pub open spec fn col_count(data: Seq<u8>, w: int, x: int, y0: int, n: int, c: Rgb, tol: u8) -> nat
    decreases n,
{
    if n <= 0 {
        0
    } else {
        col_count(data, w, x, y0, n - 1, c, tol) + if px_matches(data, w, x, y0 + n - 1, c, tol) {
            1nat
        } else {
            0nat
        }
    }
}

/// Per-row match counts of the `wn` by `hn` region at `(x0, y0)`, top to
/// bottom, each as a 32-bit count.
pub open spec fn rows_spec(f: &Frame, c: Rgb, tol: u8, x0: int, y0: int, wn: int, hn: int) -> Seq<
    u32,
> {
    Seq::new(hn as nat, |j: int| row_count(f.rgba@, f.w as int, y0 + j, x0, wn, c, tol) as u32)
}

/// Per-column match counts of the whole frame, left to right.
pub open spec fn cols_spec(f: &Frame, c: Rgb, tol: u8) -> Seq<u32> {
    Seq::new(f.w as nat, |x: int| col_count(f.rgba@, f.w as int, x, 0, f.h as int, c, tol) as u32)
}

/// Largest entry (0 for an empty sequence).
pub open spec fn seq_max(s: Seq<u32>) -> u32
    decreases s.len(),
{
    if s.len() == 0 {
        0
    } else {
        let m = seq_max(s.drop_last());
        if s.last() > m {
            s.last()
        } else {
            m
        }
    }
}

/// Sum of the entries `a .. b`.
pub open spec fn seq_sum(s: Seq<u32>, a: int, b: int) -> int
    decreases b - a,
{
    if b <= a {
        0
    } else {
        seq_sum(s, a, b - 1) + s[b - 1]
    }
}

pub proof fn lemma_row_count_le(data: Seq<u8>, w: int, y: int, x0: int, n: int, c: Rgb, tol: u8)
    requires
        n >= 0,
    ensures
        row_count(data, w, y, x0, n, c, tol) <= n,
    decreases n,
{
    if n > 0 {
        lemma_row_count_le(data, w, y, x0, n - 1, c, tol);
    }
}

pub proof fn lemma_col_count_le(data: Seq<u8>, w: int, x: int, y0: int, n: int, c: Rgb, tol: u8)
    requires
        n >= 0,
    ensures
        col_count(data, w, x, y0, n, c, tol) <= n,
    decreases n,
{
    if n > 0 {
        lemma_col_count_le(data, w, x, y0, n - 1, c, tol);
    }
}

/// A pixel `(x, y)` inside a `w` by `h` frame has its four bytes inside the
/// buffer.
pub proof fn lemma_pixel_index(w: int, h: int, x: int, y: int)
    requires
        0 <= x < w,
        0 <= y < h,
    ensures
        0 <= y * w,
        (y * w + x) * 4 + 3 < w * h * 4,
        y * w + w <= w * h,
{
    assert(0 <= y * w) by (nonlinear_arith)
        requires
            0 <= y,
            0 <= w,
    ;
    assert(y * w + w <= w * h) by (nonlinear_arith)
        requires
            y < h,
            0 <= w,
    ;
}

pub proof fn lemma_sum_le(s: Seq<u32>, a: int, b: int, bound: int)
    requires
        a <= b,
        forall|i: int| a <= i < b ==> s[i] <= bound,
    ensures
        seq_sum(s, a, b) <= (b - a) * bound,
    decreases b - a,
{
    if b > a {
        lemma_sum_le(s, a, b - 1, bound);
        assert(s[b - 1] <= bound);
        assert(seq_sum(s, a, b) == seq_sum(s, a, b - 1) + s[b - 1]);
        assert((b - 1 - a) * bound + bound == (b - a) * bound) by (nonlinear_arith);
    } else {
        assert((b - a) * bound == 0) by (nonlinear_arith)
            requires
                b == a,
        ;
    }
}

/// Counts the pixels of row `y`, columns `x0 .. x0 + n`, that match `color`.
fn count_row(f: &Frame, color: Rgb, tol: u8, y: usize, x0: usize, n: usize) -> (k: usize)
    requires
        f.wf(),
        y < f.h,
        x0 + n <= f.w,
    ensures
        k == row_count(f.rgba@, f.w as int, y as int, x0 as int, n as int, color, tol),
{
    proof {
        if n > 0 {
            lemma_pixel_index(f.w as int, f.h as int, x0 as int, y as int);
        }
        assert(0 <= y * f.w) by (nonlinear_arith)
            requires
                0 <= y,
                0 <= f.w,
        ;
        assert(y * f.w + f.w <= f.w * f.h) by (nonlinear_arith)
            requires
                y < f.h,
                0 <= f.w,
        ;
    }
    let len = f.rgba.len();
    assert((y * f.w + x0 + n) * 4 <= f.rgba@.len());
    let base = (y * f.w + x0) * 4;
    let mut count: usize = 0;
    let mut k: usize = 0;
    while k < n
        invariant
            f.wf(),
            y < f.h,
            x0 + n <= f.w,
            k <= n,
            y * f.w + f.w <= f.w * f.h,
            (y * f.w + x0 + n) * 4 <= f.rgba@.len(),
            len == f.rgba@.len(),
            base == (y * f.w + x0) * 4,
            count == row_count(f.rgba@, f.w as int, y as int, x0 as int, k as int, color, tol),
            count <= k,
        decreases n - k,
    {
        let i = base + 4 * k;
        assert(i == (y * f.w + (x0 + k)) * 4);
        let m = color.within(f.rgba[i], f.rgba[i + 1], f.rgba[i + 2], tol);
        if m {
            count = count + 1;
        }
        k = k + 1;
    }
    count
}

/// Counts the pixels of column `x`, rows `y0 .. y0 + n`, that match `color`.
fn count_col(f: &Frame, color: Rgb, tol: u8, x: usize, y0: usize, n: usize) -> (k: usize)
    requires
        f.wf(),
        x < f.w,
        y0 + n <= f.h,
    ensures
        k == col_count(f.rgba@, f.w as int, x as int, y0 as int, n as int, color, tol),
{
    let mut count: usize = 0;
    let mut k: usize = 0;
    while k < n
        invariant
            f.wf(),
            x < f.w,
            y0 + n <= f.h,
            k <= n,
            count == col_count(f.rgba@, f.w as int, x as int, y0 as int, k as int, color, tol),
            count <= k,
        decreases n - k,
    {
        proof {
            lemma_pixel_index(f.w as int, f.h as int, x as int, (y0 + k) as int);
        }
        let len = f.rgba.len();
        let i = ((y0 + k) * f.w + x) * 4;
        let m = color.within(f.rgba[i], f.rgba[i + 1], f.rgba[i + 2], tol);
        if m {
            count = count + 1;
        }
        k = k + 1;
    }
    count
}

/// Per-row counts of the pixels of the `wn` by `hn` region at `(x0, y0)`
/// that match `color`.
pub fn region_row_counts(
    f: &Frame,
    color: Rgb,
    tol: u8,
    x0: usize,
    y0: usize,
    wn: usize,
    hn: usize,
) -> (rows: Vec<u32>)
    requires
        f.wf(),
        x0 + wn <= f.w,
        y0 + hn <= f.h,
    ensures
        rows@ == rows_spec(f, color, tol, x0 as int, y0 as int, wn as int, hn as int),
{
    let mut rows: Vec<u32> = Vec::new();
    let mut j: usize = 0;
    while j < hn
        invariant
            f.wf(),
            x0 + wn <= f.w,
            y0 + hn <= f.h,
            j <= hn,
            rows@.len() == j,
            forall|q: int|
                0 <= q < j ==> rows@[q] == row_count(
                    f.rgba@,
                    f.w as int,
                    y0 + q,
                    x0 as int,
                    wn as int,
                    color,
                    tol,
                ) as u32,
        decreases hn - j,
    {
        let k = count_row(f, color, tol, y0 + j, x0, wn);
        rows.push(k as u32);
        j = j + 1;
    }
    proof {
        assert(rows@ =~= rows_spec(f, color, tol, x0 as int, y0 as int, wn as int, hn as int));
    }
    rows
}

/// Per-row counts of the pixels that match `color`, top to bottom, each
/// truncated to 32 bits (a count is taken modulo 2^32).
pub fn row_counts(f: &Frame, color: Rgb, tol: u8) -> (rows: Vec<u32>)
    requires
        f.wf(),
        f.w > 0,
    ensures
        rows@ == rows_spec(f, color, tol, 0, 0, f.w as int, f.h as int),
{
    region_row_counts(f, color, tol, 0, 0, f.w, f.h)
}

/// Per-column counts of the pixels that match `color`, left to right.
pub fn col_counts(f: &Frame, color: Rgb, tol: u8) -> (cols: Vec<u32>)
    requires
        f.wf(),
        forall|x: int|
            0 <= x < f.w ==> col_count(f.rgba@, f.w as int, x, 0, f.h as int, color, tol)
                <= u32::MAX,
    ensures
        cols@ == cols_spec(f, color, tol),
{
    let mut cols: Vec<u32> = Vec::new();
    let mut x: usize = 0;
    while x < f.w
        invariant
            f.wf(),
            forall|q: int|
                0 <= q < f.w ==> col_count(f.rgba@, f.w as int, q, 0, f.h as int, color, tol)
                    <= u32::MAX,
            x <= f.w,
            cols@.len() == x,
            forall|q: int|
                0 <= q < x ==> cols@[q] == col_count(
                    f.rgba@,
                    f.w as int,
                    q,
                    0,
                    f.h as int,
                    color,
                    tol,
                ) as u32,
        decreases f.w - x,
    {
        let k = count_col(f, color, tol, x, 0, f.h);
        cols.push(k as u32);
        x = x + 1;
    }
    proof {
        assert(cols@ =~= cols_spec(f, color, tol));
    }
    cols
}

/// Largest entry of a non-empty slice.
pub fn max_of(s: &[u32]) -> (m: u32)
    requires
        s@.len() > 0,
    ensures
        m == seq_max(s@),
{
    let mut m = s[0];
    let mut i: usize = 1;
    assert(s@.take(1).drop_last() =~= s@.take(0));
    assert(seq_max(s@.take(0)) == 0);
    assert(s@.take(1).last() == s[0]);
    while i < s.len()
        invariant
            1 <= i <= s@.len(),
            m == seq_max(s@.take(i as int)),
        decreases s@.len() - i,
    {
        assert(s@.take(i + 1).drop_last() =~= s@.take(i as int));
        if s[i] > m {
            m = s[i];
        }
        i = i + 1;
    }
    assert(s@.take(s@.len() as int) =~= s@);
    m
}

/// Sum of the entries `a ..= b`.
pub fn sum_range(s: &[u32], a: usize, b: usize) -> (t: u64)
    requires
        a <= b < s@.len(),
        s@.len() <= u32::MAX,
    ensures
        t == seq_sum(s@, a as int, b + 1),
{
    let mut t: u64 = 0;
    let mut i: usize = a;
    while i <= b
        invariant
            a <= i <= b + 1,
            b < s@.len(),
            s@.len() <= u32::MAX,
            t == seq_sum(s@, a as int, i as int),
            t <= (i - a) * u32::MAX,
        decreases b + 1 - i,
    {
        proof {
            lemma_sum_le(s@, a as int, i as int, u32::MAX as int);
            assert((i - a) * u32::MAX + u32::MAX == (i + 1 - a) * u32::MAX) by (nonlinear_arith);
            assert((i + 1 - a) * u32::MAX <= u32::MAX * u32::MAX) by (nonlinear_arith)
                requires
                    i + 1 - a <= u32::MAX,
            ;
        }
        t = t + s[i] as u64;
        i = i + 1;
    }
    t
}

} // verus!
