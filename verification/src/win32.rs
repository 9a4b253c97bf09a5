use vstd::prelude::*;

use crate::text::chars_of;
use crate::types::PxRect;

verus! {

/// The UTF-16 code units of one character.
pub open spec fn utf16_of(c: char) -> Seq<u16> {
    let u = c as u32;
    if u < 0x10000 {
        seq![u as u16]
    } else {
        let v = u - 0x10000;
        seq![(0xD800 + v / 1024) as u16, (0xDC00 + v % 1024) as u16]
    }
}

/// The UTF-16 encoding of a string.
pub open spec fn utf16(s: Seq<char>) -> Seq<u16>
    decreases s.len(),
{
    if s.len() == 0 {
        seq![]
    } else {
        utf16(s.drop_last()) + utf16_of(s.last())
    }
}

/// A NUL-terminated UTF-16 string, as Win32 calls take it.
pub fn wide(s: &str) -> (w: Vec<u16>)
    ensures
        w@ == utf16(s@).push(0),
{
    let cs = chars_of(s);
    let mut out: Vec<u16> = Vec::new();
    let mut i: usize = 0;
    while i < cs.len()
        invariant
            cs@ == s@,
            i <= cs@.len(),
            out@ == utf16(cs@.take(i as int)),
        decreases cs@.len() - i,
    {
        let ghost before = out@;
        assert(cs@.take(i + 1).drop_last() =~= cs@.take(i as int));
        let u = cs[i] as u32;
        if u < 0x10000 {
            out.push(u as u16);
        } else {
            let v = u - 0x10000;
            out.push((0xD800 + v / 1024) as u16);
            out.push((0xDC00 + v % 1024) as u16);
        }
        assert(out@ =~= before + utf16_of(cs@[i as int]));
        i = i + 1;
    }
    assert(cs@.take(cs@.len() as int) =~= cs@);
    out.push(0);
    out
}

/// The Win32 game window, found by its window class and title.
#[derive(Clone, Debug)]
pub struct Win32Window {
    pub class: Vec<u16>,
    pub title: Vec<u16>,
}

impl Win32Window {
    pub fn new(title: &str) -> (w: Win32Window)
        ensures
            w.class@ == utf16("WINDOWSCLIENT"@).push(0),
            w.title@ == utf16(title@).push(0),
    {
        Win32Window { class: wide("WINDOWSCLIENT"), title: wide(title) }
    }
}

/// The GDI screen capturer; it holds no state.
#[derive(Clone, Copy, Debug)]
pub struct GdiCapture;

impl GdiCapture {
    pub fn new() -> (c: GdiCapture) {
        GdiCapture
    }
}

/// Byte `i` of a BGRA buffer once turned into opaque RGBA: blue and red
/// swap, alpha becomes 255; a trailing partial pixel stays as it was.
pub open spec fn bgra_to_rgba_at(old: Seq<u8>, i: int) -> u8 {
    if i >= old.len() / 4 * 4 {
        old[i]
    } else if i % 4 == 0 {
        old[i + 2]
    } else if i % 4 == 2 {
        old[i - 2]
    } else if i % 4 == 3 {
        255
    } else {
        old[i]
    }
}

/// Turns BGRA pixels into opaque RGBA in place.
pub fn bgra_to_rgba(buf: &mut Vec<u8>)
    ensures
        final(buf)@.len() == old(buf)@.len(),
        forall|i: int|
            0 <= i < old(buf)@.len() ==> #[trigger] final(buf)@[i] == bgra_to_rgba_at(old(buf)@, i),
{
    let ghost orig = buf@;
    let n = buf.len() / 4;
    let mut k: usize = 0;
    while k < n
        invariant
            n == orig.len() / 4,
            orig.len() <= usize::MAX,
            buf@.len() == orig.len(),
            k <= n,
            forall|i: int| 0 <= i < 4 * k ==> #[trigger] buf@[i] == bgra_to_rgba_at(orig, i),
            forall|i: int| 4 * k <= i < orig.len() ==> #[trigger] buf@[i] == orig[i],
        decreases n - k,
    {
        let p = 4 * k;
        let b = buf[p];
        let r = buf[p + 2];
        buf.set(p, r);
        buf.set(p + 2, b);
        buf.set(p + 3, 255);
        k = k + 1;
    }
}

/// One row of `n` BGRA pixels from byte `start`, as opaque RGBA.
pub open spec fn bgra_line(src: Seq<u8>, start: int, n: int) -> Seq<u8>
    decreases n,
{
    if n <= 0 {
        seq![]
    } else {
        let p = start + 4 * (n - 1);
        bgra_line(src, start, n - 1) + seq![src[p + 2], src[p + 1], src[p], 255u8]
    }
}

/// The first `rows` rows of a `w`-pixel wide region at `(lx, ly)` of a BGRA
/// surface whose rows are `pitch` bytes apart, as opaque RGBA.
pub open spec fn bgra_region(src: Seq<u8>, pitch: int, lx: int, ly: int, w: int, rows: int) -> Seq<
    u8,
>
    decreases rows,
{
    if rows <= 0 {
        seq![]
    } else {
        bgra_region(src, pitch, lx, ly, w, rows - 1) + bgra_line(
            src,
            (ly + rows - 1) * pitch + lx * 4,
            w,
        )
    }
}

/// Copies a `w` by `h` region at `(lx, ly)` out of a mapped BGRA surface
/// into opaque RGBA, row by row.
pub fn copy_bgra_region(src: &[u8], pitch: usize, lx: usize, ly: usize, w: usize, h: usize) -> (out:
    Vec<u8>)
    requires
        h > 0 ==> ly + h - 1 <= usize::MAX && (ly + h - 1) * pitch + lx * 4 + w * 4 <= src@.len(),
    ensures
        out@ == bgra_region(src@, pitch as int, lx as int, ly as int, w as int, h as int),
{
    let len = src.len();
    let mut out: Vec<u8> = Vec::new();
    let mut r: usize = 0;
    while r < h
        invariant
            r <= h,
            len == src@.len(),
            h > 0 ==> ly + h - 1 <= usize::MAX && (ly + h - 1) * pitch + lx * 4 + w * 4
                <= src@.len(),
            out@ == bgra_region(src@, pitch as int, lx as int, ly as int, w as int, r as int),
        decreases h - r,
    {
        assert(0 <= (ly + r) * pitch <= (ly + h - 1) * pitch) by (nonlinear_arith)
            requires
                r < h,
        ;
        assert((ly + r) * pitch + lx * 4 + w * 4 <= len);
        let row = (ly + r) * pitch;
        let start = row + lx * 4;
        let mut x: usize = 0;
        while x < w
            invariant
                x <= w,
                r < h,
                len == src@.len(),
                start == (ly + r) * pitch + lx * 4,
                start + w * 4 <= src@.len(),
                out@ == bgra_region(src@, pitch as int, lx as int, ly as int, w as int, r as int)
                    + bgra_line(src@, start as int, x as int),
            decreases w - x,
        {
            let p = start + 4 * x;
            let ghost before = out@;
            out.push(src[p + 2]);
            out.push(src[p + 1]);
            out.push(src[p]);
            out.push(255);
            assert(out@ =~= before + seq![src@[p + 2], src@[p + 1], src@[p as int], 255u8]);
            x = x + 1;
        }
        r = r + 1;
    }
    out
}

/// Whether a duplicated output's area, at `origin` with `size`, covers
/// `rect`; when it does not, the capture session must be reopened.
pub fn session_covers(rect: PxRect, origin: (i32, i32), size: (i32, i32)) -> (b: bool)
    ensures
        b == !(rect.x < origin.0 || rect.y < origin.1 || rect.x + rect.w > origin.0 + size.0 || rect.y
            + rect.h > origin.1 + size.1),
{
    let outside = rect.x < origin.0 || rect.y < origin.1 || (rect.x as i64 + rect.w as i64)
        > (origin.0 as i64 + size.0 as i64) || (rect.y as i64 + rect.h as i64) > (origin.1 as i64
        + size.1 as i64);
    !outside
}

/// Whether a capture at `(x, y)` starts on the output whose desktop
/// coordinates are `left..right` by `top..bottom`.
pub fn output_contains(x: i32, y: i32, left: i32, top: i32, right: i32, bottom: i32) -> (b: bool)
    ensures
        b == (left <= x < right && top <= y < bottom),
{
    !(x < left || y < top || x >= right || y >= bottom)
}


/// Milliseconds to wait for the first desktop frame of a duplication session.
pub const FIRST_FRAME_TIMEOUT_MS: u32 = 250;

/// Whether a capture of `rect` must open a new duplication session: there is
/// none, or the open one (at `origin` with `size`) does not cover `rect`.
pub fn dxgi_needs_open(session: Option<((i32, i32), (i32, i32))>, rect: PxRect) -> (b: bool)
    ensures
        b == match session {
            None => true,
            Some((origin, size)) => rect.x < origin.0 || rect.y < origin.1 || rect.x + rect.w
                > origin.0 + size.0 || rect.y + rect.h > origin.1 + size.1,
        },
{
    match session {
        None => true,
        Some((origin, size)) => !session_covers(rect, origin, size),
    }
}

/// How long to wait for a new frame: the first-frame timeout until the
/// session has delivered one, then not at all (the last frame is reused).
pub fn acquire_timeout_ms(has_frame: bool) -> (t: u32)
    ensures
        t == (if has_frame {
            0u32
        } else {
            250u32
        }),
{
    if has_frame {
        0
    } else {
        FIRST_FRAME_TIMEOUT_MS
    }
}

/// How asking the duplication for its next frame ended.
#[derive(Clone, Debug, PartialEq, Eq)]
pub enum Acquired {
    /// A new frame was copied into the staging texture.
    Frame,
    /// No new frame arrived within the timeout.
    TimedOut,
    /// The request or the copy failed with this message.
    Failed(String),
}

/// Whether the session's staging texture can be read after `outcome`, and
/// so whether it now holds a frame; the error ends the session.
pub fn after_acquire(outcome: Acquired, has_frame: bool) -> (r: Result<bool, String>)
    ensures
        match outcome {
            Acquired::Frame => r == Ok::<bool, String>(true),
            Acquired::TimedOut => if has_frame {
                r == Ok::<bool, String>(true)
            } else {
                r matches Err(e) && e@ == "no desktop frame yet"@
            },
            Acquired::Failed(m) => r matches Err(e) && e@ == m@,
        },
{
    match outcome {
        Acquired::Frame => Ok(true),
        Acquired::TimedOut => if has_frame {
            Ok(true)
        } else {
            Err(String::from_str("no desktop frame yet"))
        },
        Acquired::Failed(m) => Err(m),
    }
}


/// The output that a duplication session is opened on: the first one, in
/// enumeration order, whose desktop area `(left, top, right, bottom)`
/// contains `(x, y)`; outputs whose area could not be read are skipped.
pub fn first_output_containing(outputs: &[Option<(i32, i32, i32, i32)>], x: i32, y: i32) -> (r:
    Option<usize>)
    ensures
        match r {
            Some(i) => i < outputs@.len() && (outputs@[i as int] matches Some(
                d,
            ) && d.0 <= x < d.2 && d.1 <= y < d.3) && forall|j: int|
                0 <= j < i ==> !(#[trigger] outputs@[j] matches Some(d) && d.0 <= x < d.2 && d.1
                    <= y < d.3),
            None => forall|j: int|
                0 <= j < outputs@.len() ==> !(#[trigger] outputs@[j] matches Some(d) && d.0 <= x
                    < d.2 && d.1 <= y < d.3),
        },
{
    let mut i: usize = 0;
    while i < outputs.len()
        invariant
            i <= outputs@.len(),
            forall|j: int|
                0 <= j < i ==> !(#[trigger] outputs@[j] matches Some(d) && d.0 <= x < d.2 && d.1
                    <= y < d.3),
        decreases outputs@.len() - i,
    {
        if let Some((left, top, right, bottom)) = outputs[i] {
            if output_contains(x, y, left, top, right, bottom) {
                return Some(i);
            }
        }
        i = i + 1;
    }
    None
}

} // verus!
