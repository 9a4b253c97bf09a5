use vstd::prelude::*;
use vstd::std_specs::bits::u32_trailing_zeros;

use crate::platform::PlatformError;
use crate::text::{concat, decimal, decimal_chars};
use crate::types::PxRect;

verus! {

/// Byte order of multi-byte pixels in an X11 image.
#[derive(Clone, Copy, Debug, PartialEq, Eq, Structural)]
pub enum ImageOrder {
    LsbFirst,
    MsbFirst,
    Other,
}

/// Layout of the root window's pixels as the X server reports it.
#[derive(Clone, Copy, Debug, PartialEq, Eq, Structural)]
pub struct PixelFormat {
    pub red_mask: u32,
    pub green_mask: u32,
    pub blue_mask: u32,
    pub bits_per_pixel: u8,
    pub scanline_pad: u8,
    pub image_order: ImageOrder,
}

/// Value of bytes stored least significant first.
pub open spec fn le_value(s: Seq<u8>) -> int
    decreases s.len(),
{
    if s.len() == 0 {
        0
    } else {
        s[0] + 256 * le_value(s.drop_first())
    }
}

/// Value of bytes stored most significant first.
pub open spec fn be_value(s: Seq<u8>) -> int
    decreases s.len(),
{
    if s.len() == 0 {
        0
    } else {
        be_value(s.drop_last()) * 256 + s.last()
    }
}

pub open spec fn pow256(n: nat) -> int
    decreases n,
{
    if n == 0 {
        1
    } else {
        256 * pow256((n - 1) as nat)
    }
}

/// The channel selected by `mask`, scaled to `0..=255`.
pub open spec fn scale_spec(pixel: u32, mask: u32) -> u8 {
    if mask == 0 {
        0
    } else {
        let shift = u32_trailing_zeros(mask);
        let max = mask >> shift;
        (((pixel & mask) >> shift) as int * 255 / (if max >= 1 {
            max as int
        } else {
            1
        })) as u8
    }
}

/// Scales the channel selected by `mask` to `0..=255`. The product is
/// taken in 64 bits, so no mask can make it overflow.
pub fn scale_channel(pixel: u32, mask: u32) -> (c: u8)
    ensures
        c == scale_spec(pixel, mask),
{
    if mask == 0 {
        return 0;
    }
    let shift = mask.trailing_zeros();
    proof {
        vstd::std_specs::bits::axiom_u32_trailing_zeros(mask);
    }
    let max = mask >> shift;
    let v = (pixel & mask) >> shift;
    assert(v <= max) by (bit_vector)
        requires
            v == (pixel & mask) >> shift,
            max == mask >> shift,
    ;
    let d = if max >= 1 {
        max
    } else {
        1
    };
    assert((v as int) * 255 <= u64::MAX) by (nonlinear_arith)
        requires
            v <= u32::MAX,
    ;
    let q = (v as u64) * 255 / (d as u64);
    assert(q <= 255) by (nonlinear_arith)
        requires
            q == (v as int) * 255 / (d as int),
            v <= d,
            d >= 1,
    ;
    q as u8
}

/// Bytes per pixel: the bits rounded up to whole bytes.
pub open spec fn bytes_per_pixel(f: PixelFormat) -> int {
    (f.bits_per_pixel + 7) / 8
}

pub open spec fn layout_ok(f: PixelFormat) -> bool {
    1 <= bytes_per_pixel(f) <= 4 && f.scanline_pad != 0
}

pub open spec fn div_ceil(a: int, b: int) -> int {
    if a % b == 0 {
        a / b
    } else {
        a / b + 1
    }
}

/// Bits of one scanline before padding.
pub open spec fn line_bits(width: int, f: PixelFormat) -> int {
    width * f.bits_per_pixel
}

/// Bytes of one scanline, padded to the scanline unit.
pub open spec fn line_bytes(width: int, f: PixelFormat) -> int {
    div_ceil(div_ceil(line_bits(width, f), f.scanline_pad as int) * f.scanline_pad, 8)
}

/// Pixels decoded from each scanline.
pub open spec fn pixels_per_line(width: int, f: PixelFormat) -> int {
    let fit = line_bytes(width, f) / bytes_per_pixel(f);
    if width < fit {
        width
    } else {
        fit
    }
}

/// The value of one pixel's bytes in the image's byte order.
pub open spec fn pixel_value(px: Seq<u8>, order: ImageOrder) -> int {
    match order {
        ImageOrder::LsbFirst => le_value(px),
        _ => be_value(px),
    }
}

/// The four RGBA bytes of one pixel.
pub open spec fn pixel_rgba(px: Seq<u8>, f: PixelFormat) -> Seq<u8> {
    let v = pixel_value(px, f.image_order) as u32;
    seq![scale_spec(v, f.red_mask), scale_spec(v, f.green_mask), scale_spec(v, f.blue_mask), 255u8]
}

/// The first `n` pixels of the scanline starting at byte `start`.
pub open spec fn line_rgba(data: Seq<u8>, start: int, n: int, f: PixelFormat) -> Seq<u8>
    decreases n,
{
    if n <= 0 {
        seq![]
    } else {
        let b = bytes_per_pixel(f);
        line_rgba(data, start, n - 1, f) + pixel_rgba(
            data.subrange(start + (n - 1) * b, start + n * b),
            f,
        )
    }
}

/// The first `rows` scanlines, each `stride` bytes long, `n` pixels each.
pub open spec fn image_rgba(data: Seq<u8>, stride: int, rows: int, n: int, f: PixelFormat) -> Seq<u8>
    decreases rows,
{
    if rows <= 0 {
        seq![]
    } else {
        image_rgba(data, stride, rows - 1, n, f) + line_rgba(data, (rows - 1) * stride, n, f)
    }
}

/// Inputs on which decoding would stop on an arithmetic overflow or an
/// empty scanline, which this function does not accept.
pub open spec fn decode_accepts(len: int, width: int, height: int, f: PixelFormat) -> bool {
    layout_ok(f) && line_bits(width, f) <= usize::MAX ==> {
        &&& div_ceil(line_bits(width, f), f.scanline_pad as int) * f.scanline_pad <= usize::MAX
        &&& (line_bytes(width, f) * height <= usize::MAX && len >= line_bytes(width, f) * height)
            ==> {
            &&& width > 0
            &&& width * height * 4 <= usize::MAX
        }
    }
}

pub open spec fn layout_error(bits: u8) -> Seq<char> {
    "unsupported X11 pixel layout: "@ + decimal_chars(bits as nat) + " bits per pixel"@
}

/// What decoding a `width` by `height` X11 image gives.
pub open spec fn decode_spec(data: Seq<u8>, width: int, height: int, f: PixelFormat) -> Result<
    Seq<u8>,
    Seq<char>,
> {
    if !layout_ok(f) {
        Err(layout_error(f.bits_per_pixel))
    } else if line_bits(width, f) > usize::MAX {
        Err("capture dimensions overflow"@)
    } else if line_bytes(width, f) * height > usize::MAX {
        Err("capture dimensions overflow"@)
    } else if data.len() < line_bytes(width, f) * height {
        Err("X11 returned a truncated image"@)
    } else if f.image_order == ImageOrder::Other && height > 0 && pixels_per_line(width, f) > 0 {
        Err("unsupported X11 image byte order"@)
    } else {
        Ok(image_rgba(data, line_bytes(width, f), height, pixels_per_line(width, f), f))
    }
}

proof fn lemma_pow256_small()
    ensures
        pow256(0) == 1,
        pow256(1) == 256,
        pow256(2) == 65536,
        pow256(3) == 16777216,
        pow256(4) == 4294967296,
{
    reveal_with_fuel(pow256, 5);
}

proof fn lemma_pow256_le(c: nat)
    requires
        c <= 3,
    ensures
        pow256(c) <= 16777216,
        pow256(c + 1) == 256 * pow256(c),
{
    lemma_pow256_small();
    if c == 0 {
    } else if c == 1 {
    } else if c == 2 {
    } else {
    }
}

/// The value of the `b` bytes at `start`, in the given byte order.
fn pixel_value_exec(data: &[u8], start: usize, b: usize, order: ImageOrder) -> (v: u32)
    requires
        1 <= b <= 4,
        start + b <= data@.len(),
        order != ImageOrder::Other,
    ensures
        v == pixel_value(data@.subrange(start as int, start + b), order) as u32,
{
    proof {
        lemma_pow256_small();
    }
    let len = data.len();
    let mut v: u64 = 0;
    match order {
        ImageOrder::LsbFirst => {
            let mut k = b;
            assert(data@.subrange(start + b, start + b) =~= Seq::<u8>::empty());
            while k > 0
                invariant
                    k <= b <= 4,
                    start + b <= data@.len(),
                    len == data@.len(),
                    v == le_value(data@.subrange(start + k, start + b)),
                    v < pow256((b - k) as nat),
                    pow256(4) == 4294967296,
                decreases k,
            {
                k = k - 1;
                let ghost tail = data@.subrange(start + k, start + b);
                assert(tail.drop_first() =~= data@.subrange(start + k + 1, start + b));
                proof {
                    lemma_pow256_le((b - k - 1) as nat);
                }
                v = v * 256 + data[start + k] as u64;
            }
        },
        _ => {
            let mut k: usize = 0;
            assert(data@.subrange(start as int, start as int) =~= Seq::<u8>::empty());
            while k < b
                invariant
                    k <= b <= 4,
                    start + b <= data@.len(),
                    len == data@.len(),
                    v == be_value(data@.subrange(start as int, start + k)),
                    v < pow256(k as nat),
                    pow256(4) == 4294967296,
                decreases b - k,
            {
                let ghost head = data@.subrange(start as int, start + k + 1);
                assert(head.drop_last() =~= data@.subrange(start as int, start + k));
                proof {
                    lemma_pow256_le(k as nat);
                }
                v = v * 256 + data[start + k] as u64;
                k = k + 1;
            }
        },
    }
    assert(pow256((b - 0) as nat) <= 4294967296) by {
        lemma_pow256_small();
    }
    v as u32
}

/// Decodes an X11 ZPixmap image into RGBA, row by row: each scanline is
/// padded to the scanline unit, each pixel's bytes are read in the image's
/// byte order and every channel is scaled to 8 bits by its mask.
pub fn decode_rgba(data: &[u8], width: usize, height: usize, format: PixelFormat) -> (res: Result<
    Vec<u8>,
    String,
>)
    requires
        decode_accepts(data@.len() as int, width as int, height as int, format),
    ensures
        match res {
            Ok(v) => decode_spec(data@, width as int, height as int, format) == Ok::<
                Seq<u8>,
                Seq<char>,
            >(v@),
            Err(e) => decode_spec(data@, width as int, height as int, format) == Err::<
                Seq<u8>,
                Seq<char>,
            >(e@),
        },
{
    let bpp = format.bits_per_pixel as usize;
    let bpb = (bpp + 7) / 8;
    if !(1 <= bpb && bpb <= 4) || format.scanline_pad == 0 {
        let head = concat("unsupported X11 pixel layout: ", decimal(bpp as u64).as_str());
        let msg = concat(head.as_str(), " bits per pixel");
        return Err(msg);
    }
    let bits = match width.checked_mul(bpp) {
        None => {
            return Err(String::from_str("capture dimensions overflow"));
        },
        Some(b) => b,
    };
    let pad = format.scanline_pad as usize;
    assert(bits % pad != 0 ==> bits / pad < usize::MAX) by (nonlinear_arith)
        requires
            pad >= 1,
            bits <= usize::MAX,
    ;
    let units = bits / pad + if bits % pad == 0 {
        0
    } else {
        1
    };
    assert(units == div_ceil(bits as int, pad as int));
    let padded = units * pad;
    let bpl = padded / 8 + if padded % 8 == 0 {
        0
    } else {
        1
    };
    assert(bpl == line_bytes(width as int, format));
    let required = match bpl.checked_mul(height) {
        None => {
            return Err(String::from_str("capture dimensions overflow"));
        },
        Some(r) => r,
    };
    if data.len() < required {
        return Err(String::from_str("X11 returned a truncated image"));
    }
    let fit = bpl / bpb;
    let n = if width < fit {
        width
    } else {
        fit
    };
    let is_other = match format.image_order {
        ImageOrder::Other => true,
        _ => false,
    };
    if is_other && height > 0 && n > 0 {
        return Err(String::from_str("unsupported X11 image byte order"));
    }
    assert(n * bpb <= bpl) by (nonlinear_arith)
        requires
            n <= bpl / bpb,
            bpb >= 1,
    ;
    let ghost f = format;
    let mut out: Vec<u8> = Vec::new();
    let mut r: usize = 0;
    while r < height
        invariant
            r <= height,
            bpl * height == required,
            required <= data@.len(),
            n * bpb <= bpl,
            1 <= bpb <= 4,
            bpb == bytes_per_pixel(f),
            f == format,
            height > 0 && n > 0 ==> f.image_order != ImageOrder::Other,
            out@ == image_rgba(data@, bpl as int, r as int, n as int, f),
        decreases height - r,
    {
        assert(r * bpl + bpl <= required) by (nonlinear_arith)
            requires
                r < height,
                bpl * height == required,
        ;
        let row_start = r * bpl;
        let mut p: usize = 0;
        let mut off = row_start;
        while p < n
            invariant
                p <= n,
                r < height,
                row_start == r * bpl,
                row_start + bpl <= required,
                required <= data@.len(),
                n * bpb <= bpl,
                off == row_start + p * bpb,
                1 <= bpb <= 4,
                bpb == bytes_per_pixel(f),
                f == format,
                height > 0 && n > 0 ==> f.image_order != ImageOrder::Other,
                out@ == image_rgba(data@, bpl as int, r as int, n as int, f) + line_rgba(
                    data@,
                    row_start as int,
                    p as int,
                    f,
                ),
            decreases n - p,
        {
            assert(p * bpb + bpb <= n * bpb) by (nonlinear_arith)
                requires
                    p < n,
                    bpb >= 1,
            ;
            assert((p + 1) * bpb == p * bpb + bpb) by (nonlinear_arith);
            let v = pixel_value_exec(data, off, bpb, format.image_order);
            let cr = scale_channel(v, format.red_mask);
            let cg = scale_channel(v, format.green_mask);
            let cb = scale_channel(v, format.blue_mask);
            let ghost before = out@;
            out.push(cr);
            out.push(cg);
            out.push(cb);
            out.push(255);
            proof {
                let px = data@.subrange(off as int, off + bpb);
                assert(pixel_rgba(px, f) =~= seq![cr, cg, cb, 255u8]);
                assert(out@ =~= before + pixel_rgba(px, f));
            }
            off = off + bpb;
            p = p + 1;
        }
        r = r + 1;
    }
    Ok(out)
}

/// Whether `decode_rgba` accepts these arguments (see `decode_accepts`).
pub fn decode_accepted(len: usize, width: usize, height: usize, format: PixelFormat) -> (b: bool)
    ensures
        b == decode_accepts(len as int, width as int, height as int, format),
{
    let bpp = format.bits_per_pixel as usize;
    let bpb = (bpp + 7) / 8;
    if !(1 <= bpb && bpb <= 4) || format.scanline_pad == 0 {
        return true;
    }
    let bits = match width.checked_mul(bpp) {
        None => {
            return true;
        },
        Some(b) => b,
    };
    let pad = format.scanline_pad as usize;
    assert(bits % pad != 0 ==> bits / pad < usize::MAX) by (nonlinear_arith)
        requires
            pad >= 1,
            bits <= usize::MAX,
    ;
    let units = bits / pad + if bits % pad == 0 {
        0
    } else {
        1
    };
    assert(units == div_ceil(bits as int, pad as int));
    let padded = match units.checked_mul(pad) {
        None => {
            return false;
        },
        Some(p) => p,
    };
    let bpl = padded / 8 + if padded % 8 == 0 {
        0
    } else {
        1
    };
    assert(bpl == line_bytes(width as int, format));
    let required = match bpl.checked_mul(height) {
        None => {
            return true;
        },
        Some(r) => r,
    };
    if len < required {
        return true;
    }
    if width == 0 {
        return false;
    }
    let px = match width.checked_mul(height) {
        None => {
            return false;
        },
        Some(p) => p,
    };
    if px.checked_mul(4).is_none() {
        return false;
    }
    assert(width * height * 4 == px * 4) by (nonlinear_arith)
        requires
            px == width * height,
    ;
    true
}

/// The message when the server lists no pixmap format for `depth`.
pub open spec fn no_pixmap_message(depth: u8) -> Seq<char> {
    "X11 has no pixmap format for depth "@ + decimal_chars(depth as nat)
}

/// The bits per pixel and scanline pad of the first pixmap format listed
/// for `depth` (formats as `(depth, bits_per_pixel, scanline_pad)`).
pub fn pixmap_for_depth(formats: &[(u8, u8, u8)], depth: u8) -> (res: Result<(u8, u8), PlatformError>)
    ensures
        match res {
            Ok((bits, pad)) => exists|i: int|
                0 <= i < formats@.len() && #[trigger] formats@[i] == (depth, bits, pad) && forall|
                    j: int,
                | 0 <= j < i ==> (#[trigger] formats@[j]).0 != depth,
            Err(e) => (forall|j: int| 0 <= j < formats@.len() ==> (#[trigger] formats@[j]).0 != depth)
                && (e matches PlatformError::Capture(m) && m@ == no_pixmap_message(depth)),
        },
{
    let mut i: usize = 0;
    while i < formats.len()
        invariant
            i <= formats@.len(),
            forall|j: int| 0 <= j < i ==> (#[trigger] formats@[j]).0 != depth,
        decreases formats@.len() - i,
    {
        let (d, bits, pad) = formats[i];
        if d == depth {
            assert(formats@[i as int] == (depth, bits, pad));
            return Ok((bits, pad));
        }
        i = i + 1;
    }
    let m = concat("X11 has no pixmap format for depth ", decimal(depth as u64).as_str());
    proof {
        reveal_strlit("X11 has no pixmap format for depth ");
    }
    Err(PlatformError::Capture(m))
}

/// The red, green and blue masks of the first visual whose id is `id`
/// (visuals as `(id, red_mask, green_mask, blue_mask)`).
pub fn visual_masks(visuals: &[(u32, u32, u32, u32)], id: u32) -> (res: Result<
    (u32, u32, u32),
    PlatformError,
>)
    ensures
        match res {
            Ok((r, g, b)) => exists|i: int|
                0 <= i < visuals@.len() && #[trigger] visuals@[i] == (id, r, g, b) && forall|j: int|
                    0 <= j < i ==> (#[trigger] visuals@[j]).0 != id,
            Err(e) => (forall|j: int| 0 <= j < visuals@.len() ==> (#[trigger] visuals@[j]).0 != id)
                && (e matches PlatformError::Capture(m) && m@ == "X11 visual format is unsupported"@),
        },
{
    let mut i: usize = 0;
    while i < visuals.len()
        invariant
            i <= visuals@.len(),
            forall|j: int| 0 <= j < i ==> (#[trigger] visuals@[j]).0 != id,
        decreases visuals@.len() - i,
    {
        let (v, r, g, b) = visuals[i];
        if v == id {
            assert(visuals@[i as int] == (id, r, g, b));
            return Ok((r, g, b));
        }
        i = i + 1;
    }
    Err(PlatformError::Capture(String::from_str("X11 visual format is unsupported")))
}

/// An 8-bit channel at any bit offset is read back exactly: the mask
/// `0xff << s` selects byte `s / 8` of the pixel unchanged.
pub proof fn lemma_byte_channel_exact(pixel: u32, s: u32)
    requires
        s <= 24,
    ensures
        scale_spec(pixel, 0xffu32 << s) == ((pixel >> s) & 0xff) as u8,
{
    let m = 0xffu32 << s;
    assert(m != 0) by (bit_vector)
        requires
            s <= 24,
            m == 0xffu32 << s,
    ;
    vstd::std_specs::bits::axiom_u32_trailing_zeros(m);
    let t = u32_trailing_zeros(m);
    if t < s {
        assert((m >> t) & 1u32 == 0) by (bit_vector)
            requires
                t < s,
                s <= 24,
                m == 0xffu32 << s,
        ;
    } else if t > s {
        assert((m >> s) & 1u32 == 1) by (bit_vector)
            requires
                s <= 24,
                m == 0xffu32 << s,
        ;
    }
    assert(t == s);
    assert(m >> s == 0xff && (pixel & m) >> s == (pixel >> s) & 0xff) by (bit_vector)
        requires
            s <= 24,
            m == 0xffu32 << s,
    ;
    let x = (pixel >> s) & 0xff;
    assert(x <= 0xff) by (bit_vector)
        requires
            x == (pixel >> s) & 0xff,
    ;
    assert((x as int) * 255 / 255 == x as int) by (nonlinear_arith);
    assert((pixel & m) >> t == x);
    assert(m >> t == 0xff);
}

/// The first checks made before capturing `rect`: it is not empty, the X
/// display is connected, and it lies where X11 requests can address it.
pub open spec fn precheck_message(rect: PxRect, connected: bool) -> Option<Seq<char>> {
    if rect.w <= 0 || rect.h <= 0 {
        Some("empty rect"@)
    } else if !connected {
        Some("could not connect to the X11 display"@)
    } else if rect.x < 0 || rect.y < 0 || rect.x > 32767 || rect.y > 32767 || rect.w > 65535
        || rect.h > 65535 {
        Some("region is outside the X11 root window"@)
    } else {
        None
    }
}

/// Checks `rect` before any X11 request is made for it.
pub fn precheck_capture(rect: PxRect, connected: bool) -> (res: Result<(), PlatformError>)
    ensures
        match precheck_message(rect, connected) {
            None => res is Ok,
            Some(m) => res matches Err(PlatformError::Capture(e)) && e@ == m,
        },
{
    if rect.is_empty() {
        return Err(PlatformError::Capture(String::from_str("empty rect")));
    }
    if !connected {
        return Err(PlatformError::Capture(String::from_str("could not connect to the X11 display")));
    }
    if rect.x < 0 || rect.y < 0 || rect.x > 32767 || rect.y > 32767 || rect.w > 65535 || rect.h
        > 65535 {
        return Err(PlatformError::Capture(String::from_str("region is outside the X11 root window")));
    }
    Ok(())
}

/// Checks that `rect` lies inside a root window of the given size.
pub fn check_within_root(rect: PxRect, root_w: u16, root_h: u16) -> (res: Result<(), PlatformError>)
    ensures
        if rect.x + rect.w > root_w || rect.y + rect.h > root_h {
            res matches Err(PlatformError::Capture(e)) && e@ == "region is outside the X11 root window"@
        } else {
            res is Ok
        },
{
    if rect.right() > root_w as i64 || rect.bottom() > root_h as i64 {
        return Err(PlatformError::Capture(String::from_str("region is outside the X11 root window")));
    }
    Ok(())
}

proof fn lemma_line_shape(data: Seq<u8>, start: int, n: int, f: PixelFormat)
    requires
        n >= 0,
    ensures
        line_rgba(data, start, n, f).len() == 4 * n,
        forall|i: int|
            0 <= i < 4 * n && i % 4 == 3 ==> #[trigger] line_rgba(data, start, n, f)[i] == 255,
    decreases n,
{
    if n > 0 {
        lemma_line_shape(data, start, n - 1, f);
        let b = bytes_per_pixel(f);
        let prev = line_rgba(data, start, n - 1, f);
        let px = pixel_rgba(data.subrange(start + (n - 1) * b, start + n * b), f);
        assert(line_rgba(data, start, n, f) == prev + px);
        assert forall|i: int| 0 <= i < 4 * n && i % 4 == 3 implies #[trigger] line_rgba(
            data,
            start,
            n,
            f,
        )[i] == 255 by {
            if i >= 4 * (n - 1) {
                assert(i - 4 * (n - 1) == 3);
            }
        }
    }
}

proof fn lemma_image_shape(data: Seq<u8>, stride: int, rows: int, n: int, f: PixelFormat)
    requires
        rows >= 0,
        n >= 0,
    ensures
        image_rgba(data, stride, rows, n, f).len() == rows * n * 4,
        forall|i: int|
            0 <= i < rows * n * 4 && i % 4 == 3 ==> #[trigger] image_rgba(data, stride, rows, n, f)[i]
                == 255,
    decreases rows,
{
    if rows > 0 {
        lemma_image_shape(data, stride, rows - 1, n, f);
        lemma_line_shape(data, (rows - 1) * stride, n, f);
        let prev = image_rgba(data, stride, rows - 1, n, f);
        let line = line_rgba(data, (rows - 1) * stride, n, f);
        assert((rows - 1) * n * 4 + 4 * n == rows * n * 4) by (nonlinear_arith);
        assert(((rows - 1) * n * 4) % 4 == 0) by (nonlinear_arith)
            requires
                rows >= 1,
                n >= 0,
        ;
        assert forall|i: int| 0 <= i < rows * n * 4 && i % 4 == 3 implies #[trigger] image_rgba(
            data,
            stride,
            rows,
            n,
            f,
        )[i] == 255 by {
            if i >= (rows - 1) * n * 4 {
                let j = i - (rows - 1) * n * 4;
                assert(j % 4 == 3);
                assert(line[j] == 255);
            }
        }
    }
}

/// For pixels of whole bytes, a decoded image is a well-formed `width` by
/// `height` RGBA frame, every pixel opaque.
pub proof fn lemma_decoded_frame_shape(data: Seq<u8>, width: int, height: int, f: PixelFormat)
    requires
        width >= 0,
        height >= 0,
        f.bits_per_pixel % 8 == 0,
        decode_spec(data, width, height, f) is Ok,
    ensures
        decode_spec(data, width, height, f) matches Ok(v) && v.len() == width * height * 4 && (
        forall|i: int| 0 <= i < v.len() && i % 4 == 3 ==> #[trigger] v[i] == 255),
{
    let b = bytes_per_pixel(f);
    assert(b * 8 == f.bits_per_pixel);
    let bits = line_bits(width, f);
    let pad = f.scanline_pad as int;
    assert(bits == width * b * 8) by (nonlinear_arith)
        requires
            bits == width * f.bits_per_pixel,
            b * 8 == f.bits_per_pixel,
    ;
    assert(div_ceil(bits, pad) * pad >= bits) by (nonlinear_arith)
        requires
            pad >= 1,
            bits >= 0,
    ;
    assert(line_bytes(width, f) >= width * b);
    assert(line_bytes(width, f) / b >= width) by (nonlinear_arith)
        requires
            line_bytes(width, f) >= width * b,
            b >= 1,
    ;
    assert(pixels_per_line(width, f) == width);
    lemma_image_shape(data, line_bytes(width, f), height, width, f);
    assert(height * width * 4 == width * height * 4) by (nonlinear_arith);
}

} // verus!
