use vstd::prelude::*;

use crate::platform::PlatformError;
use crate::text::{chars_of, concat, is_white, is_white_space};
use crate::types::Frame;

verus! {

#[verifier::external_type_specification]
#[verifier::external_body]
pub struct ExImageError(image::ImageError);

/// The PNG file that `image`'s PNG encoder (default settings) writes for an
/// 8-bit RGBA image of `w` by `h` pixels.
pub uninterp spec fn png_rgba8(rgba: Seq<u8>, w: nat, h: nat) -> Seq<u8>;

/// Encodes `rgba` as a PNG with `image::codecs::png::PngEncoder` and
/// `ImageEncoder::write_image`. The encoder asserts that the buffer holds
/// exactly `w * h * 4` bytes, so that is required; an encoded file is the
/// named result of the encoder on these arguments. Writing into a `Vec`
/// cannot fail, and the `png` crate's writer refuses only a zero width or
/// height (`Writer::init`), so any other image is encoded.
#[verifier::external_body]
fn encode_png(rgba: &[u8], w: u32, h: u32) -> (r: Result<Vec<u8>, image::ImageError>)
    requires
        rgba@.len() == w * h * 4,
    ensures
        r matches Ok(v) ==> v@ == png_rgba8(rgba@, w as nat, h as nat),
        w > 0 && h > 0 ==> r is Ok,
{
    let mut png = Vec::new();
    let encoder = image::codecs::png::PngEncoder::new(&mut png);
    image::ImageEncoder::write_image(encoder, rgba, w, h, image::ExtendedColorType::Rgba8)?;
    Ok(png)
}

/// The message of an `image::ImageError` (its `Display`); nothing is stated
/// of its text.
#[verifier::external_body]
fn image_error_text(e: &image::ImageError) -> String {
    e.to_string()
}

pub open spec fn sat_mul(a: int, b: int) -> int {
    if a * b > usize::MAX {
        usize::MAX as int
    } else {
        a * b
    }
}

/// Frames large enough to read and whose buffer looks right are handed to
/// the encoder, which needs the buffer to match the size exactly.
pub open spec fn ocr_accepts(f: &Frame, available: bool) -> bool {
    available && f.w >= 8 && f.h >= 8 && f.rgba@.len() == sat_mul(sat_mul(f.w as int, f.h as int), 4)
        ==> f.w <= u32::MAX && f.h <= u32::MAX && f.rgba@.len() == f.w * f.h * 4
}

/// Prepares a frame for the OCR engine: refuses when no engine is
/// available, reads nothing from frames under 8 by 8 pixels (`Ok(None)`),
/// refuses a buffer of the wrong size, and otherwise encodes the frame as
/// PNG (an encoder error, which the encoder never gives on such a frame,
/// would read "PNG encoding failed: " and its message).
pub fn ocr_png(f: &Frame, available: bool) -> (r: Result<Option<Vec<u8>>, PlatformError>)
    requires
        ocr_accepts(f, available),
    ensures
        !available ==> r == Err::<Option<Vec<u8>>, PlatformError>(PlatformError::OcrUnavailable),
        available && (f.w < 8 || f.h < 8) ==> r == Ok::<Option<Vec<u8>>, PlatformError>(None),
        available && f.w >= 8 && f.h >= 8 && f.rgba@.len() != sat_mul(
            sat_mul(f.w as int, f.h as int),
            4,
        ) ==> (r matches Err(PlatformError::Ocr(m)) && m@ == "invalid RGBA frame"@),
        available && f.w >= 8 && f.h >= 8 && f.rgba@.len() == sat_mul(
            sat_mul(f.w as int, f.h as int),
            4,
        ) ==> (r matches Ok(Some(png)) && png@ == png_rgba8(f.rgba@, f.w as nat, f.h as nat)),
{
    if !available {
        return Err(PlatformError::OcrUnavailable);
    }
    if f.w < 8 || f.h < 8 {
        return Ok(None);
    }
    let wh = match f.w.checked_mul(f.h) {
        Some(v) => v,
        None => usize::MAX,
    };
    let want = match wh.checked_mul(4) {
        Some(v) => v,
        None => usize::MAX,
    };
    if f.rgba.len() != want {
        return Err(PlatformError::Ocr(String::from_str("invalid RGBA frame")));
    }
    match encode_png(f.rgba.as_slice(), f.w as u32, f.h as u32) {
        Ok(png) => Ok(Some(png)),
        Err(e) => {
            let m = concat("PNG encoding failed: ", image_error_text(&e).as_str());
            proof {
                reveal_strlit("PNG encoding failed: ");
                assert(m@.subrange(0, 21) =~= "PNG encoding failed: "@);
            }
            Err(PlatformError::Ocr(m))
        },
    }
}


/// Start of the line of `s` that holds position `a`.
pub open spec fn line_start(s: Seq<char>, a: int) -> int
    decreases a,
{
    if a <= 0 {
        0
    } else if s[a - 1] == '\n' {
        a
    } else {
        line_start(s, a - 1)
    }
}

/// End (the newline or the end of `s`) of the line of `s` that holds
/// position `b`.
pub open spec fn line_end(s: Seq<char>, b: int) -> int
    decreases s.len() - b,
{
    if b >= s.len() {
        s.len() as int
    } else if s[b] == '\n' {
        b
    } else {
        line_end(s, b + 1)
    }
}

pub open spec fn all_white(s: Seq<char>, i: int, j: int) -> bool {
    forall|k: int| i <= k < j ==> is_white_space(#[trigger] s[k])
}

/// Some line of `s`, once trimmed, is `word`.
pub open spec fn has_line(s: Seq<char>, word: Seq<char>) -> bool {
    exists|a: int|
        0 <= a && a + word.len() <= s.len() && #[trigger] s.subrange(a, a + word.len()) == word
            && all_white(s, line_start(s, a), a) && all_white(
            s,
            a + word.len(),
            line_end(s, a + word.len()),
        )
}

proof fn lemma_line_start_le(s: Seq<char>, a: int)
    ensures
        line_start(s, a) <= a || a < 0,
        0 <= line_start(s, a),
    decreases a,
{
    if a > 0 && s[a - 1] != '\n' {
        lemma_line_start_le(s, a - 1);
    }
}

proof fn lemma_line_end_ge(s: Seq<char>, b: int)
    ensures
        b <= line_end(s, b) || b > s.len(),
        line_end(s, b) <= s.len(),
    decreases s.len() - b,
{
    if b < s.len() && s[b] != '\n' {
        lemma_line_end_ge(s, b + 1);
    }
}

/// Whether everything from the start of the line up to `a` is white space.
fn blank_before(cs: &Vec<char>, a: usize) -> (b: bool)
    requires
        a <= cs@.len(),
    ensures
        b == all_white(cs@, line_start(cs@, a as int), a as int),
{
    let ghost s = cs@;
    let mut k: usize = a;
    while k > 0 && cs[k - 1] != '\n'
        invariant
            s == cs@,
            k <= a <= s.len(),
            line_start(s, k as int) == line_start(s, a as int),
            all_white(s, k as int, a as int),
        decreases k,
    {
        if !is_white(cs[k - 1]) {
            proof {
                lemma_line_start_le(s, k - 1);
            }
            return false;
        }
        k = k - 1;
    }
    true
}

/// Whether everything from `j` to the end of its line is white space.
fn blank_after(cs: &Vec<char>, j: usize) -> (b: bool)
    requires
        j <= cs@.len(),
    ensures
        b == all_white(cs@, j as int, line_end(cs@, j as int)),
{
    let ghost s = cs@;
    let n = cs.len();
    let mut k: usize = j;
    while k < n && cs[k] != '\n'
        invariant
            s == cs@,
            n == s.len(),
            j <= k <= n,
            line_end(s, k as int) == line_end(s, j as int),
            all_white(s, j as int, k as int),
        decreases n - k,
    {
        if !is_white(cs[k]) {
            proof {
                lemma_line_end_ge(s, k + 1);
            }
            return false;
        }
        k = k + 1;
    }
    true
}

/// Whether Tesseract's language listing (`--list-langs`) names English:
/// some line of it, trimmed, is `eng`.
pub fn lists_english(listing: &str) -> (b: bool)
    ensures
        b == has_line(listing@, seq!['e', 'n', 'g']),
{
    let cs = chars_of(listing);
    let n = cs.len();
    let ghost s = listing@;
    let ghost w = seq!['e', 'n', 'g'];
    if n < 3 {
        return false;
    }
    let mut a: usize = 0;
    while a <= n - 3
        invariant
            cs@ == s,
            s == listing@,
            w == seq!['e', 'n', 'g'],
            n == s.len(),
            n >= 3,
            a <= n - 2,
            forall|q: int|
                0 <= q < a && q + 3 <= n && #[trigger] s.subrange(q, q + 3) == w ==> !(all_white(
                    s,
                    line_start(s, q),
                    q,
                ) && all_white(s, q + 3, line_end(s, q + 3))),
        decreases n - a,
    {
        let hit = cs[a] == 'e' && cs[a + 1] == 'n' && cs[a + 2] == 'g';
        proof {
            if hit {
                assert(s.subrange(a as int, a + 3) =~= w);
            } else {
                assert(s.subrange(a as int, a + 3)[0] == s[a as int]);
                assert(s.subrange(a as int, a + 3)[1] == s[a + 1]);
                assert(s.subrange(a as int, a + 3)[2] == s[a + 2]);
                assert(s.subrange(a as int, a + 3) != w);
            }
        }
        if hit && blank_before(&cs, a) && blank_after(&cs, a + 3) {
            return true;
        }
        a = a + 1;
    }
    false
}

} // verus!
