use vstd::prelude::*;

verus! {

/// An RGB colour.
#[derive(Clone, Copy, Debug, PartialEq, Eq, Structural)]
pub struct Rgb {
    pub r: u8,
    pub g: u8,
    pub b: u8,
}

/// Distance between two channel values.
pub open spec fn channel_diff(a: u8, b: u8) -> int {
    if a >= b { a - b } else { b - a }
}

impl Rgb {
    pub fn new(r: u8, g: u8, b: u8) -> (c: Rgb)
        ensures
            c == (Rgb { r, g, b }),
    {
        Rgb { r, g, b }
    }

    /// A pixel matches this colour when each channel is within `tol` of it.
    pub open spec fn matches(self, r: u8, g: u8, b: u8, tol: u8) -> bool {
        &&& channel_diff(self.r, r) <= tol
        &&& channel_diff(self.g, g) <= tol
        &&& channel_diff(self.b, b) <= tol
    }

    pub fn within(&self, r: u8, g: u8, b: u8, tol: u8) -> (res: bool)
        ensures
            res == self.matches(r, g, b, tol),
    {
        let dr = if self.r >= r { self.r - r } else { r - self.r };
        let dg = if self.g >= g { self.g - g } else { g - self.g };
        let db = if self.b >= b { self.b - b } else { b - self.b };
        dr <= tol && dg <= tol && db <= tol
    }
}

/// A captured image: `w` by `h` pixels, four bytes (R, G, B, A) per pixel,
/// rows top to bottom.
#[derive(Clone, Debug)]
pub struct Frame {
    pub w: usize,
    pub h: usize,
    pub rgba: Vec<u8>,
}

impl Frame {
    pub fn new(w: usize, h: usize, rgba: Vec<u8>) -> (f: Frame)
        ensures
            f.w == w,
            f.h == h,
            f.rgba@ == rgba@,
    {
        Frame { w, h, rgba }
    }

    /// The buffer holds exactly `w * h` pixels.
    pub open spec fn wf(&self) -> bool {
        self.rgba@.len() == self.w * self.h * 4
    }

    /// The pixel count also fits the 32-bit counters used by detection.
    pub open spec fn counts_fit(&self) -> bool {
        self.wf() && self.w * self.h <= u32::MAX
    }
}

/// Whether pixel `(x, y)` of the buffer `data` (row length `w`) matches `c`.
pub open spec fn px_matches(data: Seq<u8>, w: int, x: int, y: int, c: Rgb, tol: u8) -> bool {
    let i = (y * w + x) * 4;
    c.matches(data[i], data[i + 1], data[i + 2], tol)
}

/// A point in desktop pixels.
#[derive(Clone, Copy, Debug, PartialEq, Eq, Structural)]
pub struct PxPoint {
    pub x: i32,
    pub y: i32,
}

/// A rectangle in desktop pixels.
#[derive(Clone, Copy, Debug, PartialEq, Eq, Structural)]
pub struct PxRect {
    pub x: i32,
    pub y: i32,
    pub w: i32,
    pub h: i32,
}

impl PxRect {
    pub fn is_empty(&self) -> (res: bool)
        ensures
            res == (self.w <= 0 || self.h <= 0),
    {
        self.w <= 0 || self.h <= 0
    }

    pub fn right(&self) -> (res: i64)
        ensures
            res == self.x + self.w,
    {
        self.x as i64 + self.w as i64
    }

    pub fn bottom(&self) -> (res: i64)
        ensures
            res == self.y + self.h,
    {
        self.y as i64 + self.h as i64
    }
}

#[derive(Clone, Copy, Debug, PartialEq, Eq, Structural)]
pub enum MouseButton {
    Left,
    Right,
}

#[derive(Clone, Copy, Debug, PartialEq, Eq, Structural)]
pub enum Key {
    Backspace,
    Delete,
    Enter,
    Escape,
    Control,
    Char(char),
}

/// Where the game window is and how it is shown.
#[derive(Clone, Copy, Debug, PartialEq, Eq, Structural)]
pub struct WindowInfo {
    pub client: PxRect,
    pub is_foreground: bool,
    pub visible: bool,
    pub dpi: u32,
}

} // verus!
