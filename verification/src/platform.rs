use vstd::prelude::*;

use crate::types::{Frame, Key, MouseButton, PxPoint, PxRect, WindowInfo};

verus! {

/// Why a platform operation failed.
#[derive(Clone, Debug, PartialEq, Eq)]
pub enum PlatformError {
    WindowNotFound,
    Capture(String),
    OcrUnavailable,
    Ocr(String),
    Input(String),
}

/// Finds and focuses the game window.
pub trait GameWindow {
    fn find(&self) -> Option<WindowInfo>;

    fn focus(&self) -> bool;
}

/// Grabs a region of the desktop.
pub trait Capture {
    fn grab(&self, rect: PxRect) -> Result<Frame, PlatformError>;
}

/// Sends synthetic mouse and keyboard input.
pub trait Input {
    fn move_to(&self, p: PxPoint);

    fn button(&self, b: MouseButton, down: bool);

    fn key(&self, k: Key, down: bool);

    fn wheel(&self, delta: i32);

    fn type_text(&self, s: &str);

    fn cursor(&self) -> PxPoint;

    fn screen(&self) -> PxRect;
}

/// Reads text out of a frame.
pub trait Ocr {
    fn available(&self) -> bool;

    fn read(&self, frame: &Frame) -> Result<String, PlatformError>;
}

/// The OCR backend used where none is installed.
#[derive(Clone, Copy, Debug)]
pub struct NoOcr;

impl Ocr for NoOcr {
    fn available(&self) -> (b: bool)
        ensures
            !b,
    {
        false
    }

    fn read(&self, frame: &Frame) -> (r: Result<String, PlatformError>)
        ensures
            r == Err::<String, PlatformError>(PlatformError::OcrUnavailable),
    {
        Err(PlatformError::OcrUnavailable)
    }
}

/// One input action, as a recording backend keeps it.
#[derive(Clone, Debug, PartialEq, Eq)]
pub enum InputEvent {
    Move(PxPoint),
    Button(MouseButton, bool),
    Key(Key, bool),
    Wheel(i32),
    Text(String),
}

} // verus!
