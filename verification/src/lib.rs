//! Screen-reading and decision logic of the GPO fishing macro: pixel
//! classification and bar/fish/marker detection, X11 pixel decoding and key
//! mapping, game-window recognition, watchdog verdicts and the text of
//! notifications.
pub mod types;
pub mod runs;
pub mod pixels;
pub mod vision;
pub mod text;
pub mod platform;
pub mod capture;
pub mod input;
pub mod window;
pub mod watchdog;
pub mod webhook;
pub mod ocr;
pub mod win32;
pub mod controller;
pub mod trace;
pub mod tray;
