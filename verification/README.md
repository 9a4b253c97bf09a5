# gpo_autofish

The screen-reading and decision logic of a Grand Piece Online fishing macro,
written in Verus and verified.

- `src/` — the verified library: colour counting and run finding
  (`pixels`, `runs`), fishing-bar, fish and marker detection (`vision`),
  X11 image decoding and pixel-format lookup (`capture`), key and button
  events (`input`), game-window recognition (`window`), Win32 pixel copies
  (`win32`), Tesseract output handling and PNG encoding for OCR (`ocr`),
  watchdog verdicts (`watchdog`), notification text and UTC timestamps
  (`webhook`), trace file naming and limits (`trace`), tray and hotkey
  text (`tray`).
- `app/` — the desktop side: X11 connections, capture and XTEST input, the
  Tesseract process, the floating-point reel controller, trace files, the
  watchdog thread and the Discord webhook queue. It calls the library for
  every decision.
- `tests/` — tests of the library on concrete inputs.

Detection works on exact integers: the thresholds that settings store as
fractions are given to the library in thousandths, and a reading's positions
are fractions over the bar's doubled height.
