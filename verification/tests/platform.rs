use gpo_autofish::capture::{
    check_within_root, decode_accepted, decode_rgba, pixmap_for_depth, precheck_capture,
    scale_channel, visual_masks, ImageOrder, PixelFormat,
};
use gpo_autofish::input::{
    button_event, clamp_i16, key_events, keycode_count, keycode_for, keysym, wheel_clicks,
    BUTTON_PRESS, BUTTON_RELEASE, KEY_PRESS, KEY_RELEASE, XK_RETURN, XK_SHIFT_L,
};
use gpo_autofish::ocr::{lists_english, ocr_png};
use gpo_autofish::text::trim;
use gpo_autofish::platform::{InputEvent, NoOcr, Ocr, PlatformError};
use gpo_autofish::types::{Frame, Key, MouseButton, PxPoint, PxRect};
use gpo_autofish::win32::{acquire_timeout_ms, first_output_containing, after_acquire, dxgi_needs_open, Acquired, bgra_to_rgba, copy_bgra_region, output_contains, session_covers, wide, Win32Window};
use gpo_autofish::window::{first_game_client, matches_game_client, win32_window_info, window_matches, x11_window_info};

fn bgrx() -> PixelFormat {
    PixelFormat {
        red_mask: 0x00ff_0000,
        green_mask: 0x0000_ff00,
        blue_mask: 0x0000_00ff,
        bits_per_pixel: 32,
        scanline_pad: 32,
        image_order: ImageOrder::LsbFirst,
    }
}

#[test]
fn decodes_little_endian_bgrx() {
    let format = bgrx();
    assert_eq!(decode_rgba(&[0x33, 0x22, 0x11, 0x00], 1, 1, format).unwrap(), [0x11, 0x22, 0x33, 255]);
}

#[test]
fn decodes_big_endian_rgb565_rows_with_padding() {
    let format = PixelFormat {
        red_mask: 0xf800,
        green_mask: 0x07e0,
        blue_mask: 0x001f,
        bits_per_pixel: 16,
        scanline_pad: 32,
        image_order: ImageOrder::MsbFirst,
    };
    // One pixel per row, two padding bytes after it.
    let data = [0xf8, 0x00, 0xaa, 0xaa, 0x00, 0x1f, 0xaa, 0xaa];
    assert_eq!(decode_rgba(&data, 1, 2, format).unwrap(), vec![255, 0, 0, 255, 0, 0, 255, 255]);
}

#[test]
fn decode_reports_each_error() {
    let mut f = bgrx();
    f.bits_per_pixel = 40;
    assert_eq!(decode_rgba(&[0; 8], 1, 1, f).unwrap_err(), "unsupported X11 pixel layout: 40 bits per pixel");
    let mut f = bgrx();
    f.scanline_pad = 0;
    assert_eq!(decode_rgba(&[0; 8], 1, 1, f).unwrap_err(), "unsupported X11 pixel layout: 32 bits per pixel");
    assert_eq!(decode_rgba(&[0; 7], 2, 1, bgrx()).unwrap_err(), "X11 returned a truncated image");
    assert_eq!(decode_rgba(&[0; 4], usize::MAX, 1, bgrx()).unwrap_err(), "capture dimensions overflow");
    let mut f = bgrx();
    f.image_order = ImageOrder::Other;
    assert_eq!(decode_rgba(&[0; 4], 1, 1, f).unwrap_err(), "unsupported X11 image byte order");
    assert_eq!(decode_rgba(&[], 1, 0, f).unwrap(), Vec::<u8>::new());
}

#[test]
fn scales_narrow_channels_to_eight_bits() {
    assert_eq!(scale_channel(0x1f, 0x1f), 255);
    assert_eq!(scale_channel(0x10, 0x1f), 131);
    assert_eq!(scale_channel(0xab00, 0xff00), 0xab);
    assert_eq!(scale_channel(0xffff, 0), 0);
}

#[test]
fn capture_region_checks() {
    let ok = PxRect { x: 0, y: 0, w: 10, h: 10 };
    assert_eq!(precheck_capture(ok, true), Ok(()));
    assert_eq!(
        precheck_capture(PxRect { x: 0, y: 0, w: 0, h: 10 }, true),
        Err(PlatformError::Capture("empty rect".to_string()))
    );
    assert_eq!(precheck_capture(ok, false), Err(PlatformError::Capture("could not connect to the X11 display".to_string())));
    assert_eq!(
        precheck_capture(PxRect { x: -1, y: 0, w: 10, h: 10 }, true),
        Err(PlatformError::Capture("region is outside the X11 root window".to_string()))
    );
    assert_eq!(check_within_root(ok, 10, 10), Ok(()));
    assert_eq!(
        check_within_root(ok, 9, 10),
        Err(PlatformError::Capture("region is outside the X11 root window".to_string()))
    );
}

#[test]
fn maps_special_and_unicode_keysyms() {
    assert_eq!(keysym(Key::Enter), XK_RETURN);
    assert_eq!(keysym(Key::Char('a')), u32::from(b'a'));
    assert_eq!(keysym(Key::Char('Ж')), 0x0100_0416);
}

#[test]
fn finds_keycodes_and_shift_levels() {
    // Two keysyms per keycode from keycode 8: 'a'/'A' on 8, '1'/'!' on 9.
    let map = [0x61, 0x41, 0x31, 0x21];
    assert_eq!(keycode_for(&map, 2, 8, 0x61), Some((8, false)));
    assert_eq!(keycode_for(&map, 2, 8, 0x21), Some((9, true)));
    assert_eq!(keycode_for(&map, 2, 8, XK_SHIFT_L), None);
    assert_eq!(keycode_for(&map, 0, 8, 0x61), None);
    assert_eq!(keycode_for(&map, 1, 254, 0x21), Some((255, false)));
    assert_eq!(keycode_count(8, 255), Some(248));
    assert_eq!(keycode_count(0, 255), Some(255));
    assert_eq!(keycode_count(9, 8), None);
}

#[test]
fn key_events_wrap_the_key_in_shift() {
    assert_eq!(key_events(38, Some(50), true), vec![(KEY_PRESS, 50), (KEY_PRESS, 38)]);
    assert_eq!(key_events(38, Some(50), false), vec![(KEY_RELEASE, 38), (KEY_RELEASE, 50)]);
    assert_eq!(key_events(38, None, true), vec![(KEY_PRESS, 38)]);
    assert_eq!(button_event(MouseButton::Right, true), (BUTTON_PRESS, 3));
    assert_eq!(button_event(MouseButton::Left, false), (BUTTON_RELEASE, 1));
}

#[test]
fn wheel_and_coordinate_limits() {
    assert_eq!(wheel_clicks(240), (4, 2));
    assert_eq!(wheel_clicks(-60), (5, 1));
    assert_eq!(wheel_clicks(0).1, 0);
    assert_eq!(wheel_clicks(i32::MIN), (5, 17895697));
    assert_eq!(clamp_i16(40000), 32767);
    assert_eq!(clamp_i16(-40000), -32768);
    assert_eq!(clamp_i16(-5), -5);
}

#[test]
fn recognizes_roblox_and_sober_game_clients() {
    assert!(matches_game_client("Roblox", "roblox\\0Roblox", "roblox"));
    assert!(matches_game_client("Sober", "sober\\0org.vinegarhq.sober", "roblox"));
}

#[test]
fn does_not_treat_a_browser_tab_as_the_game_client() {
    assert!(!matches_game_client("Grand Piece Online | Play on Roblox", "firefox\\0Firefox", "roblox"));
}

#[test]
fn sober_is_matched_as_a_whole_class_field() {
    assert!(matches_game_client("", "sober\0Sober", "roblox"));
    assert!(!matches_game_client("", "sobering\0tool", "roblox"));
    assert!(matches_game_client("roblox player", "", "roblox"));
    assert!(window_matches(Some("ROBLOX"), None, "roblox"));
    assert!(window_matches(None, Some("Roblox"), "roblox"));
    assert!(!window_matches(Some("Roblox"), Some("Firefox"), "roblox"));
}

#[test]
fn window_info_from_platform_reports() {
    let info = x11_window_info(true, -3, 4, 800, 600, true).unwrap();
    assert_eq!(info.client, PxRect { x: -3, y: 4, w: 800, h: 600 });
    assert_eq!(info.dpi, 96);
    assert!(x11_window_info(false, 0, 0, 800, 600, true).is_none());
    assert!(x11_window_info(true, 0, 0, 0, 600, true).is_none());
    let r = PxRect { x: 0, y: 0, w: 0, h: 0 };
    assert!(win32_window_info(true, false, r, true, false, 0).is_none());
    let w = win32_window_info(true, true, r, false, true, 0).unwrap();
    assert!(!w.visible && w.is_foreground && w.dpi == 96);
    assert!(win32_window_info(false, false, PxRect { x: 0, y: 0, w: 5, h: 5 }, true, true, 120).is_none());
}

#[test]
fn ocr_input_checks_and_encodes_png() {
    let small = Frame::new(4, 4, vec![0; 64]);
    assert_eq!(ocr_png(&small, true), Ok(None));
    assert_eq!(ocr_png(&small, false), Err(PlatformError::OcrUnavailable));
    let bad = Frame::new(8, 8, vec![0; 10]);
    assert_eq!(ocr_png(&bad, true), Err(PlatformError::Ocr("invalid RGBA frame".to_string())));
    let f = Frame::new(8, 8, vec![200; 256]);
    let png = ocr_png(&f, true).unwrap().unwrap();
    assert_eq!(&png[..8], &[137, 80, 78, 71, 13, 10, 26, 10]);
    assert!(png != f.rgba);
}

#[test]
fn no_ocr_is_unavailable() {
    let o = NoOcr;
    assert!(!o.available());
    assert_eq!(o.read(&Frame::new(8, 8, vec![0; 256])), Err(PlatformError::OcrUnavailable));
    let e = InputEvent::Move(PxPoint { x: 1, y: 2 });
    assert_eq!(e.clone(), InputEvent::Move(PxPoint { x: 1, y: 2 }));
}

#[test]
fn wide_strings_are_nul_terminated_utf16() {
    assert_eq!(wide("Ab"), vec![65, 98, 0]);
    assert_eq!(wide("𝄞"), vec![0xD834, 0xDD1E, 0]);
    let w = Win32Window::new("Roblox");
    assert_eq!(w.title, vec![82, 111, 98, 108, 111, 120, 0]);
    assert_eq!(w.class.len(), 14);
}

#[test]
fn bgra_surfaces_become_rgba() {
    let mut buf = vec![1, 2, 3, 4, 5, 6, 7, 8, 9];
    bgra_to_rgba(&mut buf);
    assert_eq!(buf, vec![3, 2, 1, 255, 7, 6, 5, 255, 9]);
    // 2x2 surface with a pitch of 12 bytes; copy its right column.
    let src = [
        0, 0, 0, 0, 10, 20, 30, 40, 0, 0, 0, 0, //
        0, 0, 0, 0, 11, 21, 31, 41, 0, 0, 0, 0,
    ];
    assert_eq!(copy_bgra_region(&src, 12, 1, 0, 1, 2), vec![30, 20, 10, 255, 31, 21, 11, 255]);
    let rect = PxRect { x: 10, y: 10, w: 100, h: 100 };
    assert!(session_covers(rect, (0, 0), (1920, 1080)));
    assert!(!session_covers(rect, (20, 0), (1920, 1080)));
    assert!(output_contains(10, 10, 0, 0, 1920, 1080));
    assert!(!output_contains(1920, 10, 0, 0, 1920, 1080));
}

#[test]
fn decode_acceptance_matches_what_decoding_survives() {
    let format = bgrx();
    assert!(decode_accepted(4, 1, 1, format));
    // no columns: a zero-length scanline
    assert!(!decode_accepted(0, 0, 1, format));
    // a 32-bit channel mask is scaled without overflow
    let wide_mask = PixelFormat { red_mask: 0xffff_ffff, ..format };
    assert!(decode_accepted(4, 1, 1, wide_mask));
    // truncated data is reported, not refused
    assert!(decode_accepted(3, 1, 1, wide_mask));
    // an unsupported layout is reported, not refused
    let bad = PixelFormat { bits_per_pixel: 40, ..format };
    assert!(decode_accepted(0, 0, 0, bad));
}

#[test]
fn pixmap_and_visual_lookup_take_the_first_match() {
    let formats = [(1u8, 1u8, 32u8), (24, 32, 32), (24, 24, 8)];
    assert_eq!(pixmap_for_depth(&formats, 24).unwrap(), (32, 32));
    match pixmap_for_depth(&formats, 16) {
        Err(PlatformError::Capture(m)) => assert_eq!(m, "X11 has no pixmap format for depth 16"),
        other => panic!("unexpected {other:?}"),
    }
    let visuals = [(0x21u32, 0xff0000u32, 0xff00u32, 0xffu32), (0x22, 1, 2, 4), (0x22, 8, 8, 8)];
    assert_eq!(visual_masks(&visuals, 0x22).unwrap(), (1, 2, 4));
    match visual_masks(&visuals, 0x99) {
        Err(PlatformError::Capture(m)) => assert_eq!(m, "X11 visual format is unsupported"),
        other => panic!("unexpected {other:?}"),
    }
}

#[test]
fn tesseract_language_listing_needs_an_eng_line() {
    assert!(lists_english("List of available languages (2):\neng\nosd\n"));
    assert!(lists_english("  eng \r\n"));
    assert!(lists_english("eng"));
    assert!(!lists_english("List of available languages (1):\nosd\n"));
    assert!(!lists_english("english\n"));
    assert!(!lists_english("deu eng\n"));
    assert!(!lists_english(""));
}

#[test]
fn ocr_text_is_trimmed() {
    assert_eq!(trim("  Bought 5 bait.\n\n"), "Bought 5 bait.");
    assert_eq!(trim("\t\u{3000}x y\u{a0}"), "x y");
    assert_eq!(trim(" \n "), "");
    assert_eq!(trim("plain"), "plain");
}

#[test]
fn dxgi_session_decisions() {
    let r = PxRect { x: 100, y: 100, w: 50, h: 50 };
    assert!(dxgi_needs_open(None, r));
    assert!(!dxgi_needs_open(Some(((0, 0), (1920, 1080))), r));
    assert!(dxgi_needs_open(Some(((1920, 0), (1920, 1080))), r));
    assert!(dxgi_needs_open(Some(((0, 0), (120, 1080))), r));
    assert_eq!(acquire_timeout_ms(false), 250);
    assert_eq!(acquire_timeout_ms(true), 0);
    assert_eq!(after_acquire(Acquired::Frame, false), Ok(true));
    assert_eq!(after_acquire(Acquired::TimedOut, true), Ok(true));
    assert_eq!(after_acquire(Acquired::TimedOut, false), Err("no desktop frame yet".to_string()));
    assert_eq!(after_acquire(Acquired::Failed("lost".to_string()), true), Err("lost".to_string()));
}

#[test]
fn decimal_text_in_messages() {
    match pixmap_for_depth(&[], 0) {
        Err(PlatformError::Capture(m)) => assert_eq!(m, "X11 has no pixmap format for depth 0"),
        other => panic!("unexpected {other:?}"),
    }
    match pixmap_for_depth(&[], 255) {
        Err(PlatformError::Capture(m)) => assert_eq!(m, "X11 has no pixmap format for depth 255"),
        other => panic!("unexpected {other:?}"),
    }
}

#[test]
fn wide_channel_masks_scale_exactly() {
    assert_eq!(scale_channel(0xffff_ffff, 0xffff_ffff), 255);
    assert_eq!(scale_channel(0x7fff_ffff, 0xffff_ffff), 127);
    assert_eq!(scale_channel(0x0000_0001, 0xffff_ffff), 0);
    let format = PixelFormat {
        red_mask: 0xffff_ffff,
        green_mask: 0,
        blue_mask: 0,
        bits_per_pixel: 32,
        scanline_pad: 32,
        image_order: ImageOrder::MsbFirst,
    };
    assert_eq!(decode_rgba(&[0x80, 0, 0, 0], 1, 1, format).unwrap(), [127, 0, 0, 255]);
    assert_eq!(decode_rgba(&[], 5, 0, format).unwrap(), Vec::<u8>::new());
}

#[test]
fn the_first_game_window_is_chosen() {
    let windows = vec![
        (Some("Grand Piece Online | Play on Roblox".to_string()), Some("firefox\0Firefox".to_string())),
        (None, None),
        (Some("Roblox".to_string()), Some("RobloxPlayer".to_string())),
        (Some("Sober".to_string()), Some("sober".to_string())),
    ];
    assert_eq!(first_game_client(&windows, "roblox"), Some(2));
    assert_eq!(first_game_client(&windows[..2].to_vec(), "roblox"), None);
    assert_eq!(first_game_client(&Vec::new(), "roblox"), None);
}

#[test]
fn the_first_output_holding_the_capture_is_duplicated() {
    let outputs = [None, Some((0, 0, 1920, 1080)), Some((1920, 0, 3840, 1080)), Some((0, 0, 3840, 1080))];
    assert_eq!(first_output_containing(&outputs, 2000, 10), Some(2));
    assert_eq!(first_output_containing(&outputs, 10, 10), Some(1));
    assert_eq!(first_output_containing(&outputs, 1920, 1080), None);
    assert_eq!(first_output_containing(&[None], 0, 0), None);
}
