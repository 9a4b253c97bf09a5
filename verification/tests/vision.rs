use gpo_autofish::types::{Frame, Rgb};
use gpo_autofish::vision::{
    confidence, find_bar, find_fish, find_marker, has_bar, read, read_locked, Bbox, Palette, Span,
};

fn frame(w: usize, h: usize, paint: impl Fn(usize, usize) -> Rgb) -> Frame {
    let mut rgba = vec![0u8; w * h * 4];
    for y in 0..h {
        for x in 0..w {
            let c = paint(x, y);
            let i = (y * w + x) * 4;
            rgba[i] = c.r;
            rgba[i + 1] = c.g;
            rgba[i + 2] = c.b;
            rgba[i + 3] = 255;
        }
    }
    Frame::new(w, h, rgba)
}

#[test]
fn detects_bar_fish_marker() {
    let p = Palette::default();
    let bg = Rgb::new(0, 0, 0);
    let f = frame(60, 200, |x, y| {
        let in_bar = (10..50).contains(&x) && (20..180).contains(&y);
        if !in_bar {
            return bg;
        }
        if (60..90).contains(&y) {
            return p.fish;
        }
        if (120..126).contains(&y) {
            return p.marker;
        }
        p.bar
    });
    let r = read(&f, &p).expect("reading");
    assert_eq!(r.bar, Bbox { x0: 10, y0: 20, x1: 49, y1: 179 });
    assert_eq!(r.fish, Span { start: 40, end: 69 });
    assert_eq!(r.marker, Span { start: 100, end: 105 });
    assert!(r.error() < 0);
}

#[test]
fn block_at_bar_end_keeps_bbox_stable() {
    let p = Palette::default();
    let bg = Rgb::new(0, 0, 0);
    let paint = |block: std::ops::Range<usize>| {
        move |x: usize, y: usize| -> Rgb {
            if !(10..50).contains(&x) {
                return bg;
            }
            if (16..18).contains(&y) || (182..184).contains(&y) {
                return p.fish;
            }
            if !(20..180).contains(&y) {
                return bg;
            }
            if block.contains(&y) {
                return p.fish;
            }
            if (100..103).contains(&y) {
                return p.marker;
            }
            p.bar
        }
    };
    let mid = read(&frame(60, 200, paint(60..90)), &p).expect("mid");
    let low = read(&frame(60, 200, paint(150..180)), &p).expect("bottom");
    let high = read(&frame(60, 200, paint(20..50)), &p).expect("top");
    assert_eq!(mid.bar, Bbox { x0: 10, y0: 20, x1: 49, y1: 179 });
    assert_eq!(low.bar, mid.bar);
    assert_eq!(high.bar, mid.bar);
    assert_eq!(low.fish, Span { start: 130, end: 159 });
    assert_eq!(high.fish, Span { start: 0, end: 29 });
}

#[test]
fn lock_overrides_vertical_extent() {
    let p = Palette::default();
    let bg = Rgb::new(0, 0, 0);
    let f = frame(60, 200, |x, y| {
        if !(10..50).contains(&x) || !(30..180).contains(&y) {
            return bg;
        }
        if (60..90).contains(&y) {
            return p.fish;
        }
        if (120..123).contains(&y) {
            return p.marker;
        }
        p.bar
    });
    let lock = Bbox { x0: 0, y0: 20, x1: 0, y1: 179 };
    let r = read_locked(&f, &p, Some(lock)).expect("reading");
    assert_eq!(r.bar, Bbox { x0: 10, y0: 20, x1: 49, y1: 179 });
    assert_eq!(r.fish, Span { start: 40, end: 69 });
    assert_eq!(r.marker, Span { start: 100, end: 102 });
}

#[test]
fn marker_just_above_locked_bar_is_still_read() {
    let p = Palette::default();
    let bg = Rgb::new(0, 0, 0);
    let f = frame(60, 200, |x, y| {
        if !(10..50).contains(&x) {
            return bg;
        }
        if (16..19).contains(&y) {
            return p.marker;
        }
        if !(20..180).contains(&y) {
            return bg;
        }
        if (25..55).contains(&y) {
            return p.fish;
        }
        p.bar
    });
    let lock = Bbox { x0: 0, y0: 20, x1: 0, y1: 179 };
    let r = read_locked(&f, &p, Some(lock)).expect("reading");
    assert_eq!(r.bar.y0, 20);
    assert_eq!(r.marker, Span { start: 0, end: 0 });
    assert_eq!(r.marker_center, 0);
    assert!(r.error() > 0);
}

#[test]
fn no_bar_returns_none() {
    let p = Palette::default();
    let f = frame(30, 30, |_, _| Rgb::new(10, 10, 10));
    assert!(find_bar(&f, &p).is_none());
    assert!(read(&f, &p).is_none());
}

#[test]
fn scattered_blue_noise_is_not_a_bar() {
    let p = Palette::default();
    let f = frame(120, 200, |x, y| if (x * 7 + y * 13) % 11 == 0 { p.bar } else { Rgb::new(0, 0, 0) });
    assert!(find_bar(&f, &p).is_none());
}

#[test]
fn wide_blue_patch_is_not_a_bar() {
    let p = Palette::default();
    let f = frame(200, 100, |x, y| {
        if (10..190).contains(&x) && (20..70).contains(&y) {
            p.bar
        } else {
            Rgb::new(0, 0, 0)
        }
    });
    assert!(find_bar(&f, &p).is_none());
}

#[test]
fn fish_gap_merging() {
    let p = Palette::default();
    let f = frame(10, 50, |_, y| if (5..10).contains(&y) || (12..20).contains(&y) { p.fish } else { p.bar });
    let s = find_fish(&f, &p, 3).unwrap();
    assert_eq!(s, Span { start: 5, end: 19 });
    let s = find_fish(&f, &p, 1).unwrap();
    assert_eq!(s, Span { start: 12, end: 19 });
}

fn bar_frame(p: &Palette) -> Frame {
    frame(60, 200, |x, y| {
        if !(10..50).contains(&x) || !(20..180).contains(&y) {
            return Rgb::new(0, 0, 0);
        }
        if (60..90).contains(&y) {
            return p.fish;
        }
        if (120..126).contains(&y) {
            return p.marker;
        }
        p.bar
    })
}

#[test]
fn reading_positions_are_exact_fractions() {
    let p = Palette::default();
    let r = read(&bar_frame(&p), &p).expect("reading");
    // Bar height 160: fish rows 40..=69, marker rows 100..=105.
    assert_eq!(r.center_scale, 320);
    assert_eq!(r.fish_center, 109);
    assert_eq!(r.marker_center, 205);
    assert_eq!(r.error(), -96);
}

#[test]
fn read_is_read_locked_without_lock() {
    let p = Palette::default();
    let f = bar_frame(&p);
    assert_eq!(read(&f, &p), read_locked(&f, &p, None));
}

#[test]
fn lock_below_frame_is_ignored() {
    let p = Palette::default();
    let f = bar_frame(&p);
    let lock = Bbox { x0: 0, y0: 10, x1: 0, y1: 200 };
    assert_eq!(read_locked(&f, &p, Some(lock)), read(&f, &p));
}

#[test]
fn confidence_scores_a_clear_bar() {
    let p = Palette::default();
    let f = bar_frame(&p);
    let c = confidence(&f, &p);
    assert_eq!(c.total_px, 12000);
    assert_eq!(c.fish_px, 1200);
    assert_eq!(c.marker_px, 240);
    assert_eq!(c.bar_px, 40 * 160 - 1200 - 240);
    assert_eq!(c.score_tenths, 10);
    assert!(has_bar(&f, &p));
}

#[test]
fn confidence_of_an_empty_scene_is_zero() {
    let p = Palette::default();
    let f = frame(30, 30, |_, _| Rgb::new(10, 10, 10));
    let c = confidence(&f, &p);
    assert_eq!(c.score_tenths, 0);
    assert_eq!(c.bar_px, 0);
    assert!(!has_bar(&f, &p));
}

#[test]
fn marker_rows_are_found_in_a_bar_crop() {
    let p = Palette::default();
    let f = frame(8, 20, |_, y| if (4..7).contains(&y) { p.marker } else { p.bar });
    assert_eq!(find_marker(&f, &p), Some(Span { start: 4, end: 6 }));
}

#[test]
fn short_bar_is_rejected() {
    let p = Palette::default();
    let f = frame(60, 200, |x, y| {
        if (10..50).contains(&x) && (20..50).contains(&y) {
            p.bar
        } else {
            Rgb::new(0, 0, 0)
        }
    });
    assert!(find_bar(&f, &p).is_none());
}
