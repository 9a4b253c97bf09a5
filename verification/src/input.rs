use vstd::prelude::*;

use crate::types::{Key, MouseButton};

verus! {

/// X11 core event codes used with XTEST.
pub const KEY_PRESS: u8 = 2;
pub const KEY_RELEASE: u8 = 3;
pub const BUTTON_PRESS: u8 = 4;
pub const BUTTON_RELEASE: u8 = 5;
pub const MOTION_NOTIFY: u8 = 6;

/// X11 keysyms of the special keys.
pub const XK_BACK_SPACE: u32 = 0xff08;
pub const XK_RETURN: u32 = 0xff0d;
pub const XK_ESCAPE: u32 = 0xff1b;
pub const XK_DELETE: u32 = 0xffff;
pub const XK_SHIFT_L: u32 = 0xffe1;
pub const XK_CONTROL_L: u32 = 0xffe3;

/// The keysym of a key: Latin-1 characters map to themselves, other
/// characters to X11's Unicode keysym range.
pub open spec fn keysym_spec(key: Key) -> u32 {
    match key {
        Key::Backspace => 0xff08,
        Key::Delete => 0xffff,
        Key::Enter => 0xff0d,
        Key::Escape => 0xff1b,
        Key::Control => 0xffe3,
        Key::Char(c) => if (c as u32) <= 0xff {
            c as u32
        } else {
            (0x0100_0000 + c as u32) as u32
        },
    }
}

pub fn keysym(key: Key) -> (k: u32)
    ensures
        k == keysym_spec(key),
{
    match key {
        Key::Backspace => XK_BACK_SPACE,
        Key::Delete => XK_DELETE,
        Key::Enter => XK_RETURN,
        Key::Escape => XK_ESCAPE,
        Key::Control => XK_CONTROL_L,
        Key::Char(c) => {
            let v = c as u32;
            if v <= 0xff {
                v
            } else {
                assert(v <= 0x10ffff);
                assert(0x0100_0000u32 | v == 0x0100_0000u32 + v) by (bit_vector)
                    requires
                        v <= 0x10ffff,
                ;
                0x0100_0000u32 | v
            }
        },
    }
}

/// Clamps a coordinate to the 16-bit range of X11 requests.
pub fn clamp_i16(value: i32) -> (v: i16)
    ensures
        v == (if value < -32768 {
            -32768
        } else if value > 32767 {
            32767
        } else {
            value as int
        }),
{
    if value < -32768 {
        -32768
    } else if value > 32767 {
        32767
    } else {
        value as i16
    }
}

/// Index of the first entry equal to `x`.
pub open spec fn first_index(s: Seq<u32>, x: u32, j: int) -> bool {
    0 <= j < s.len() && s[j] == x && forall|k: int| 0 <= k < j ==> s[k] != x
}

/// The keycode and shift level of `keysym` in a keyboard mapping that
/// lists `per_keycode` keysyms for each keycode from `first` on: its first
/// occurrence gives the keycode (saturating at 255) and whether it sits on
/// a shifted (odd) level.
pub open spec fn keycode_spec(keysyms: Seq<u32>, per_keycode: int, first: u8, keysym: u32) -> Option<
    (u8, bool),
> {
    if per_keycode == 0 || !(exists|j: int| first_index(keysyms, keysym, j)) {
        None
    } else {
        let j = choose|j: int| first_index(keysyms, keysym, j);
        let index = (j / per_keycode) as u8;
        let code = if first + index > 255 {
            255u8
        } else {
            (first + index) as u8
        };
        Some((code, (j % per_keycode) % 2 == 1))
    }
}

/// Finds the keycode that produces `keysym` in a keyboard mapping.
pub fn keycode_for(keysyms: &[u32], per_keycode: usize, first: u8, keysym: u32) -> (res: Option<
    (u8, bool),
>)
    ensures
        res == keycode_spec(keysyms@, per_keycode as int, first, keysym),
{
    if per_keycode == 0 {
        return None;
    }
    let mut j: usize = 0;
    while j < keysyms.len()
        invariant
            j <= keysyms@.len(),
            per_keycode > 0,
            forall|k: int| 0 <= k < j ==> keysyms@[k] != keysym,
        decreases keysyms@.len() - j,
    {
        if keysyms[j] == keysym {
            proof {
                assert(first_index(keysyms@, keysym, j as int));
                let c = choose|q: int| first_index(keysyms@, keysym, q);
                if c < j {
                    assert(keysyms@[c] != keysym);
                } else if c > j {
                    assert(keysyms@[j as int] != keysym);
                }
            }
            let index = (j / per_keycode) as u8;
            let code = if first as u16 + index as u16 > 255 {
                255u8
            } else {
                first + index
            };
            let level = j % per_keycode;
            return Some((code, level % 2 == 1));
        }
        j = j + 1;
    }
    None
}

/// The keycodes to ask the server for: `first ..= last`, counted with
/// saturation; none when the range is reversed.
pub fn keycode_count(first: u8, last: u8) -> (n: Option<u8>)
    ensures
        n == (if last < first {
            None
        } else if last - first + 1 > 255 {
            Some(255u8)
        } else {
            Some((last - first + 1) as u8)
        }),
{
    if last < first {
        None
    } else {
        let d = last - first;
        if d == 255 {
            Some(255)
        } else {
            Some(d + 1)
        }
    }
}

/// The fake events that press or release a key: shift goes down before the
/// key and comes up after it.
pub open spec fn key_events_spec(keycode: u8, shift: Option<u8>, down: bool) -> Seq<(u8, u8)> {
    match shift {
        Some(s) => if down {
            seq![(2u8, s), (2u8, keycode)]
        } else {
            seq![(3u8, keycode), (3u8, s)]
        },
        None => if down {
            seq![(2u8, keycode)]
        } else {
            seq![(3u8, keycode)]
        },
    }
}

pub fn key_events(keycode: u8, shift: Option<u8>, down: bool) -> (ev: Vec<(u8, u8)>)
    ensures
        ev@ == key_events_spec(keycode, shift, down),
{
    let mut ev: Vec<(u8, u8)> = Vec::new();
    if down {
        if let Some(s) = shift {
            ev.push((KEY_PRESS, s));
        }
        ev.push((KEY_PRESS, keycode));
    } else {
        ev.push((KEY_RELEASE, keycode));
        if let Some(s) = shift {
            ev.push((KEY_RELEASE, s));
        }
    }
    assert(ev@ =~= key_events_spec(keycode, shift, down));
    ev
}

/// The event type and button number of a mouse button press or release.
pub fn button_event(button: MouseButton, down: bool) -> (ev: (u8, u8))
    ensures
        ev.0 == (if down {
            4u8
        } else {
            5u8
        }),
        ev.1 == (match button {
            MouseButton::Left => 1u8,
            MouseButton::Right => 3u8,
        }),
{
    let detail = match button {
        MouseButton::Left => 1,
        MouseButton::Right => 3,
    };
    (if down {
        BUTTON_PRESS
    } else {
        BUTTON_RELEASE
    }, detail)
}

/// The wheel button (4 up, 5 down) and how many clicks a wheel delta makes:
/// one per 120 units, at least one; no clicks for a zero delta.
pub fn wheel_clicks(delta: i32) -> (res: (u8, u32))
    ensures
        delta == 0 ==> res.1 == 0,
        delta != 0 ==> {
            &&& res.0 == (if delta > 0 {
                4u8
            } else {
                5u8
            })
            &&& res.1 == (if (if delta > 0 {
                delta as int
            } else {
                -delta
            }) / 120 >= 1 {
                (if delta > 0 {
                    delta as int
                } else {
                    -delta
                }) / 120
            } else {
                1
            })
        },
{
    if delta == 0 {
        return (4, 0);
    }
    let detail: u8 = if delta > 0 {
        4
    } else {
        5
    };
    let abs: u32 = if delta > 0 {
        delta as u32
    } else {
        (-(delta as i64)) as u32
    };
    let steps = abs / 120;
    (detail, if steps >= 1 {
        steps
    } else {
        1
    })
}

/// Releasing a key undoes pressing it: the same keys come up in the reverse
/// order they went down.
pub proof fn lemma_release_mirrors_press(keycode: u8, shift: Option<u8>)
    ensures
        key_events_spec(keycode, shift, false) == key_events_spec(keycode, shift, true).reverse().map_values(
            |e: (u8, u8)| (KEY_RELEASE, e.1),
        ),
        forall|i: int|
            0 <= i < key_events_spec(keycode, shift, true).len() ==> #[trigger] key_events_spec(
                keycode,
                shift,
                true,
            )[i].0 == KEY_PRESS,
{
    let down = key_events_spec(keycode, shift, true);
    let up = key_events_spec(keycode, shift, false);
    assert(up =~= down.reverse().map_values(|e: (u8, u8)| (KEY_RELEASE, e.1)));
}


/// The ASCII control character that each of X11's TTY function keys
/// (BackSpace, Return, Escape) sends.
pub open spec fn tty_control_code(key: Key) -> Option<u32> {
    match key {
        Key::Backspace => Some(0x08u32),
        Key::Enter => Some(0x0du32),
        Key::Escape => Some(0x1bu32),
        _ => None,
    }
}

/// Keysyms follow X11's encoding: the TTY function keys (BackSpace, Return,
/// Escape) are `0xff00` plus the ASCII control code they send, Delete is the
/// last function keysym `0xffff`, Control is the left Control modifier, Latin-1 characters are their own
/// code, and every other character lies in the Unicode keysym range
/// `0x01000000 + code point`. So different keys never share a keysym.
pub proof fn lemma_keysyms_follow_x11(a: Key, b: Key)
    ensures
        tty_control_code(a) matches Some(code) ==> keysym_spec(a) == 0xff00 + code,
        a == Key::Delete ==> keysym_spec(a) == 0xffff,
        a == Key::Control ==> keysym_spec(a) == 0xffe3,
        a matches Key::Char(c) ==> keysym_spec(a) == (if (c as u32) <= 0xff {
            c as u32 as int
        } else {
            0x0100_0000 + c as u32
        }),
        keysym_spec(a) == keysym_spec(b) ==> a == b,
{
}

} // verus!
