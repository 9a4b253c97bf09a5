use vstd::prelude::*;

use crate::text::{
    ascii_lower, ascii_lowercase_chars, chars_of, contains, contains_spec, has_field, has_field_spec,
};
use crate::types::{PxRect, WindowInfo};

verus! {

/// A window is the game client when its class names the native Sober
/// client, or names the game, or (having no class) its title names the game.
pub open spec fn game_client_spec(title: Seq<char>, class: Seq<char>, name: Seq<char>) -> bool {
    ||| contains_spec(class, "org.vinegarhq.sober"@)
    ||| has_field_spec(class, "sober"@)
    ||| contains_spec(class, name)
    ||| (class.len() == 0 && contains_spec(title, name))
}

/// Whether a window with this (lower-case) title and class is the game
/// client named `roblox_name`. Recognition goes by class so that a browser
/// tab that mentions the game is not taken for it.
pub fn matches_game_client(title: &str, class: &str, roblox_name: &str) -> (b: bool)
    ensures
        b == game_client_spec(title@, class@, roblox_name@),
{
    let title_chars = chars_of(title);
    let class_chars = chars_of(class);
    let name = chars_of(roblox_name);
    client_chars_match(&title_chars, &class_chars, &name)
}

/// `matches_game_client` on the characters of title, class and name.
fn client_chars_match(title: &Vec<char>, class: &Vec<char>, name: &Vec<char>) -> (b: bool)
    ensures
        b == game_client_spec(title@, class@, name@),
{
    let sober_id = chars_of("org.vinegarhq.sober");
    let sober = chars_of("sober");
    proof {
        reveal_strlit("sober");
    }
    if contains(class, &sober_id) || has_field(class, &sober) {
        return true;
    }
    if contains(class, name) {
        return true;
    }
    if class.len() == 0 {
        contains(title, name)
    } else {
        false
    }
}

pub open spec fn lower(s: Seq<char>) -> Seq<char> {
    s.map_values(|c: char| ascii_lower(c))
}

/// Whether a window with this title and class (either possibly absent) is
/// the game client; title and class are compared in ASCII lower case.
pub fn window_matches(title: Option<&str>, class: Option<&str>, roblox_name: &str) -> (b: bool)
    ensures
        b == game_client_spec(
            lower(
                match title {
                    Some(t) => t@,
                    None => Seq::<char>::empty(),
                },
            ),
            lower(
                match class {
                    Some(c) => c@,
                    None => Seq::<char>::empty(),
                },
            ),
            roblox_name@,
        ),
{
    let t = match title {
        Some(t) => chars_of(t),
        None => Vec::new(),
    };
    let c = match class {
        Some(c) => chars_of(c),
        None => Vec::new(),
    };
    let lt = ascii_lowercase_chars(&t);
    let lc = ascii_lowercase_chars(&c);
    let name = chars_of(roblox_name);
    client_chars_match(&lt, &lc, &name)
}

/// The view of an optional string, empty when absent.
pub open spec fn text_or_empty(s: Option<String>) -> Seq<char> {
    match s {
        Some(t) => t@,
        None => Seq::<char>::empty(),
    }
}

/// A window with this optional title and class is the game client.
pub open spec fn window_is_client(title: Option<String>, class: Option<String>, name: Seq<char>) -> bool {
    game_client_spec(lower(text_or_empty(title)), lower(text_or_empty(class)), name)
}

/// The first of the candidate windows, each given by its optional title and
/// class, that is the game client.
pub fn first_game_client(candidates: &Vec<(Option<String>, Option<String>)>, roblox_name: &str) -> (r:
    Option<usize>)
    ensures
        match r {
            Some(i) => i < candidates@.len() && window_is_client(
                candidates@[i as int].0,
                candidates@[i as int].1,
                roblox_name@,
            ) && forall|j: int|
                0 <= j < i ==> !window_is_client(
                    #[trigger] candidates@[j].0,
                    candidates@[j].1,
                    roblox_name@,
                ),
            None => forall|j: int|
                0 <= j < candidates@.len() ==> !window_is_client(
                    #[trigger] candidates@[j].0,
                    candidates@[j].1,
                    roblox_name@,
                ),
        },
{
    let mut i: usize = 0;
    while i < candidates.len()
        invariant
            i <= candidates@.len(),
            forall|j: int|
                0 <= j < i ==> !window_is_client(
                    #[trigger] candidates@[j].0,
                    candidates@[j].1,
                    roblox_name@,
                ),
        decreases candidates@.len() - i,
    {
        let title: Option<&str> = match &candidates[i].0 {
            Some(t) => Some(t.as_str()),
            None => None,
        };
        let class: Option<&str> = match &candidates[i].1 {
            Some(c) => Some(c.as_str()),
            None => None,
        };
        if window_matches(title, class, roblox_name) {
            return Some(i);
        }
        i = i + 1;
    }
    None
}

/// The game window as X11 reports it: shown only when mapped viewable with
/// a non-empty size; X11 geometry is in physical pixels, so the DPI is the
/// 96 baseline.
pub fn x11_window_info(viewable: bool, x: i16, y: i16, w: u16, h: u16, is_active: bool) -> (res:
    Option<WindowInfo>)
    ensures
        res == (if !viewable || w == 0 || h == 0 {
            None
        } else {
            Some(
                WindowInfo {
                    client: PxRect { x: x as i32, y: y as i32, w: w as i32, h: h as i32 },
                    is_foreground: is_active,
                    visible: true,
                    dpi: 96,
                },
            )
        }),
{
    if !viewable || w == 0 || h == 0 {
        return None;
    }
    Some(
        WindowInfo {
            client: PxRect { x: x as i32, y: y as i32, w: w as i32, h: h as i32 },
            is_foreground: is_active,
            visible: true,
            dpi: 96,
        },
    )
}

/// The game window as Win32 reports it: absent when hidden, or when not
/// minimized yet without a client area; foreground when it or this program
/// has the focus; a zero DPI reads as 96.
pub fn win32_window_info(
    visible: bool,
    minimized: bool,
    client: PxRect,
    foreground_is_window: bool,
    foreground_is_ours: bool,
    dpi: u32,
) -> (res: Option<WindowInfo>)
    ensures
        res == (if !visible || ((client.w <= 0 || client.h <= 0) && !minimized) {
            None
        } else {
            Some(
                WindowInfo {
                    client,
                    is_foreground: foreground_is_window || foreground_is_ours,
                    visible: !minimized,
                    dpi: if dpi == 0 {
                        96
                    } else {
                        dpi
                    },
                },
            )
        }),
{
    if !visible {
        return None;
    }
    if client.is_empty() && !minimized {
        return None;
    }
    Some(
        WindowInfo {
            client,
            is_foreground: foreground_is_window || foreground_is_ours,
            visible: !minimized,
            dpi: if dpi == 0 {
                96
            } else {
                dpi
            },
        },
    )
}

} // verus!
