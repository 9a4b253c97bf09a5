use vstd::prelude::*;

use crate::text::{blank_spec, concat, is_blank};
use crate::watchdog::{is_idle, state_name, BotState};

verus! {

/// The word the tray shows for a state.
pub open spec fn label_spec(s: BotState) -> Seq<char> {
    match s {
        BotState::Stopped => "Idle"@,
        BotState::Paused => "Paused"@,
        BotState::WaitingForRoblox => "Waiting for Roblox"@,
        BotState::Recovering => "Recovering"@,
        _ => "Fishing"@,
    }
}

pub fn tray_label(s: BotState) -> (l: &'static str)
    ensures
        l@ == label_spec(s),
{
    match s {
        BotState::Stopped => "Idle",
        BotState::Paused => "Paused",
        BotState::WaitingForRoblox => "Waiting for Roblox",
        BotState::Recovering => "Recovering",
        _ => "Fishing",
    }
}

/// The tray tooltip for a state.
pub fn tray_tooltip(s: BotState) -> (t: String)
    ensures
        t@ == "GPO Autofish \u{2014} "@ + label_spec(s),
{
    concat("GPO Autofish \u{2014} ", tray_label(s))
}

/// What a global hotkey does.
#[derive(Clone, Copy, Debug, PartialEq, Eq, Structural)]
pub enum Action {
    Toggle,
    Overlay,
    Quit,
    HideHud,
}

/// The bindings to register, in order: toggle, overlay, quit, hide HUD,
/// leaving out each one whose key combination is blank.
pub open spec fn bindings_spec(
    toggle: Seq<char>,
    overlay: Seq<char>,
    quit: Seq<char>,
    hide_hud: Seq<char>,
) -> Seq<(Seq<char>, Action)> {
    let all = seq![
        (toggle, Action::Toggle),
        (overlay, Action::Overlay),
        (quit, Action::Quit),
        (hide_hud, Action::HideHud),
    ];
    all.filter(|b: (Seq<char>, Action)| !blank_spec(b.0))
}

pub fn hotkey_bindings<'a>(
    toggle: &'a str,
    overlay: &'a str,
    quit: &'a str,
    hide_hud: &'a str,
) -> (v: Vec<(&'a str, Action)>)
    ensures
        v@.map_values(|b: (&'a str, Action)| (b.0@, b.1)) == bindings_spec(
            toggle@,
            overlay@,
            quit@,
            hide_hud@,
        ),
{
    let mut v: Vec<(&'a str, Action)> = Vec::new();
    if !is_blank(toggle) {
        v.push((toggle, Action::Toggle));
    }
    if !is_blank(overlay) {
        v.push((overlay, Action::Overlay));
    }
    if !is_blank(quit) {
        v.push((quit, Action::Quit));
    }
    if !is_blank(hide_hud) {
        v.push((hide_hud, Action::HideHud));
    }
    proof {
        let all = seq![
            (toggle@, Action::Toggle),
            (overlay@, Action::Overlay),
            (quit@, Action::Quit),
            (hide_hud@, Action::HideHud),
        ];
        let pred = |b: (Seq<char>, Action)| !blank_spec(b.0);
        reveal_with_fuel(Seq::filter, 5);
        assert(all.drop_last().drop_last().drop_last().drop_last() =~= Seq::<(Seq<char>, Action)>::empty());
        assert(v@.map_values(|b: (&'a str, Action)| (b.0@, b.1)) =~= all.filter(pred));
    }
    v
}


/// What an entry of the tray menu does.
#[derive(Clone, Copy, Debug, PartialEq, Eq, Structural)]
pub enum MenuAction {
    Toggle,
    Panel,
    Hud,
    Quit,
}

/// The tray menu entry with id `id`; ids that the menu does not have do
/// nothing.
pub fn menu_action(id: &str) -> (a: Option<MenuAction>)
    ensures
        a == (if id@ == "toggle"@ {
            Some(MenuAction::Toggle)
        } else if id@ == "panel"@ {
            Some(MenuAction::Panel)
        } else if id@ == "hud"@ {
            Some(MenuAction::Hud)
        } else if id@ == "quit"@ {
            Some(MenuAction::Quit)
        } else {
            None
        }),
{
    let s = String::from_str(id);
    if s == String::from_str("toggle") {
        Some(MenuAction::Toggle)
    } else if s == String::from_str("panel") {
        Some(MenuAction::Panel)
    } else if s == String::from_str("hud") {
        Some(MenuAction::Hud)
    } else if s == String::from_str("quit") {
        Some(MenuAction::Quit)
    } else {
        None
    }
}


/// The tray says "Fishing" exactly while the loop is at work (neither idle
/// nor recovering); when paused or recovering it names the state itself,
/// and the states it does not call "Fishing" all read differently.
pub proof fn lemma_tray_label_tells_states_apart(s: BotState, t: BotState)
    ensures
        label_spec(s) == "Fishing"@ <==> !is_idle(s) && s != BotState::Recovering,
        s == BotState::Paused || s == BotState::Recovering ==> label_spec(s) == state_name(s),
        label_spec(s) == label_spec(t) && label_spec(s) != "Fishing"@ ==> s == t,
{
    reveal_strlit("Fishing");
    reveal_strlit("Idle");
    reveal_strlit("Paused");
    reveal_strlit("Waiting for Roblox");
    reveal_strlit("Recovering");
    assert("Idle"@ != "Fishing"@ && "Idle"@ != "Paused"@ && "Idle"@ != "Waiting for Roblox"@
        && "Idle"@ != "Recovering"@) by {
        assert("Idle"@.len() != "Fishing"@.len());
        assert("Idle"@[0] != "Paused"@[0]);
        assert("Idle"@.len() != "Waiting for Roblox"@.len());
        assert("Idle"@.len() != "Recovering"@.len());
    }
    assert("Paused"@ != "Fishing"@ && "Paused"@ != "Waiting for Roblox"@ && "Paused"@
        != "Recovering"@) by {
        assert("Paused"@.len() != "Fishing"@.len());
        assert("Paused"@.len() != "Waiting for Roblox"@.len());
        assert("Paused"@.len() != "Recovering"@.len());
    }
    assert("Waiting for Roblox"@ != "Fishing"@ && "Waiting for Roblox"@ != "Recovering"@) by {
        assert("Waiting for Roblox"@.len() != "Fishing"@.len());
        assert("Waiting for Roblox"@.len() != "Recovering"@.len());
    }
    assert("Recovering"@ != "Fishing"@) by {
        assert("Recovering"@.len() != "Fishing"@.len());
    }
}

} // verus!
