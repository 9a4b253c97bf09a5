use gpo_autofish::controller::ControlMode;
use gpo_autofish::trace::{dump_allowed, dump_file_name, keep_last, snapshot_allowed, snapshot_file_name};
use gpo_autofish::tray::{hotkey_bindings, menu_action, tray_label, tray_tooltip, Action, MenuAction};
use gpo_autofish::watchdog::{check, max_state_age, BotState, Verdict};
use gpo_autofish::webhook::{
    after_post, check_webhook_url, civil_from_days, connected_embed, drop_embed, fmt_runtime, progress_embed,
    purchase_embed, recovery_embed, retry_delay_secs, spawn_embed, utc_timestamp, webhook_enabled,
    AfterPost, DropInfo, SpawnInfo, COLOR_BLUE, COLOR_GOLD, COLOR_PURPLE, COLOR_RED,
};

const S: u128 = 1_000_000_000;

#[test]
fn state_ages() {
    assert_eq!(max_state_age(BotState::Casting), 20);
    assert_eq!(max_state_age(BotState::Tracking), 90);
    assert_eq!(max_state_age(BotState::Paused), 0);
}

#[test]
fn watchdog_verdicts() {
    assert_eq!(check(30 * S, 31 * S, BotState::Casting, 0), Verdict::Stuck("no heartbeat for 31s".to_string()));
    assert_eq!(check(30 * S, S, BotState::Casting, 21 * S), Verdict::Stuck("Casting exceeded 20s".to_string()));
    assert_eq!(check(30 * S, S, BotState::Casting, 20 * S), Verdict::Healthy);
    assert_eq!(check(30 * S, S, BotState::Stopped, 1000 * S), Verdict::Healthy);
    assert_eq!(check(30 * S, 30 * S, BotState::WaitingForBite, 0), Verdict::Healthy);
}

#[test]
fn calendar_dates() {
    assert_eq!(civil_from_days(0), (1970, 1, 1));
    assert_eq!(civil_from_days(59), (1970, 3, 1));
    assert_eq!(civil_from_days(11016), (2000, 2, 29));
    assert_eq!(civil_from_days(19782), (2024, 2, 29));
    assert_eq!(civil_from_days(-1), (1969, 12, 31));
}

#[test]
fn timestamps_and_runtimes() {
    assert_eq!(utc_timestamp(0), "1970-01-01T00:00:00Z");
    assert_eq!(utc_timestamp(1725029869), "2024-08-30T14:57:49Z");
    assert_eq!(fmt_runtime(3725), "01:02:05");
    assert_eq!(fmt_runtime(360000), "100:00:00");
}

#[test]
fn embeds() {
    let e = drop_embed(&DropInfo { is_legendary: true, name: Some("Dragon".to_string()), text: "x".to_string() });
    assert_eq!(e.title, "Legendary devil fruit caught");
    assert_eq!(e.color, COLOR_GOLD);
    assert_eq!(e.description, "You fished up **Dragon**.");
    let e = drop_embed(&DropInfo { is_legendary: false, name: None, text: "New Item ???".to_string() });
    assert_eq!(e.color, COLOR_PURPLE);
    assert_eq!(e.description, "You fished up a devil fruit. The name could not be read.\n`New Item ???`");
    let e = spawn_embed(&SpawnInfo { name: Some("Bomb".to_string()), location: Some("Sandora".to_string()), text: String::new() });
    assert_eq!(e.description, "**Bomb** has spawned at **Sandora**.");
    assert_eq!(e.color, COLOR_PURPLE);
    let e = spawn_embed(&SpawnInfo { name: None, location: None, text: "A Fruit".to_string() });
    assert_eq!(e.description, "A devil fruit has spawned. The name could not be read.\n`A Fruit`");
    assert_eq!(e.color, COLOR_BLUE);
    assert_eq!(purchase_embed(50).description, "Bought 50 bait.");
    assert!(recovery_embed(false, 1, "r").is_none());
    let r = recovery_embed(true, 2, "stuck").unwrap();
    assert_eq!((r.title.as_str(), r.color), ("Recovery", COLOR_RED));
    assert_eq!(r.fields, vec![("Attempt".to_string(), "2".to_string())]);
    let p = progress_embed(12, 1, 61, "50%");
    assert_eq!(p.fields[2], ("Runtime".to_string(), "00:01:01".to_string()));
    assert_eq!(connected_embed().title, "Webhook connected");
}

#[test]
fn webhook_settings() {
    assert!(!webhook_enabled(true, "  \t"));
    assert!(!webhook_enabled(false, "https://example"));
    assert!(webhook_enabled(true, "https://example"));
    assert_eq!(check_webhook_url(" "), Err("Webhook URL is empty".to_string()));
    assert_eq!(check_webhook_url("u"), Ok(()));
    assert_eq!((retry_delay_secs(0), retry_delay_secs(1), retry_delay_secs(2)), (1, 2, 4));
}

#[test]
fn trace_limits_and_names() {
    assert!(dump_allowed(0, None));
    assert!(!dump_allowed(3000, None));
    assert!(!dump_allowed(5, Some(99_999_999)));
    assert!(dump_allowed(5, Some(100_000_000)));
    assert!(snapshot_allowed(11) && !snapshot_allowed(12));
    assert_eq!(dump_file_name(42), "00042.png");
    assert_eq!(snapshot_file_name("bite", 3), "bite-03.png");
    let mut v: Vec<u32> = (0..510).collect();
    keep_last(&mut v, 500);
    assert_eq!(v.len(), 500);
    assert_eq!(v[0], 10);
    let mut w = vec![1, 2];
    keep_last(&mut w, 500);
    assert_eq!(w, vec![1, 2]);
}

#[test]
fn tray_and_hotkeys() {
    assert_eq!(tray_label(BotState::Stopped), "Idle");
    assert_eq!(tray_label(BotState::Tracking), "Fishing");
    assert_eq!(tray_tooltip(BotState::Paused), "GPO Autofish — Paused");
    assert_eq!(hotkey_bindings("F1", " ", "F3", "F4"), vec![("F1", Action::Toggle), ("F3", Action::Quit), ("F4", Action::HideHud)]);
    assert_eq!(ControlMode::default(), ControlMode::Lookahead);
}

#[test]
fn idle_states_never_time_out() {
    for state in [BotState::Stopped, BotState::Paused, BotState::WaitingForRoblox] {
        assert_eq!(check(30 * S, 29 * S, state, u64::MAX as u128 * S), Verdict::Healthy);
    }
}

#[test]
fn a_stuck_loop_stays_stuck() {
    assert!(matches!(check(30 * S, S, BotState::Purchasing, 61 * S), Verdict::Stuck(_)));
    assert!(matches!(check(30 * S, 2 * S, BotState::Purchasing, 600 * S), Verdict::Stuck(_)));
    assert!(matches!(check(30 * S, 31 * S, BotState::Paused, 0), Verdict::Stuck(_)));
    assert!(matches!(check(30 * S, 3100 * S, BotState::Paused, 5 * S), Verdict::Stuck(_)));
}

#[test]
fn calendar_days_read_back() {
    // a day before the epoch, a leap day, the end of a century, and far out
    for z in [-719468i64, -1, 0, 11016, 10956, 10957, 19782, 2932896] {
        let (y, m, d) = civil_from_days(z);
        let (yy, mm) = if m <= 2 { (y - 1, m as i64 + 9) } else { (y, m as i64 - 3) };
        let era = if yy >= 0 { yy / 400 } else { (yy - 399) / 400 };
        let yoe = yy - era * 400;
        let doy = (153 * mm + 2) / 5 + d as i64 - 1;
        let doe = yoe * 365 + yoe / 4 - yoe / 100 + doy;
        assert_eq!(era * 146097 + doe - 719468, z);
    }
}

#[test]
fn century_years_skip_the_leap_day() {
    assert_eq!(civil_from_days(-25509), (1900, 2, 28));
    assert_eq!(civil_from_days(-25508), (1900, 3, 1));
    assert_eq!(civil_from_days(47540), (2100, 2, 28));
    assert_eq!(civil_from_days(47541), (2100, 3, 1));
    assert_eq!(civil_from_days(11322), (2000, 12, 31));
}

#[test]
fn webhook_delivery_retries_then_gives_up() {
    assert_eq!(after_post(0, true), AfterPost::Done);
    assert_eq!(after_post(0, false), AfterPost::RetryAfter(1));
    assert_eq!(after_post(1, false), AfterPost::RetryAfter(2));
    assert_eq!(after_post(2, false), AfterPost::GiveUpAfter(4));
    assert_eq!(after_post(2, true), AfterPost::Done);
}

#[test]
fn tray_menu_ids() {
    assert_eq!(menu_action("toggle"), Some(MenuAction::Toggle));
    assert_eq!(menu_action("panel"), Some(MenuAction::Panel));
    assert_eq!(menu_action("hud"), Some(MenuAction::Hud));
    assert_eq!(menu_action("quit"), Some(MenuAction::Quit));
    assert_eq!(menu_action("Quit"), None);
    assert_eq!(menu_action(""), None);
}
