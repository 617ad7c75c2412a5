use hydra_player::commands::{
    backfill_decision, backfill_wakes_worker, gpu_vendor_from_id, greet, is_drm_card, shortcut_event,
    windows_power_event_is_resume, wire_user_agent_update, BackfillDecision, BackfillEnqueueKind,
    GpuVendor, MediaKeyEvent, ShortcutRegistry,
};
use hydra_player::tray::{
    built_now_playing_label, desktop_names_tiling_wm, effective_tooltip, is_tiling_wm,
    tooltip_update, tray_click_toggles, tray_menu_action, tray_playback_state, tray_toggle,
    truncate_tooltip, updated_now_playing_label, window_toggle, TrayClick, TrayEvent,
    TrayMenuAction, TrayToggle, WindowToggle,
};
use hydra_player::web::{
    bandsintown_events, bandsintown_events_url, nd_api_url, nd_bearer, nd_err, nd_login_result,
    nd_login_status_error, nd_login_url, nd_retry_step, nd_songs_url, nd_status_error,
    radio_cover_delete_ok, NdRetryStep, RawBandsintownEvent,
};

#[test]
fn tooltip_truncation() {
    let long: String = "x".repeat(200);
    let cut = truncate_tooltip(&long, "▶");
    assert_eq!(cut.chars().count(), 125 - 3 + 3);
    assert!(cut.ends_with("..."));
    assert_eq!(&cut[..122], &long[..122]);
    assert_eq!(truncate_tooltip("Artist – Title", "▶"), "Artist – Title");
    let exact: String = "y".repeat(125);
    assert_eq!(truncate_tooltip(&exact, "▶"), exact);
    let over: String = "y".repeat(126);
    assert_eq!(truncate_tooltip(&over, "▶").chars().count(), 125);
    let huge_icon: String = "i".repeat(130);
    assert_eq!(truncate_tooltip("abc", &huge_icon), "...");
}

#[test]
fn tooltip_state_and_labels() {
    assert_eq!(tray_playback_state("A - B", None), "play");
    assert_eq!(tray_playback_state("", None), "stop");
    assert_eq!(tray_playback_state("", Some("pause")), "pause");
    assert_eq!(effective_tooltip(""), "Psysonic");
    assert_eq!(effective_tooltip("A - B"), "A - B");
    assert_eq!(built_now_playing_label("■", "Psysonic", "Nichts"), "■ Nichts");
    assert_eq!(built_now_playing_label("▶", "A - B", "Nichts"), "▶ A - B");
    assert_eq!(updated_now_playing_label("▶", "A - B", None), "▶ A - B");
    assert_eq!(updated_now_playing_label("■", "", None), "■ Nothing playing");
    assert_eq!(updated_now_playing_label("■", "", Some("Rien")), "■ Rien");
}

#[test]
fn tooltip_updates() {
    let u = tooltip_update("A - B", None, "▶", true);
    assert_eq!(u.state, "play");
    assert_eq!(u.cached, "A - B");
    assert_eq!(u.shown, "▶ A - B");
    let u = tooltip_update("", None, "■", false);
    assert_eq!(u.state, "stop");
    assert_eq!(u.cached, "");
    assert_eq!(u.shown, "Psysonic");
}

#[test]
fn tray_menu_and_clicks() {
    assert_eq!(tray_menu_action("play_pause"), Some(TrayMenuAction::Emit(TrayEvent::PlayPause)));
    assert_eq!(tray_menu_action("next"), Some(TrayMenuAction::Emit(TrayEvent::Next)));
    assert_eq!(tray_menu_action("previous"), Some(TrayMenuAction::Emit(TrayEvent::Previous)));
    assert_eq!(tray_menu_action("show_hide"), Some(TrayMenuAction::ToggleWindow));
    assert_eq!(tray_menu_action("quit"), Some(TrayMenuAction::Emit(TrayEvent::ForceQuit)));
    assert_eq!(tray_menu_action("now_playing"), None);
    assert_eq!(TrayEvent::PlayPause.name(), "tray:play-pause");
    assert_eq!(TrayEvent::ForceQuit.name(), "app:force-quit");
    assert_eq!(window_toggle(true), WindowToggle::PauseAndHide);
    assert_eq!(window_toggle(false), WindowToggle::ResumeAndShow);
    assert!(tray_click_toggles(true, TrayClick::DoubleClick { left: true }));
    assert!(!tray_click_toggles(true, TrayClick::Click { left: true, released: true }));
    assert!(tray_click_toggles(false, TrayClick::Click { left: true, released: true }));
    assert!(!tray_click_toggles(false, TrayClick::Click { left: true, released: false }));
    assert!(!tray_click_toggles(false, TrayClick::DoubleClick { left: true }));
    assert_eq!(tray_toggle(true, true), TrayToggle::Nothing);
    assert_eq!(tray_toggle(true, false), TrayToggle::Build);
    assert_eq!(tray_toggle(false, true), TrayToggle::HideAndDrop);
    assert_eq!(tray_toggle(false, false), TrayToggle::Nothing);
}

#[test]
fn repeated_tray_requests_act_once() {
    // Show twice: the first builds, the second (icon now present) does nothing.
    assert_eq!(tray_toggle(true, false), TrayToggle::Build);
    assert_eq!(tray_toggle(true, true), TrayToggle::Nothing);
    // Hide twice: the first removes, the second (icon gone) does nothing.
    assert_eq!(tray_toggle(false, true), TrayToggle::HideAndDrop);
    assert_eq!(tray_toggle(false, false), TrayToggle::Nothing);
}

#[test]
fn tiling_window_managers() {
    assert!(is_tiling_wm(true, true, None));
    assert!(is_tiling_wm(true, false, Some("Hyprland")));
    assert!(is_tiling_wm(true, false, Some("X-Generic:i3")));
    assert!(!is_tiling_wm(true, false, Some("GNOME")));
    assert!(!is_tiling_wm(true, false, None));
    assert!(!is_tiling_wm(false, true, Some("sway")));
    assert!(desktop_names_tiling_wm("leftwm"));
    assert!(!desktop_names_tiling_wm("KDE"));
}

#[test]
fn bandsintown_url_encoding() {
    assert_eq!(bandsintown_events_url("   "), None);
    assert_eq!(
        bandsintown_events_url(" AC/DC ").as_deref(),
        Some("https://rest.bandsintown.com/artists/AC%2FDC/events?app_id=js_app_id")
    );
    assert_eq!(
        bandsintown_events_url("Sigur Rós").as_deref(),
        Some("https://rest.bandsintown.com/artists/Sigur+R%C3%B3s/events?app_id=js_app_id")
    );
    assert_eq!(
        bandsintown_events_url("a*b-c.d_e~").as_deref(),
        Some("https://rest.bandsintown.com/artists/a*b-c.d_e%7E/events?app_id=js_app_id")
    );
}

fn raw(dt: Option<&str>, lineup: Option<Vec<Option<&str>>>) -> RawBandsintownEvent {
    RawBandsintownEvent {
        datetime: dt.map(|s| s.to_string()),
        venue_name: Some("Hall".to_string()),
        venue_city: None,
        venue_region: None,
        venue_country: Some("DE".to_string()),
        url: None,
        on_sale_datetime: None,
        lineup: lineup.map(|v| v.into_iter().map(|o| o.map(|s| s.to_string())).collect()),
    }
}

#[test]
fn bandsintown_listing() {
    let events = bandsintown_events(vec![
        raw(Some("2026-04-23T20:30:00"), Some(vec![Some("A"), None, Some("B")])),
        raw(None, None),
    ]);
    assert_eq!(events.len(), 2);
    assert_eq!(events[0].datetime, "2026-04-23T20:30:00");
    assert_eq!(events[0].venue_name, "Hall");
    assert_eq!(events[0].venue_city, "");
    assert_eq!(events[0].venue_country, "DE");
    assert_eq!(events[0].lineup, vec!["A".to_string(), "B".to_string()]);
    assert_eq!(events[1].datetime, "");
    assert!(events[1].lineup.is_empty());
    let many: Vec<RawBandsintownEvent> = (0..25).map(|_| raw(Some("d"), None)).collect();
    assert_eq!(bandsintown_events(many).len(), 20);
}

#[test]
fn navidrome_requests() {
    assert_eq!(nd_retry_step(0, false), NdRetryStep::ReportNow);
    assert_eq!(nd_retry_step(0, true), NdRetryStep::RetryAfter(300));
    assert_eq!(nd_retry_step(1, true), NdRetryStep::RetryAfter(700));
    assert_eq!(nd_retry_step(2, true), NdRetryStep::Exhausted);
    assert_eq!(nd_retry_step(1, false), NdRetryStep::ReportNow);
    assert_eq!(nd_err(&vec!["a".to_string(), "b".to_string(), "c".to_string()]), "a | b | c");
    assert_eq!(nd_err(&vec!["only".to_string()]), "only");
    assert!(radio_cover_delete_ok(204));
    assert!(radio_cover_delete_ok(404));
    assert!(radio_cover_delete_ok(503));
    assert!(!radio_cover_delete_ok(500));
    assert_eq!(nd_status_error("401 Unauthorized", None), "HTTP 401 Unauthorized");
    assert_eq!(nd_status_error("400 Bad Request", Some("bad")), "HTTP 400 Bad Request: bad");
    assert_eq!(nd_login_status_error("403 Forbidden"), "Navidrome login failed: HTTP 403 Forbidden");
    assert_eq!(nd_bearer("tok"), "Bearer tok");
    assert_eq!(nd_login_url("https://nd"), "https://nd/auth/login");
    assert_eq!(nd_api_url("https://nd", "playlist", Some("p1"), Some("image")), "https://nd/api/playlist/p1/image");
    assert_eq!(nd_api_url("https://nd", "user", None, None), "https://nd/api/user");
    assert_eq!(
        nd_songs_url("https://nd", "title", "ASC", 0, 50),
        "https://nd/api/song?_sort=title&_order=ASC&_start=0&_end=50"
    );
}

#[test]
fn navidrome_login_fields() {
    let ok = nd_login_result(Some("t".to_string()), None, Some(true)).expect("login");
    assert_eq!(ok.token, "t");
    assert_eq!(ok.user_id, "");
    assert!(ok.is_admin);
    let ok = nd_login_result(Some("t".to_string()), Some("u1".to_string()), None).expect("login");
    assert_eq!(ok.user_id, "u1");
    assert!(!ok.is_admin);
    assert_eq!(nd_login_result(None, Some("u".to_string()), Some(true)).err().as_deref(), Some("no token in response"));
}

#[test]
fn small_commands() {
    assert_eq!(greet("Ana"), "Hello, Ana!");
    assert_eq!(wire_user_agent_update("UA/1", "mini"), Ok(None));
    assert_eq!(wire_user_agent_update("  UA/1 ", "main"), Ok(Some("UA/1".to_string())));
    assert_eq!(wire_user_agent_update("   ", "main"), Err("user agent is empty".to_string()));
    assert!(windows_power_event_is_resume(0x12));
    assert!(windows_power_event_is_resume(7));
    assert!(windows_power_event_is_resume(8));
    assert!(!windows_power_event_is_resume(4));
}

#[test]
fn shortcut_events_and_registry() {
    assert_eq!(shortcut_event("play-pause"), Some(MediaKeyEvent::PlayPause));
    assert_eq!(shortcut_event("volume-down"), Some(MediaKeyEvent::VolumeDown));
    assert_eq!(shortcut_event("stop"), None);
    assert_eq!(MediaKeyEvent::Prev.name(), "media:prev");
    let mut reg = ShortcutRegistry::new();
    assert!(reg.register("Ctrl+P".to_string(), "play-pause".to_string()));
    assert!(!reg.register("Ctrl+P".to_string(), "play-pause".to_string()));
    assert!(reg.register("Ctrl+P".to_string(), "next".to_string()));
    assert_eq!(reg.action_of("Ctrl+P").as_deref(), Some("next"));
    assert!(reg.register("Ctrl+N".to_string(), "next".to_string()));
    reg.unregister("Ctrl+P");
    assert_eq!(reg.action_of("Ctrl+P"), None);
    assert_eq!(reg.action_of("Ctrl+N").as_deref(), Some("next"));
}

#[test]
fn backfill_decisions() {
    assert_eq!(backfill_decision(" ", "u", false, false, false), BackfillDecision::Ignore);
    assert_eq!(backfill_decision("t", " ", true, false, false), BackfillDecision::Ignore);
    assert_eq!(backfill_decision("t", "u", false, true, true), BackfillDecision::DeferToRangedSeed);
    assert_eq!(backfill_decision("t", "u", false, false, true), BackfillDecision::AlreadyCached);
    assert_eq!(backfill_decision("t", "u", true, true, true), BackfillDecision::Enqueue);
    assert!(backfill_wakes_worker(BackfillEnqueueKind::NewFront));
    assert!(backfill_wakes_worker(BackfillEnqueueKind::ReorderedFront));
    assert!(!backfill_wakes_worker(BackfillEnqueueKind::DuplicateSkipped));
}

#[test]
fn gpu_detection_helpers() {
    assert_eq!(gpu_vendor_from_id("0x10de\n"), Some(GpuVendor::Nvidia));
    assert_eq!(gpu_vendor_from_id("0x8086"), Some(GpuVendor::Intel));
    assert_eq!(gpu_vendor_from_id(" 0x1002 "), Some(GpuVendor::Amd));
    assert_eq!(gpu_vendor_from_id("0x1234"), None);
    assert!(is_drm_card("card0"));
    assert!(!is_drm_card("card0-HDMI-A-1"));
    assert!(!is_drm_card("renderD128"));
}
