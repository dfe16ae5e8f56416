use sentinel_wallpaper::config::PauseMode;
use sentinel_wallpaper::geometry::{rect_matches_monitor, Rect};
use sentinel_wallpaper::pause::{
    global_window_states, idle_triggered, is_shell_window_class, judge_fullscreen,
    mode_triggered, monitor_states_by_id, monitor_window_states, power_on_battery,
    resolve_monitor_id_for_rect, should_pause, window_flags, DisplayInfo, MonitorAppData,
    PowerStatus, WindowInfo, WindowStates,
};

#[test]
fn trigger_tristate_semantics() {
    assert_eq!(mode_triggered(PauseMode::Off, true, true), false);
    assert_eq!(mode_triggered(PauseMode::PerMonitor, true, false), true);
    assert_eq!(mode_triggered(PauseMode::PerMonitor, false, true), false);
    assert_eq!(mode_triggered(PauseMode::AllMonitors, false, true), true);
    assert_eq!(mode_triggered(PauseMode::AllMonitors, true, false), false);
}

#[test]
fn focused_maximized_instance_pauses_on_focus_alone() {
    // One instance focused+maximized, focus per-monitor, maximized off:
    // focus triggers the pause, independent of the maximized policy.
    let local = WindowStates { focused: true, maximized: true, fullscreen: false };
    let global = WindowStates { focused: true, maximized: true, fullscreen: false };
    let r = should_pause(
        false,
        false,
        PauseMode::PerMonitor,
        PauseMode::Off,
        PauseMode::Off,
        PauseMode::Off,
        local,
        global,
    );
    assert_eq!(r, true);
}

#[test]
fn window_state_words_are_read_case_insensitively() {
    let w = WindowInfo { focused: false, window_state: "Maximized".to_string() };
    let f = window_flags(&w);
    assert!(f.maximized);
    assert!(!f.fullscreen);
    let w2 = WindowInfo { focused: true, window_state: "full screen".to_string() };
    let f2 = window_flags(&w2);
    assert!(f2.focused);
    assert!(f2.fullscreen);
    let w3 = WindowInfo { focused: false, window_state: "maximised".to_string() };
    assert!(window_flags(&w3).maximized);
}

#[test]
fn monitor_fold_is_any_window() {
    let windows = vec![
        WindowInfo { focused: false, window_state: String::new() },
        WindowInfo { focused: true, window_state: "maximized".to_string() },
    ];
    let st = monitor_window_states(&windows);
    assert!(st.focused);
    assert!(st.maximized);
    assert!(!st.fullscreen);
}

#[test]
fn monitor_lookup_by_id_defaults_when_missing() {
    let entries = vec![MonitorAppData {
        monitor_id: "m1".to_string(),
        windows: vec![WindowInfo { focused: true, window_state: String::new() }],
    }];
    assert!(monitor_states_by_id(&entries, "m1").focused);
    assert!(!monitor_states_by_id(&entries, "m2").focused);
}

#[test]
fn global_fold_is_none_when_no_condition_holds() {
    let quiet = vec![MonitorAppData {
        monitor_id: "m1".to_string(),
        windows: vec![WindowInfo { focused: false, window_state: String::new() }],
    }];
    assert!(global_window_states(&quiet).is_none());
    let busy = vec![MonitorAppData {
        monitor_id: "m1".to_string(),
        windows: vec![WindowInfo { focused: true, window_state: String::new() }],
    }];
    let st = global_window_states(&busy).unwrap();
    assert!(st.focused);
}

#[test]
fn fullscreen_judgment_uses_epsilon_and_chrome() {
    let mon = Rect { left: 0, top: 0, right: 1920, bottom: 1080 };
    let exact = Rect { left: 0, top: 0, right: 1920, bottom: 1080 };
    let near = Rect { left: -1, top: 1, right: 1919, bottom: 1081 };
    let off = Rect { left: 0, top: 0, right: 1900, bottom: 1080 };
    assert!(rect_matches_monitor(exact, mon));
    assert!(rect_matches_monitor(near, mon));
    assert!(!rect_matches_monitor(off, mon));
    // No chrome: fullscreen. A caption bit denies it.
    assert!(judge_fullscreen(exact, mon, 0));
    assert!(!judge_fullscreen(exact, mon, 0x00C00000));
    assert!(!judge_fullscreen(off, mon, 0));
}

#[test]
fn shell_window_classes_are_recognized() {
    assert!(is_shell_window_class("Progman"));
    assert!(is_shell_window_class("WorkerW"));
    assert!(is_shell_window_class("Shell_TrayWnd"));
    assert!(is_shell_window_class("shell_secondarytraywnd"));
    assert!(!is_shell_window_class("Chrome_WidgetWin_1"));
}

#[test]
fn battery_status_words_decide_first() {
    let on = PowerStatus {
        ac_status: "Battery".to_string(),
        battery_present: None,
        battery_charging: None,
    };
    let plugged = PowerStatus {
        ac_status: "online".to_string(),
        battery_present: Some(true),
        battery_charging: Some(false),
    };
    let unknown_discharging = PowerStatus {
        ac_status: "weird".to_string(),
        battery_present: Some(true),
        battery_charging: Some(false),
    };
    let unknown_charging = PowerStatus {
        ac_status: String::new(),
        battery_present: Some(true),
        battery_charging: Some(true),
    };
    assert!(power_on_battery(&Some(on)));
    assert!(!power_on_battery(&Some(plugged)));
    assert!(power_on_battery(&Some(unknown_discharging)));
    assert!(!power_on_battery(&Some(unknown_charging)));
    assert!(!power_on_battery(&None));
}

#[test]
fn idle_trigger_needs_threshold_and_reading() {
    assert!(idle_triggered(Some(1000), Some(1000)));
    assert!(idle_triggered(Some(1000), Some(5000)));
    assert!(!idle_triggered(Some(1000), Some(999)));
    assert!(!idle_triggered(None, Some(99999)));
    assert!(!idle_triggered(Some(1000), None));
}

#[test]
fn monitor_identity_resolves_by_overlap() {
    let displays = vec![
        DisplayInfo { id: Some("left".to_string()), x: 0, y: 0, width: 100, height: 100 },
        DisplayInfo { id: Some("right".to_string()), x: 100, y: 0, width: 100, height: 100 },
    ];
    let rect_right = Rect { left: 90, top: 0, right: 190, bottom: 100 };
    assert_eq!(
        resolve_monitor_id_for_rect(&displays, rect_right),
        Some("right".to_string())
    );
    // A detached rectangle falls to the first valid display.
    let far = Rect { left: 5000, top: 5000, right: 5100, bottom: 5100 };
    assert_eq!(resolve_monitor_id_for_rect(&displays, far), Some("left".to_string()));
    // Zero-size or id-less displays are unusable.
    let invalid = vec![
        DisplayInfo { id: Some("zero".to_string()), x: 0, y: 0, width: 0, height: 100 },
        DisplayInfo { id: None, x: 0, y: 0, width: 100, height: 100 },
    ];
    assert_eq!(resolve_monitor_id_for_rect(&invalid, rect_right), None);
}
