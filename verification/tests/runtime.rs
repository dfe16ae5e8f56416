use sentinel_wallpaper::assets::{LaunchSource, RegistryAsset};
use sentinel_wallpaper::config::{PauseMode, PausingSettings, WallpaperConfig};
use sentinel_wallpaper::geometry::Rect;
use sentinel_wallpaper::pause::{
    DisplayInfo, MonitorAppData, PowerStatus, SystemSnapshot, WindowInfo, WindowStates,
};
use sentinel_wallpaper::runtime::{
    plan_apply, ForegroundObs, RegistryUpdate, RuntimeState,
};
use sentinel_wallpaper::topology::MonitorArea;

fn monitor(index: usize, primary: bool, left: i32) -> MonitorArea {
    MonitorArea {
        index,
        primary,
        rect: Rect { left, top: 0, right: left + 100, bottom: 100 },
    }
}

fn profile(section: &str, keys: Vec<&str>, mode: &str, id: &str) -> WallpaperConfig {
    WallpaperConfig {
        section: section.to_string(),
        enabled: true,
        monitor_index: keys.into_iter().map(|s| s.to_string()).collect(),
        mode: mode.to_string(),
        z_index: "desktop".to_string(),
        wallpaper_id: id.to_string(),
        pause_focus_mode: PauseMode::PerMonitor,
        pause_maximized_mode: PauseMode::Off,
        pause_fullscreen_mode: PauseMode::Off,
        pause_battery_mode: PauseMode::Off,
    }
}

fn asset(id: &str) -> RegistryAsset {
    RegistryAsset {
        id: id.to_string(),
        category: "wallpaper".to_string(),
        dir: format!("C:\\assets\\{}", id),
        source: LaunchSource::Url(format!("http://host/{}", id)),
    }
}

fn pausing() -> PausingSettings {
    PausingSettings {
        focus: PauseMode::Off,
        maximized: PauseMode::Off,
        fullscreen: PauseMode::Off,
        check_interval_ms: 500,
        idle_timeout_ms: 0,
    }
}

#[test]
fn plan_assigns_each_monitor_once_across_priorities() {
    // A wildcard profile and an explicit-primary profile: the primary
    // profile wins its monitor, the wildcard takes the rest.
    let profiles = vec![
        profile("wallpaper", vec!["*"], "fill", "a"),
        profile("wallpaper2", vec!["p"], "fill", "b"),
    ];
    let assets = vec![asset("a"), asset("b")];
    let monitors = vec![monitor(0, false, 0), monitor(1, true, 100)];
    let plan = plan_apply(&profiles, &assets, &monitors);
    assert_eq!(plan.len(), 2);
    // The primary profile planned first despite being listed second.
    assert_eq!(plan[0].section, "wallpaper2");
    assert_eq!(plan[0].monitor.index, 1);
    assert_eq!(plan[1].section, "wallpaper");
    assert_eq!(plan[1].monitor.index, 0);
    assert_eq!(plan[0].url, "http://host/b");
}

#[test]
fn span_mode_collapses_targets_into_one_launch() {
    let profiles = vec![profile("wallpaper", vec!["*"], "span", "a")];
    let assets = vec![asset("a")];
    let monitors = vec![monitor(0, false, 0), monitor(1, true, 100)];
    let plan = plan_apply(&profiles, &assets, &monitors);
    assert_eq!(plan.len(), 1);
    assert_eq!(plan[0].monitor.rect, Rect { left: 0, top: 0, right: 200, bottom: 100 });
    assert!(plan[0].monitor.primary);
}

#[test]
fn unresolved_profiles_fail_softly() {
    let profiles = vec![
        profile("wallpaper", vec!["0"], "fill", "missing"),
        profile("wallpaper2", vec!["1"], "fill", "dark"),
        profile("wallpaper3", vec!["0"], "fill", "nourl"),
    ];
    let assets = vec![
        asset("dark"),
        RegistryAsset {
            id: "nourl".to_string(),
            category: "wallpaper".to_string(),
            dir: "C:\\assets\\nourl".to_string(),
            source: LaunchSource::Unavailable,
        },
    ];
    let monitors = vec![monitor(0, false, 0), monitor(1, true, 100)];
    let plan = plan_apply(&profiles, &assets, &monitors);
    assert_eq!(plan.len(), 1);
    assert_eq!(plan[0].section, "wallpaper2");
}

#[test]
fn reapply_recreates_the_same_instances() {
    // An identical re-apply replaces the hosted set with an identical one:
    // one instance per monitor, nothing left over.
    let profiles = vec![profile("wallpaper", vec!["*"], "fill", "a")];
    let assets = vec![asset("a")];
    let monitors = vec![monitor(0, false, 0), monitor(1, true, 100)];
    let mut state = RuntimeState::new(0);
    state.apply(&profiles, &assets, &monitors, &pausing(), true, 0);
    let first: Vec<(String, usize, bool)> = state
        .hosted
        .iter()
        .map(|h| (h.source_url.clone(), h.monitor_index, h.paused))
        .collect();
    assert_eq!(state.hosted.len(), 2);
    state.apply(&profiles, &assets, &monitors, &pausing(), true, 10);
    let second: Vec<(String, usize, bool)> = state
        .hosted
        .iter()
        .map(|h| (h.source_url.clone(), h.monitor_index, h.paused))
        .collect();
    assert_eq!(first, second);
    // No duplicate monitor claims.
    assert_ne!(state.hosted[0].monitor_index, state.hosted[1].monitor_index);
}

#[test]
fn apply_without_monitors_hosts_nothing() {
    let profiles = vec![profile("wallpaper", vec!["*"], "fill", "a")];
    let assets = vec![asset("a")];
    let mut state = RuntimeState::new(0);
    state.apply(&profiles, &assets, &Vec::new(), &pausing(), true, 0);
    assert_eq!(state.hosted.len(), 0);
}

fn quiet_update(payload: &str) -> RegistryUpdate {
    RegistryUpdate {
        system: SystemSnapshot {
            displays: vec![DisplayInfo {
                id: Some("d0".to_string()),
                x: 0,
                y: 0,
                width: 100,
                height: 100,
            }],
            idle_ms: Some(0),
            power: None,
        },
        app_data: Vec::new(),
        payload: payload.to_string(),
    }
}

#[test]
fn tick_gates_cadences_and_payload_delivery() {
    let profiles = vec![profile("wallpaper", vec!["*"], "fill", "a")];
    let assets = vec![asset("a")];
    let monitors = vec![monitor(0, true, 0)];
    let mut state = RuntimeState::new(0);
    state.apply(&profiles, &assets, &monitors, &pausing(), true, 0);

    // First tick with a fresh payload: demands change, payload delivered,
    // cadences not yet due.
    let a1 = state.tick(100, Some(quiet_update("p1")));
    assert!(a1.send_demands.is_some());
    assert_eq!(a1.send_demands.unwrap().len(), 17);
    assert!(a1.deliver_payload);
    assert!(!a1.evaluate_pause);
    assert!(!a1.save_snapshot);

    // Same payload again: no delivery; pause evaluation becomes due.
    let a2 = state.tick(600, Some(quiet_update("p1")));
    assert!(a2.send_demands.is_none());
    assert!(!a2.deliver_payload);
    assert!(a2.evaluate_pause);
    assert!(a2.check_editables);

    // A changed payload is delivered again; the snapshot save comes due
    // after five seconds.
    let a3 = state.tick(5600, Some(quiet_update("p2")));
    assert!(a3.deliver_payload);
    assert!(a3.save_snapshot);

    // A failed pull suppresses delivery, editables and the keep-fresh
    // save, but the pause cadence still runs on its own interval: a single
    // pull failure is recoverable.
    let a4 = state.tick(6200, None);
    assert!(!state.registry_connected);
    assert!(!a4.deliver_payload);
    assert!(!a4.check_editables);
    assert!(!a4.save_snapshot);
    assert!(a4.evaluate_pause);

    // And a disconnected tick before the interval elapses does not.
    let a5 = state.tick(6300, None);
    assert!(!a5.evaluate_pause);
}

#[test]
fn pause_sync_pauses_focused_instance_and_signals_snapshot() {
    let profiles = vec![profile("wallpaper", vec!["*"], "fill", "a")];
    let assets = vec![asset("a")];
    let monitors = vec![monitor(0, true, 0)];
    let mut state = RuntimeState::new(0);
    state.apply(&profiles, &assets, &monitors, &pausing(), true, 0);

    // Telemetry: a focused window on the instance's monitor.
    let update = RegistryUpdate {
        system: SystemSnapshot {
            displays: vec![DisplayInfo {
                id: Some("d0".to_string()),
                x: 0,
                y: 0,
                width: 100,
                height: 100,
            }],
            idle_ms: Some(0),
            power: Some(PowerStatus {
                ac_status: "online".to_string(),
                battery_present: Some(true),
                battery_charging: Some(true),
            }),
        },
        app_data: vec![MonitorAppData {
            monitor_id: "d0".to_string(),
            windows: vec![WindowInfo { focused: true, window_state: String::new() }],
        }],
        payload: "p".to_string(),
    };
    let _ = state.tick(100, Some(update));
    let outcome = state.sync_pause_state_now(false, None, false);
    assert!(outcome.states_changed);
    assert_eq!(outcome.flipped, vec![0]);
    assert!(state.hosted[0].paused);
    assert_eq!(state.hosted[0].monitor_id, Some("d0".to_string()));
    // The newly paused instance forces a snapshot capture, applied to the
    // desktop because everything is paused now.
    assert!(outcome.capture_snapshot);
    assert!(outcome.apply_snapshot_to_desktop);
    assert!(!outcome.unpaused_transition);

    // The focus moves away: the instance unpauses, and leaving the
    // all-paused state signals the re-apply.
    let calm = RegistryUpdate {
        system: SystemSnapshot {
            displays: vec![DisplayInfo {
                id: Some("d0".to_string()),
                x: 0,
                y: 0,
                width: 100,
                height: 100,
            }],
            idle_ms: Some(0),
            power: None,
        },
        app_data: vec![MonitorAppData {
            monitor_id: "d0".to_string(),
            windows: vec![WindowInfo { focused: false, window_state: String::new() }],
        }],
        payload: "p2".to_string(),
    };
    let _ = state.tick(700, Some(calm));
    let outcome2 = state.sync_pause_state_now(true, None, false);
    assert!(outcome2.states_changed);
    assert!(!state.hosted[0].paused);
    assert!(outcome2.unpaused_transition);
    assert!(!outcome2.capture_snapshot);
}

#[test]
fn shell_foreground_suppresses_focus_systemwide() {
    let profiles = vec![profile("wallpaper", vec!["*"], "fill", "a")];
    let assets = vec![asset("a")];
    let monitors = vec![monitor(0, true, 0)];
    let mut state = RuntimeState::new(0);
    state.apply(&profiles, &assets, &monitors, &pausing(), true, 0);
    let fg = ForegroundObs {
        monitor_rect: Rect { left: 0, top: 0, right: 100, bottom: 100 },
        states: WindowStates { focused: true, maximized: false, fullscreen: false },
    };
    let _ = state.tick(100, Some(quiet_update("p")));
    // With the shell foreground, the focused flag never pauses anything.
    let outcome = state.sync_pause_state_now(false, Some(fg), true);
    assert!(!outcome.states_changed);
    assert!(!state.hosted[0].paused);
}

#[test]
fn asset_dir_bookkeeping() {
    let profiles = vec![
        profile("wallpaper", vec!["0"], "fill", "a"),
        profile("wallpaper2", vec!["1"], "fill", "a"),
        profile("wallpaper3", vec!["2"], "fill", "b"),
    ];
    let assets = vec![asset("a"), asset("b")];
    let monitors = vec![monitor(0, true, 0), monitor(1, false, 100), monitor(2, false, 200)];
    let mut state = RuntimeState::new(0);
    state.apply(&profiles, &assets, &monitors, &pausing(), true, 0);
    assert_eq!(state.hosted.len(), 3);
    let dirs = state.active_asset_dirs();
    assert_eq!(dirs, vec!["C:\\assets\\a".to_string(), "C:\\assets\\b".to_string()]);
    let targets = state.reload_wallpapers_for_asset_dir("C:\\assets\\a");
    assert_eq!(targets, vec![0, 1]);
    assert!(state.monitors_changed(&vec![monitor(0, true, 0)]));
    assert!(!state.monitors_changed(&monitors));
}
