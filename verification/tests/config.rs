use sentinel_wallpaper::config::{
    section_order_key, DevelopmentSettings, DiagnosticsSettings, PauseMode, PausingSettings,
    RuntimeSettings, WatcherSettings,
};
use sentinel_wallpaper::geometry::Rect;
use sentinel_wallpaper::hostwin::{
    child_window_geometry, host_ex_style_bits, host_style_bits, z_band_for, ZBand,
};
use sentinel_wallpaper::logging::{should_log, LogSink};
use sentinel_wallpaper::paths;
use sentinel_wallpaper::text::{parse_usize, str_contains_ignore_case, trim, u64_to_dec};

#[test]
fn pause_mode_words_parse_with_trim_and_case() {
    assert_eq!(PauseMode::parse("off"), Some(PauseMode::Off));
    assert_eq!(PauseMode::parse(" None "), Some(PauseMode::Off));
    assert_eq!(PauseMode::parse("disabled"), Some(PauseMode::Off));
    assert_eq!(PauseMode::parse("false"), Some(PauseMode::Off));
    assert_eq!(PauseMode::parse("Per-Monitor"), Some(PauseMode::PerMonitor));
    assert_eq!(PauseMode::parse("per_monitor"), Some(PauseMode::PerMonitor));
    assert_eq!(PauseMode::parse("TRUE"), Some(PauseMode::PerMonitor));
    assert_eq!(PauseMode::parse("all-monitors"), Some(PauseMode::AllMonitors));
    assert_eq!(PauseMode::parse("GLOBAL"), Some(PauseMode::AllMonitors));
    assert_eq!(PauseMode::parse("all"), Some(PauseMode::AllMonitors));
    assert_eq!(PauseMode::parse("sometimes"), None);
    assert_eq!(PauseMode::from_legacy_bool(true), PauseMode::PerMonitor);
    assert_eq!(PauseMode::from_legacy_bool(false), PauseMode::Off);
}

#[test]
fn section_names_order_bare_then_numbered_then_rest() {
    let a = section_order_key("wallpaper");
    let b = section_order_key("wallpaper2");
    let c = section_order_key("wallpaper10");
    let d = section_order_key("other");
    assert_eq!((a.0, a.1), (0, 0));
    assert_eq!((b.0, b.1), (1, 2));
    assert_eq!((c.0, c.1), (1, 10));
    assert_eq!((d.0, d.1), (2, u32::MAX));
    assert!(a < b && b < c && c < d);
}

#[test]
fn settings_defaults() {
    let p = PausingSettings::default();
    assert_eq!(p.focus, PauseMode::Off);
    assert_eq!(p.check_interval_ms, 500);
    assert_eq!(p.idle_timeout_ms, 0);
    let w = WatcherSettings::default();
    assert!(w.enabled);
    assert_eq!(w.interval_ms, 600);
    let r = RuntimeSettings::default();
    assert_eq!(r.tick_sleep_ms, 8);
    assert!(r.reapply_on_pause_change);
    let d = DiagnosticsSettings::default();
    assert!(d.log_pause_state_changes && d.log_watcher_reloads);
    let dev = DevelopmentSettings::default();
    assert!(dev.update_check && !dev.debug);
    assert_eq!(dev.log_level, "warn");
}

#[test]
fn text_helpers() {
    assert_eq!(trim("  x y  "), "x y");
    assert_eq!(trim(""), "");
    assert_eq!(parse_usize("0"), Some(0));
    assert_eq!(parse_usize("123"), Some(123));
    assert_eq!(parse_usize(""), None);
    assert_eq!(parse_usize("12a"), None);
    assert_eq!(parse_usize("99999999999999999999999999"), None);
    assert_eq!(u64_to_dec(0), "0");
    assert_eq!(u64_to_dec(90210), "90210");
    assert!(str_contains_ignore_case("state is MAXIMIZED now", "maximized"));
    assert!(!str_contains_ignore_case("maximize", "maximized"));
}

#[test]
fn path_layout() {
    let comps = |parts: &[&str]| -> Vec<String> {
        parts.iter().map(|s| s.to_string()).collect()
    };
    // The root is found by walking up from the addon directory.
    let addon_root = comps(&["C:", "Users", "u", ".Sentinel", "Addons", "wallpaper"]);
    let root = paths::sentinel_root_dir(&addon_root, &None).unwrap();
    assert_eq!(root, comps(&["C:", "Users", "u", ".Sentinel"]));
    // Or fallen back to under the home directory.
    let elsewhere = comps(&["D:", "tools", "wp"]);
    let home = Some(comps(&["C:", "Users", "u"]));
    let fallback = paths::sentinel_root_dir(&elsewhere, &home).unwrap();
    assert_eq!(fallback, comps(&["C:", "Users", "u", ".Sentinel"]));
    assert!(paths::sentinel_root_dir(&elsewhere, &None).is_none());

    assert_eq!(*paths::sentinel_assets_dir(&root).last().unwrap(), "Assets");
    assert_eq!(*paths::sentinel_addons_dir(&root).last().unwrap(), "Addons");
    assert_eq!(*paths::log_path(&root).last().unwrap(), "sentinel.wallpaper.log");

    // An executable inside bin/ belongs to the directory above bin.
    let exe = comps(&["C:", "app", "bin", "sentinel-wallpaper.exe"]);
    assert_eq!(paths::addon_root_dir(&exe).unwrap(), comps(&["C:", "app"]));
    let exe2 = comps(&["C:", "app", "sentinel-wallpaper.exe"]);
    assert_eq!(paths::addon_root_dir(&exe2).unwrap(), comps(&["C:", "app"]));

    let snap = paths::snapshot_file_path(&paths::sentinel_assets_dir(&root));
    assert_eq!(*snap.last().unwrap(), "paused_wallpaper_snapshot.bmp");
    assert_eq!(snap[snap.len() - 3], "wallpaper");
    assert_eq!(snap[snap.len() - 2], "snapshots");

    let cfg = paths::addon_config_path(&Some(comps(&["C:", "app"])), &None);
    assert_eq!(cfg, comps(&["C:", "app", "config.yaml"]));
}

#[test]
fn reload_ignores_manifest_temp_and_preview_paths() {
    let comps = |parts: &[&str]| -> Vec<String> {
        parts.iter().map(|s| s.to_string()).collect()
    };
    let meta = "meta.json";
    assert!(paths::should_ignore_asset_reload_path(&comps(&["a", "Meta.JSON"]), meta));
    assert!(paths::should_ignore_asset_reload_path(&comps(&["a", "x.tmp"]), meta));
    assert!(paths::should_ignore_asset_reload_path(&comps(&["a", "x.swp"]), meta));
    assert!(paths::should_ignore_asset_reload_path(&comps(&["a", "x.bak"]), meta));
    assert!(paths::should_ignore_asset_reload_path(&comps(&["a", ".~lock"]), meta));
    assert!(paths::should_ignore_asset_reload_path(&comps(&["a", "Preview", "1.png"]), meta));
    assert!(!paths::should_ignore_asset_reload_path(&comps(&["a", "index.html"]), meta));
    assert!(!paths::should_ignore_asset_reload_path(&Vec::new(), meta));
}

#[test]
fn log_gating_and_line_format() {
    assert!(should_log(false, "WARN"));
    assert!(should_log(false, "ERROR"));
    assert!(!should_log(false, "INFO"));
    assert!(should_log(true, "INFO"));
    let mut sink = LogSink::new(true);
    sink.enqueue("WARN", "2026-01-01 00:00:00.000", "hello");
    let lines = sink.drain();
    assert_eq!(lines, vec!["2026-01-01 00:00:00.000 [WARN] hello".to_string()]);
    assert_eq!(sink.lines.len(), 0);
}

#[test]
fn host_window_style_discipline() {
    let styled = host_style_bits(0xFFFF_FFFF);
    assert_eq!(styled & 0x00C0_0000, 0); // no caption
    assert_eq!(styled & 0x0004_0000, 0); // no sizing frame
    assert_eq!(styled & 0x0008_0000, 0); // no system menu
    assert_ne!(styled & 0x1000_0000, 0); // visible
    assert_ne!(styled & 0x4000_0000, 0); // child
    let ex = host_ex_style_bits(0xFFFF_FFFF);
    assert_eq!(ex & 0x0004_0000, 0); // no taskbar entry
    assert_ne!(ex & 0x0000_0080, 0); // tool window
    assert_ne!(ex & 0x0800_0000, 0); // no activation
}

#[test]
fn z_bands() {
    assert_eq!(z_band_for("desktop"), ZBand::Topmost);
    assert_eq!(z_band_for("BOTTOM"), ZBand::Bottom);
    assert_eq!(z_band_for("normal"), ZBand::NoTopmost);
    assert_eq!(z_band_for("top"), ZBand::Top);
    assert_eq!(z_band_for("overlay"), ZBand::Topmost);
    assert_eq!(z_band_for("mystery"), ZBand::Bottom);
}

#[test]
fn child_geometry_is_parent_relative() {
    let parent = Rect { left: -10, top: -20, right: 1000, bottom: 1000 };
    let target = Rect { left: 100, top: 200, right: 300, bottom: 500 };
    let (x, y, w, h) = child_window_geometry(parent, target);
    assert_eq!((x, y, w, h), (110, 220, 200, 300));
}

#[test]
fn install_dir_prefix_test() {
    let comps = |parts: &[&str]| -> Vec<String> {
        parts.iter().map(|s| s.to_string()).collect()
    };
    // The running executable is inside the install directory's bin folder.
    let exe = comps(&["C:", "Users", "u", ".Sentinel", "Addons", "wallpaper", "bin", "w.exe"]);
    let install_bin = comps(&["C:", "Users", "u", ".Sentinel", "Addons", "wallpaper", "bin"]);
    assert!(paths::path_starts_with(&exe, &install_bin));
    let elsewhere = comps(&["D:", "downloads", "w.exe"]);
    assert!(!paths::path_starts_with(&elsewhere, &install_bin));
}
