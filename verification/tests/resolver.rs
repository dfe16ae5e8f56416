use sentinel_wallpaper::assets::{
    parse_selector_token, path_to_file_url, profile_priority, resolve_asset, resolve_asset_url,
    resolve_target_monitors, add_reload_nonce, filter_wallpaper_assets, LaunchSource,
    RegistryAsset, SelectorToken,
};
use sentinel_wallpaper::config::{PauseMode, WallpaperConfig};
use sentinel_wallpaper::geometry::Rect;
use sentinel_wallpaper::topology::MonitorArea;

fn monitor(index: usize, primary: bool, left: i32) -> MonitorArea {
    MonitorArea {
        index,
        primary,
        rect: Rect { left, top: 0, right: left + 100, bottom: 100 },
    }
}

fn three_monitors() -> Vec<MonitorArea> {
    vec![monitor(0, false, 0), monitor(1, true, 100), monitor(2, false, 200)]
}

#[test]
fn primary_token_resolves_to_primary_monitor() {
    let monitors = three_monitors();
    let keys = vec!["p".to_string()];
    let targets = resolve_target_monitors(&monitors, &keys, &Vec::new());
    assert_eq!(targets.len(), 1);
    assert_eq!(targets[0].index, 1);
    assert!(targets[0].primary);
}

#[test]
fn assigned_monitors_are_excluded() {
    let monitors = three_monitors();
    let keys = vec!["0".to_string(), "1".to_string()];
    let assigned = vec![0usize];
    let targets = resolve_target_monitors(&monitors, &keys, &assigned);
    assert_eq!(targets.len(), 1);
    assert_eq!(targets[0].index, 1);
}

#[test]
fn wildcard_resolves_all_in_topology_order() {
    let monitors = three_monitors();
    let keys = vec!["*".to_string()];
    let targets = resolve_target_monitors(&monitors, &keys, &Vec::new());
    assert_eq!(targets.len(), 3);
    assert_eq!(targets[0].index, 0);
    assert_eq!(targets[1].index, 1);
    assert_eq!(targets[2].index, 2);
}

#[test]
fn duplicate_tokens_never_pick_a_monitor_twice() {
    let monitors = three_monitors();
    let keys = vec![
        "p".to_string(),
        "1".to_string(),
        "1".to_string(),
        "*".to_string(),
    ];
    let targets = resolve_target_monitors(&monitors, &keys, &Vec::new());
    assert_eq!(targets.len(), 3);
    assert_eq!(targets[0].index, 1);
    assert_eq!(targets[1].index, 0);
    assert_eq!(targets[2].index, 2);
}

#[test]
fn selector_tokens_parse() {
    assert_eq!(parse_selector_token("p"), SelectorToken::Primary);
    assert_eq!(parse_selector_token("P"), SelectorToken::Primary);
    assert_eq!(parse_selector_token("*"), SelectorToken::AllRemaining);
    assert_eq!(parse_selector_token("2"), SelectorToken::Index(2));
    assert_eq!(parse_selector_token("007"), SelectorToken::Index(7));
    assert_eq!(parse_selector_token("x"), SelectorToken::Unrecognized);
    assert_eq!(parse_selector_token(""), SelectorToken::Unrecognized);
}

fn profile(keys: Vec<&str>) -> WallpaperConfig {
    WallpaperConfig {
        section: "wallpaper".to_string(),
        enabled: true,
        monitor_index: keys.into_iter().map(|s| s.to_string()).collect(),
        mode: "fill".to_string(),
        z_index: "desktop".to_string(),
        wallpaper_id: "w".to_string(),
        pause_focus_mode: PauseMode::Off,
        pause_maximized_mode: PauseMode::Off,
        pause_fullscreen_mode: PauseMode::Off,
        pause_battery_mode: PauseMode::Off,
    }
}

#[test]
fn launch_priority_orders_primary_then_explicit_then_wildcard() {
    assert_eq!(profile_priority(&profile(vec!["p", "*"])), 0);
    assert_eq!(profile_priority(&profile(vec!["0", "2"])), 1);
    assert_eq!(profile_priority(&profile(vec!["*"])), 2);
}

fn asset(id: &str, category: &str, source: LaunchSource) -> RegistryAsset {
    RegistryAsset {
        id: id.to_string(),
        category: category.to_string(),
        dir: format!("C:\\assets\\{}", id),
        source,
    }
}

#[test]
fn asset_resolution_matches_exact_id() {
    let assets = vec![
        asset("a", "wallpaper", LaunchSource::Unavailable),
        asset("b", "wallpaper", LaunchSource::Url("http://b".to_string())),
    ];
    assert_eq!(resolve_asset(&assets, "b"), Some(1));
    assert_eq!(resolve_asset(&assets, "missing"), None);
}

#[test]
fn asset_url_resolution_prefers_metadata_url_then_local_index() {
    let by_url = asset("a", "wallpaper", LaunchSource::Url("http://a".to_string()));
    let local = asset(
        "b",
        "wallpaper",
        LaunchSource::LocalIndex("C:\\assets\\b\\index.html".to_string()),
    );
    let none = asset("c", "wallpaper", LaunchSource::Unavailable);
    assert_eq!(resolve_asset_url(&by_url), Some("http://a".to_string()));
    assert_eq!(
        resolve_asset_url(&local),
        Some("file:///C:/assets/b/index.html".to_string())
    );
    assert_eq!(resolve_asset_url(&none), None);
}

#[test]
fn category_filter_keeps_wallpaper_assets_only() {
    let assets = vec![
        asset("a", "wallpaper", LaunchSource::Unavailable),
        asset("b", "Widget", LaunchSource::Unavailable),
        asset("c", "WALLPAPER", LaunchSource::Unavailable),
    ];
    let kept = filter_wallpaper_assets(assets);
    assert_eq!(kept.len(), 2);
    assert_eq!(kept[0].id, "a");
    assert_eq!(kept[1].id, "c");
}

#[test]
fn path_to_file_url_normalizes_backslashes() {
    assert_eq!(path_to_file_url("C:\\a\\b.html"), "file:///C:/a/b.html");
    assert_eq!(path_to_file_url("plain/path.html"), "file:///plain/path.html");
}

#[test]
fn reload_nonce_appends_after_query_separator() {
    assert_eq!(
        add_reload_nonce("http://x/page", 42),
        "http://x/page?__sentinel_reload=42"
    );
    assert_eq!(
        add_reload_nonce("http://x/page?a=1", 7),
        "http://x/page?a=1&__sentinel_reload=7"
    );
}

#[test]
fn assigned_primary_is_skipped_by_the_primary_token() {
    let monitors = three_monitors();
    let keys = vec!["p".to_string()];
    let assigned = vec![1usize];
    let targets = resolve_target_monitors(&monitors, &keys, &assigned);
    assert!(targets.is_empty());
}

#[test]
fn out_of_range_and_unrecognized_tokens_resolve_nothing() {
    let monitors = three_monitors();
    let keys = vec!["9".to_string(), "left".to_string()];
    let targets = resolve_target_monitors(&monitors, &keys, &Vec::new());
    assert!(targets.is_empty());
}
