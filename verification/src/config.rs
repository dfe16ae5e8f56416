//! Configuration data for the wallpaper runtime: the tri-state pause policy
//! and the plain settings blocks that govern pausing, watching, runtime
//! cadence and diagnostics.

use crate::text::{
    digits_val, eq_ignore_case_seq, is_digit_seq, parse_usize, str_eq, str_eq_ignore_case,
    str_starts_with, trim, trim_seq,
};
use vstd::prelude::*;

verus! {

/// Tri-state pause policy for one trigger axis (focus, maximized, fullscreen
/// or battery). `Off` never pauses; `PerMonitor` pauses an instance only when
/// its own monitor shows the condition; `AllMonitors` pauses when any monitor
/// does.
#[derive(Debug, Clone, Copy, PartialEq, Eq, Structural)]
pub enum PauseMode {
    Off,
    PerMonitor,
    AllMonitors,
}

/// The pause mode denoted by a configuration word, after trimming and
/// ignoring ASCII case; `None` for an unrecognized word.
pub open spec fn pause_mode_of_word(s: Seq<char>) -> Option<PauseMode> {
    let t = trim_seq(s);
    if eq_ignore_case_seq(t, "off"@) || eq_ignore_case_seq(t, "none"@) || eq_ignore_case_seq(
        t,
        "disabled"@,
    ) || eq_ignore_case_seq(t, "false"@) {
        Some(PauseMode::Off)
    } else if eq_ignore_case_seq(t, "per-monitor"@) || eq_ignore_case_seq(t, "per_monitor"@)
        || eq_ignore_case_seq(t, "permonitor"@) || eq_ignore_case_seq(t, "monitor"@)
        || eq_ignore_case_seq(t, "true"@) {
        Some(PauseMode::PerMonitor)
    } else if eq_ignore_case_seq(t, "all-monitors"@) || eq_ignore_case_seq(t, "all_monitors"@)
        || eq_ignore_case_seq(t, "allmonitors"@) || eq_ignore_case_seq(t, "global"@)
        || eq_ignore_case_seq(t, "all"@) {
        Some(PauseMode::AllMonitors)
    } else {
        None
    }
}

impl PauseMode {
    /// Reads a configuration word such as `"off"`, `"per-monitor"` or
    /// `"all"`, ignoring surrounding whitespace and ASCII case.
    pub fn parse(value: &str) -> (r: Option<Self>)
        ensures
            r == pause_mode_of_word(value@),
    {
        let t = trim(value);
        if str_eq_ignore_case(t, "off") || str_eq_ignore_case(t, "none") || str_eq_ignore_case(
            t,
            "disabled",
        ) || str_eq_ignore_case(t, "false") {
            Some(PauseMode::Off)
        } else if str_eq_ignore_case(t, "per-monitor") || str_eq_ignore_case(t, "per_monitor")
            || str_eq_ignore_case(t, "permonitor") || str_eq_ignore_case(t, "monitor")
            || str_eq_ignore_case(t, "true") {
            Some(PauseMode::PerMonitor)
        } else if str_eq_ignore_case(t, "all-monitors") || str_eq_ignore_case(t, "all_monitors")
            || str_eq_ignore_case(t, "allmonitors") || str_eq_ignore_case(t, "global")
            || str_eq_ignore_case(t, "all") {
            Some(PauseMode::AllMonitors)
        } else {
            None
        }
    }

    /// Older configurations carried a plain boolean per axis; `true` meant
    /// "pause when this instance's monitor shows the condition".
    pub fn from_legacy_bool(value: bool) -> (r: Self)
        ensures
            r == (if value {
                PauseMode::PerMonitor
            } else {
                PauseMode::Off
            }),
    {
        if value {
            PauseMode::PerMonitor
        } else {
            PauseMode::Off
        }
    }
}

/// Global defaults for the three pause axes and the evaluation cadence.
#[derive(Debug, Clone, Copy, PartialEq, Eq, Structural)]
pub struct PausingSettings {
    pub focus: PauseMode,
    pub maximized: PauseMode,
    pub fullscreen: PauseMode,
    pub check_interval_ms: u64,
    pub idle_timeout_ms: u64,
}

impl Default for PausingSettings {
    fn default() -> (r: Self)
        ensures
            r.focus == PauseMode::Off,
            r.maximized == PauseMode::Off,
            r.fullscreen == PauseMode::Off,
            r.check_interval_ms == 500,
            r.idle_timeout_ms == 0,
    {
        PausingSettings {
            focus: PauseMode::Off,
            maximized: PauseMode::Off,
            fullscreen: PauseMode::Off,
            check_interval_ms: 500,
            idle_timeout_ms: 0,
        }
    }
}

/// Content file watcher toggles.
#[derive(Debug, Clone, Copy, PartialEq, Eq, Structural)]
pub struct WatcherSettings {
    pub enabled: bool,
    pub interval_ms: u64,
}

impl Default for WatcherSettings {
    fn default() -> (r: Self)
        ensures
            r.enabled,
            r.interval_ms == 600,
    {
        WatcherSettings { enabled: true, interval_ms: 600 }
    }
}

/// Main tick loop cadence and the re-apply policy on unpause.
#[derive(Debug, Clone, Copy, PartialEq, Eq, Structural)]
pub struct RuntimeSettings {
    pub tick_sleep_ms: u64,
    pub reapply_on_pause_change: bool,
}

impl Default for RuntimeSettings {
    fn default() -> (r: Self)
        ensures
            r.tick_sleep_ms == 8,
            r.reapply_on_pause_change,
    {
        RuntimeSettings { tick_sleep_ms: 8, reapply_on_pause_change: true }
    }
}

/// Diagnostic logging toggles.
#[derive(Debug, Clone, Copy, PartialEq, Eq, Structural)]
pub struct DiagnosticsSettings {
    pub log_pause_state_changes: bool,
    pub log_watcher_reloads: bool,
}

impl Default for DiagnosticsSettings {
    fn default() -> (r: Self)
        ensures
            r.log_pause_state_changes,
            r.log_watcher_reloads,
    {
        DiagnosticsSettings { log_pause_state_changes: true, log_watcher_reloads: true }
    }
}

/// Development toggles.
#[derive(Debug, Clone, PartialEq, Eq)]
pub struct DevelopmentSettings {
    pub update_check: bool,
    pub debug: bool,
    pub log_level: String,
}

impl Default for DevelopmentSettings {
    fn default() -> (r: Self)
        ensures
            r.update_check,
            !r.debug,
            r.log_level@ == "warn"@,
    {
        DevelopmentSettings {
            update_check: true,
            debug: false,
            log_level: String::from_str("warn"),
        }
    }
}

/// One wallpaper profile section from the configuration: which asset to host,
/// on which monitors, how, and when to pause it.
///
/// Invariant stated by [`WallpaperConfig::wf`]: the wallpaper id is non-empty.
#[derive(Debug, Clone, PartialEq, Eq)]
pub struct WallpaperConfig {
    pub section: String,
    pub enabled: bool,
    pub monitor_index: Vec<String>,
    pub mode: String,
    pub z_index: String,
    pub wallpaper_id: String,
    pub pause_focus_mode: PauseMode,
    pub pause_maximized_mode: PauseMode,
    pub pause_fullscreen_mode: PauseMode,
    pub pause_battery_mode: PauseMode,
}

impl WallpaperConfig {
    /// A profile is well formed when its wallpaper id is non-empty; profiles
    /// with an empty id are dropped at parse time, never hosted.
    pub open spec fn wf(&self) -> bool {
        self.wallpaper_id@.len() > 0
    }
}

/// The ordering key of a wallpaper section name: the bare `wallpaper`
/// section first, then numbered `wallpaper<N>` sections by number, then
/// everything else.
pub open spec fn section_key_spec(s: Seq<char>) -> (int, int) {
    let suffix = s.skip("wallpaper"@.len() as int);
    if s == "wallpaper"@ {
        (0, 0)
    } else if "wallpaper"@.is_prefix_of(s) && is_digit_seq(suffix) && digits_val(suffix)
        <= u32::MAX {
        (1, digits_val(suffix))
    } else {
        (2, u32::MAX as int)
    }
}

/// The sort key that orders wallpaper profile sections: rank, number, and
/// the section name itself as the final tiebreak.
pub fn section_order_key(section: &str) -> (r: (u8, u32, String))
    ensures
        r.0 as int == section_key_spec(section@).0,
        r.1 as int == section_key_spec(section@).1,
        r.2@ == section@,
{
    let name = String::from_str(section);
    if str_eq(section, "wallpaper") {
        return (0, 0, name);
    }
    if str_starts_with(section, "wallpaper") {
        let plen = "wallpaper".unicode_len();
        let len = section.unicode_len();
        let suffix = section.substring_char(plen, len);
        proof {
            assert(suffix@ =~= section@.skip("wallpaper"@.len() as int));
        }
        if let Some(v) = parse_usize(suffix) {
            if v <= u32::MAX as usize {
                return (1, v as u32, name);
            }
        }
    }
    (2, u32::MAX, name)
}

} // verus!
