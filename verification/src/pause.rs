//! The pause engine's signal model: per-window focus/maximized/fullscreen
//! flags, their per-monitor and global folds, battery and idle triggers, and
//! the tri-state policy that turns signals into a pause decision.
//!
//! The telemetry itself arrives from outside as plain values; everything that
//! decides is here and verified.

use crate::config::PauseMode;
use crate::geometry::{rect_matches_monitor, rects_match, Rect};
use crate::text::{
    contains_ignore_case_seq, eq_ignore_case_seq, str_contains_ignore_case, str_eq,
    str_eq_ignore_case,
};
use vstd::prelude::*;

verus! {

/// The three window conditions the pause engine watches, for one monitor or
/// for the whole system.
#[derive(Debug, Clone, Copy, PartialEq, Eq, Structural)]
pub struct WindowStates {
    pub focused: bool,
    pub maximized: bool,
    pub fullscreen: bool,
}

impl Default for WindowStates {
    /// All three conditions off.
    fn default() -> (r: Self)
        ensures
            !r.focused,
            !r.maximized,
            !r.fullscreen,
    {
        WindowStates { focused: false, maximized: false, fullscreen: false }
    }
}

/// One window as reported by the data bridge: whether it has focus, and its
/// reported state word (such as `"maximized"` or `"fullscreen"`).
#[derive(Debug, Clone, PartialEq, Eq)]
pub struct WindowInfo {
    pub focused: bool,
    pub window_state: String,
}

/// The windows the data bridge reports for one monitor, keyed by the
/// monitor's telemetry identity.
#[derive(Debug, Clone, PartialEq, Eq)]
pub struct MonitorAppData {
    pub monitor_id: String,
    pub windows: Vec<WindowInfo>,
}

/// Whether a reported state word names a maximized window.
pub open spec fn state_word_maximized(s: Seq<char>) -> bool {
    contains_ignore_case_seq(s, "maximized"@) || contains_ignore_case_seq(s, "maximised"@)
}

/// Whether a reported state word names a fullscreen window.
pub open spec fn state_word_fullscreen(s: Seq<char>) -> bool {
    contains_ignore_case_seq(s, "fullscreen"@) || contains_ignore_case_seq(s, "full screen"@)
}

/// The three condition flags of one reported window.
pub fn window_flags(window: &WindowInfo) -> (r: WindowStates)
    ensures
        r.focused == window.focused,
        r.maximized == state_word_maximized(window.window_state@),
        r.fullscreen == state_word_fullscreen(window.window_state@),
{
    let maximized = str_contains_ignore_case(window.window_state.as_str(), "maximized")
        || str_contains_ignore_case(window.window_state.as_str(), "maximised");
    let fullscreen = str_contains_ignore_case(window.window_state.as_str(), "fullscreen")
        || str_contains_ignore_case(window.window_state.as_str(), "full screen");
    WindowStates { focused: window.focused, maximized, fullscreen }
}

/// Some window in the list has focus.
pub open spec fn any_focused(ws: Seq<WindowInfo>) -> bool {
    exists|i: int| 0 <= i < ws.len() && ws[i].focused
}

/// Some window in the list reports a maximized state.
pub open spec fn any_maximized(ws: Seq<WindowInfo>) -> bool {
    exists|i: int| 0 <= i < ws.len() && state_word_maximized(#[trigger] ws[i].window_state@)
}

/// Some window in the list reports a fullscreen state.
pub open spec fn any_fullscreen(ws: Seq<WindowInfo>) -> bool {
    exists|i: int| 0 <= i < ws.len() && state_word_fullscreen(#[trigger] ws[i].window_state@)
}

/// Folds the flags of every window on one monitor: a condition holds for the
/// monitor when some window there exhibits it.
pub fn monitor_window_states(windows: &Vec<WindowInfo>) -> (r: WindowStates)
    ensures
        r.focused == any_focused(windows@),
        r.maximized == any_maximized(windows@),
        r.fullscreen == any_fullscreen(windows@),
{
    let mut states = WindowStates { focused: false, maximized: false, fullscreen: false };
    let mut i: usize = 0;
    while i < windows.len()
        invariant
            0 <= i <= windows@.len(),
            states.focused == any_focused(windows@.take(i as int)),
            states.maximized == any_maximized(windows@.take(i as int)),
            states.fullscreen == any_fullscreen(windows@.take(i as int)),
        decreases windows@.len() - i,
    {
        let flags = window_flags(&windows[i]);
        proof {
            assert(windows@.take(i + 1).drop_last() =~= windows@.take(i as int));
            assert(windows@.take(i + 1)[i as int] == windows@[i as int]);
            assert(forall|j: int| 0 <= j < i ==> windows@.take(i + 1)[j] == windows@.take(
                i as int,
            )[j]);
        }
        if flags.focused {
            states.focused = true;
        }
        if flags.maximized {
            states.maximized = true;
        }
        if flags.fullscreen {
            states.fullscreen = true;
        }
        i += 1;
    }
    proof {
        assert(windows@.take(windows@.len() as int) =~= windows@);
    }
    states
}

/// The monitor entry with the given telemetry identity, if the bridge
/// reported one; the first match wins.
pub open spec fn appdata_entry_for(entries: Seq<MonitorAppData>, id: Seq<char>) -> Option<
    MonitorAppData,
> {
    if exists|i: int| 0 <= i < entries.len() && #[trigger] entries[i].monitor_id@ == id {
        let i = choose|i: int|
            0 <= i < entries.len() && #[trigger] entries[i].monitor_id@ == id && forall|j: int|
                0 <= j < i ==> entries[j].monitor_id@ != id;
        Some(entries[i])
    } else {
        None
    }
}

/// The window-condition fold for the monitor with the given telemetry
/// identity; every condition off when the bridge reported nothing for it.
pub fn monitor_states_by_id(entries: &Vec<MonitorAppData>, id: &str) -> (r: WindowStates)
    ensures
        match appdata_entry_for(entries@, id@) {
            Some(e) => {
                &&& r.focused == any_focused(e.windows@)
                &&& r.maximized == any_maximized(e.windows@)
                &&& r.fullscreen == any_fullscreen(e.windows@)
            },
            None => !r.focused && !r.maximized && !r.fullscreen,
        },
{
    let mut i: usize = 0;
    while i < entries.len()
        invariant
            0 <= i <= entries@.len(),
            forall|j: int| 0 <= j < i ==> #[trigger] entries@[j].monitor_id@ != id@,
        decreases entries@.len() - i,
    {
        if str_eq(entries[i].monitor_id.as_str(), id) {
            return monitor_window_states(&entries[i].windows);
        }
        i += 1;
    }
    WindowStates { focused: false, maximized: false, fullscreen: false }
}

/// Folds the flags of every window on every monitor. `None` when no window
/// anywhere exhibits any condition, mirroring a bridge snapshot that carries
/// no usable window state.
pub fn global_window_states(entries: &Vec<MonitorAppData>) -> (r: Option<WindowStates>)
    ensures
        match r {
            Some(s) => {
                &&& s.focused == (exists|i: int|
                    0 <= i < entries@.len() && any_focused(#[trigger] entries@[i].windows@))
                &&& s.maximized == (exists|i: int|
                    0 <= i < entries@.len() && any_maximized(#[trigger] entries@[i].windows@))
                &&& s.fullscreen == (exists|i: int|
                    0 <= i < entries@.len() && any_fullscreen(#[trigger] entries@[i].windows@))
                &&& (s.focused || s.maximized || s.fullscreen)
            },
            None => forall|i: int|
                0 <= i < entries@.len() ==> {
                    &&& !any_focused(#[trigger] entries@[i].windows@)
                    &&& !any_maximized(entries@[i].windows@)
                    &&& !any_fullscreen(entries@[i].windows@)
                },
        },
{
    let mut states = WindowStates { focused: false, maximized: false, fullscreen: false };
    let mut i: usize = 0;
    while i < entries.len()
        invariant
            0 <= i <= entries@.len(),
            states.focused == (exists|j: int|
                0 <= j < i && any_focused(#[trigger] entries@[j].windows@)),
            states.maximized == (exists|j: int|
                0 <= j < i && any_maximized(#[trigger] entries@[j].windows@)),
            states.fullscreen == (exists|j: int|
                0 <= j < i && any_fullscreen(#[trigger] entries@[j].windows@)),
        decreases entries@.len() - i,
    {
        let m = monitor_window_states(&entries[i].windows);
        if m.focused {
            states.focused = true;
        }
        if m.maximized {
            states.maximized = true;
        }
        if m.fullscreen {
            states.fullscreen = true;
        }
        i += 1;
    }
    if states.focused || states.maximized || states.fullscreen {
        Some(states)
    } else {
        None
    }
}

/// What a tri-state pause policy decides from the per-monitor and global
/// forms of its condition.
pub open spec fn mode_trigger_spec(mode: PauseMode, local_triggered: bool, any_triggered: bool) -> bool {
    match mode {
        PauseMode::Off => false,
        PauseMode::PerMonitor => local_triggered,
        PauseMode::AllMonitors => any_triggered,
    }
}

/// `Off` never triggers; `PerMonitor` follows the instance's own monitor;
/// `AllMonitors` follows the whole system.
pub fn mode_triggered(mode: PauseMode, local_triggered: bool, any_triggered: bool) -> (r: bool)
    ensures
        r == mode_trigger_spec(mode, local_triggered, any_triggered),
{
    match mode {
        PauseMode::Off => false,
        PauseMode::PerMonitor => local_triggered,
        PauseMode::AllMonitors => any_triggered,
    }
}

/// The window classes of the desktop shell itself, which are excluded from
/// contributing focus.
pub open spec fn shell_window_class(name: Seq<char>) -> bool {
    ||| eq_ignore_case_seq(name, "progman"@)
    ||| eq_ignore_case_seq(name, "workerw"@)
    ||| eq_ignore_case_seq(name, "shell_traywnd"@)
    ||| eq_ignore_case_seq(name, "shell_secondarytraywnd"@)
}

/// Whether a window class name belongs to the desktop shell (the program
/// manager, the wallpaper worker tier, or a taskbar).
pub fn is_shell_window_class(name: &str) -> (r: bool)
    ensures
        r == shell_window_class(name@),
{
    str_eq_ignore_case(name, "progman") || str_eq_ignore_case(name, "workerw")
        || str_eq_ignore_case(name, "shell_traywnd") || str_eq_ignore_case(
        name,
        "shell_secondarytraywnd",
    )
}

/// A window lacking both a caption and a sizing frame has no standard
/// chrome; `style` is the OS window style bit set.
pub open spec fn has_window_frame(style: u32) -> bool {
    style & (WS_CAPTION | WS_THICKFRAME) != 0
}

/// The OS style bit for a window caption.
pub const WS_CAPTION: u32 = 0x00C00000;

/// The OS style bit for a sizing frame.
pub const WS_THICKFRAME: u32 = 0x00040000;

/// A window is judged fullscreen when its bounds match its monitor's bounds
/// within one pixel and it has no standard window chrome.
pub fn judge_fullscreen(window_rect: Rect, monitor_rect: Rect, style: u32) -> (r: bool)
    ensures
        r == (rects_match(window_rect, monitor_rect) && !has_window_frame(style)),
{
    let covers = rect_matches_monitor(window_rect, monitor_rect);
    let has_frame = style & (WS_CAPTION | WS_THICKFRAME) != 0;
    covers && !has_frame
}

/// Battery telemetry as the bridge reports it: the AC status word, and the
/// battery block's `present` and `charging` flags where given.
#[derive(Debug, Clone, PartialEq, Eq)]
pub struct PowerStatus {
    pub ac_status: String,
    pub battery_present: Option<bool>,
    pub battery_charging: Option<bool>,
}

/// Whether a power report means the machine runs unplugged: an explicit
/// offline status word wins, an explicit online word rules it out, and
/// otherwise a present, non-charging battery decides.
pub open spec fn on_battery_spec(p: PowerStatus) -> bool {
    let s = p.ac_status@;
    if eq_ignore_case_seq(s, "online"@) || eq_ignore_case_seq(s, "ac"@) || eq_ignore_case_seq(
        s,
        "plugged"@,
    ) || eq_ignore_case_seq(s, "plugged_in"@) {
        false
    } else if eq_ignore_case_seq(s, "offline"@) || eq_ignore_case_seq(s, "battery"@)
        || eq_ignore_case_seq(s, "on_battery"@) {
        true
    } else {
        p.battery_present == Some(true) && p.battery_charging != Some(true)
    }
}

/// Reads a power report; `None` (no power telemetry) never triggers the
/// battery pause.
pub fn power_on_battery(power: &Option<PowerStatus>) -> (r: bool)
    ensures
        r == match power {
            Some(p) => on_battery_spec(*p),
            None => false,
        },
{
    match power {
        None => false,
        Some(p) => {
            let s = p.ac_status.as_str();
            if str_eq_ignore_case(s, "online") || str_eq_ignore_case(s, "ac")
                || str_eq_ignore_case(s, "plugged") || str_eq_ignore_case(s, "plugged_in") {
                false
            } else if str_eq_ignore_case(s, "offline") || str_eq_ignore_case(s, "battery")
                || str_eq_ignore_case(s, "on_battery") {
                true
            } else {
                let present = match p.battery_present {
                    Some(b) => b,
                    None => false,
                };
                let charging = match p.battery_charging {
                    Some(b) => b,
                    None => false,
                };
                present && !charging
            }
        },
    }
}

/// One display as the data bridge reports it: its telemetry identity where
/// given, and its position and size in virtual-desktop coordinates.
#[derive(Debug, Clone, PartialEq, Eq)]
pub struct DisplayInfo {
    pub id: Option<String>,
    pub x: i32,
    pub y: i32,
    pub width: i32,
    pub height: i32,
}

/// The whole system-telemetry snapshot the pause engine reads: the reported
/// displays, the accumulated idle time, and the power report, each absent
/// when the bridge did not deliver it.
#[derive(Debug, Clone, PartialEq, Eq)]
pub struct SystemSnapshot {
    pub displays: Vec<DisplayInfo>,
    pub idle_ms: Option<u64>,
    pub power: Option<PowerStatus>,
}

/// A display entry usable for identity resolution: positive size and a
/// present identity.
pub open spec fn display_valid(d: DisplayInfo) -> bool {
    d.width > 0 && d.height > 0 && d.id is Some
}

/// The overlap width of a rectangle and a display, before clamping.
pub open spec fn overlap_w(r: Rect, d: DisplayInfo) -> int {
    let lo = if r.left as int >= d.x as int {
        r.left as int
    } else {
        d.x as int
    };
    let hi = if r.right as int <= d.x + d.width {
        r.right as int
    } else {
        d.x + d.width
    };
    hi - lo
}

/// The overlap height of a rectangle and a display, before clamping.
pub open spec fn overlap_h(r: Rect, d: DisplayInfo) -> int {
    let lo = if r.top as int >= d.y as int {
        r.top as int
    } else {
        d.y as int
    };
    let hi = if r.bottom as int <= d.y + d.height {
        r.bottom as int
    } else {
        d.y + d.height
    };
    hi - lo
}

/// The overlap area of a rectangle and a display; zero when they are
/// disjoint.
pub open spec fn overlap_area(r: Rect, d: DisplayInfo) -> int {
    let w = if overlap_w(r, d) > 0 {
        overlap_w(r, d)
    } else {
        0
    };
    let h = if overlap_h(r, d) > 0 {
        overlap_h(r, d)
    } else {
        0
    };
    w * h
}

/// The clamped overlap area, computed without overflow.
fn overlap_area_of(r: Rect, d: &DisplayInfo) -> (area: i128)
    ensures
        area == overlap_area(r, *d),
        0 <= area < 0x100000000000000000,
{
    let lo_x: i128 = if r.left as i128 >= d.x as i128 {
        r.left as i128
    } else {
        d.x as i128
    };
    let hi_x: i128 = if r.right as i128 <= d.x as i128 + d.width as i128 {
        r.right as i128
    } else {
        d.x as i128 + d.width as i128
    };
    let lo_y: i128 = if r.top as i128 >= d.y as i128 {
        r.top as i128
    } else {
        d.y as i128
    };
    let hi_y: i128 = if r.bottom as i128 <= d.y as i128 + d.height as i128 {
        r.bottom as i128
    } else {
        d.y as i128 + d.height as i128
    };
    let w: i128 = if hi_x - lo_x > 0 {
        hi_x - lo_x
    } else {
        0
    };
    let h: i128 = if hi_y - lo_y > 0 {
        hi_y - lo_y
    } else {
        0
    };
    proof {
        assert(0 <= w < 0x400000000);
        assert(0 <= h < 0x400000000);
        assert(w * h < 0x100000000000000000) by (nonlinear_arith)
            requires
                0 <= w < 0x400000000,
                0 <= h < 0x400000000,
        ;
        assert(w * h >= 0) by (nonlinear_arith)
            requires
                0 <= w,
                0 <= h,
        ;
    }
    w * h
}

/// The first valid display whose overlap with the rectangle is maximal, as
/// the original first-strict-maximum scan finds it.
pub open spec fn first_best_display(ds: Seq<DisplayInfo>, r: Rect, i: int) -> bool {
    &&& 0 <= i < ds.len()
    &&& display_valid(ds[i])
    &&& forall|j: int|
        0 <= j < ds.len() && display_valid(#[trigger] ds[j]) ==> overlap_area(r, ds[j])
            <= overlap_area(r, ds[i])
    &&& forall|j: int|
        0 <= j < i && display_valid(#[trigger] ds[j]) ==> overlap_area(r, ds[j]) < overlap_area(
            r,
            ds[i],
        )
}

/// The telemetry identity of the display a monitor rectangle belongs to:
/// the first valid display with the greatest overlap area, or `None` when no
/// display is usable. A display with no overlap can still win when nothing
/// overlaps, so a detached rectangle maps to the first valid display.
pub fn resolve_monitor_id_for_rect(displays: &Vec<DisplayInfo>, rect: Rect) -> (r: Option<String>)
    ensures
        (r is None) == (forall|i: int|
            0 <= i < displays@.len() ==> !display_valid(#[trigger] displays@[i])),
        r matches Some(id) ==> exists|i: int|
            #[trigger] first_best_display(displays@, rect, i) && id@ == displays@[i].id.unwrap()@,
{
    let mut found = false;
    let mut best_idx: usize = 0;
    let mut best_area: i128 = -1;
    let mut i: usize = 0;
    while i < displays.len()
        invariant
            0 <= i <= displays@.len(),
            found == (exists|j: int| 0 <= j < i && display_valid(#[trigger] displays@[j])),
            found ==> {
                &&& best_idx < i
                &&& display_valid(displays@[best_idx as int])
                &&& best_area == overlap_area(rect, displays@[best_idx as int])
                &&& forall|j: int|
                    0 <= j < i && display_valid(#[trigger] displays@[j]) ==> overlap_area(
                        rect,
                        displays@[j],
                    ) <= best_area
                &&& forall|j: int|
                    0 <= j < best_idx && display_valid(#[trigger] displays@[j]) ==> overlap_area(
                        rect,
                        displays@[j],
                    ) < best_area
            },
            !found ==> best_area == -1,
        decreases displays@.len() - i,
    {
        let d = &displays[i];
        let usable = d.width > 0 && d.height > 0 && d.id.is_some();
        if usable {
            let area = overlap_area_of(rect, d);
            if area > best_area {
                best_area = area;
                best_idx = i;
                found = true;
            }
        }
        i += 1;
    }
    if !found {
        return None;
    }
    proof {
        assert(first_best_display(displays@, rect, best_idx as int));
    }
    match &displays[best_idx].id {
        Some(id) => Some(id.clone()),
        None => None,
    }
}

/// Whether accumulated idle time has crossed the configured threshold; no
/// threshold or no reading never triggers.
pub fn idle_triggered(idle_pause_after_ms: Option<u64>, idle_ms: Option<u64>) -> (r: bool)
    ensures
        r == match (idle_pause_after_ms, idle_ms) {
            (Some(threshold), Some(ms)) => ms >= threshold,
            _ => false,
        },
{
    match (idle_pause_after_ms, idle_ms) {
        (Some(threshold), Some(ms)) => ms >= threshold,
        _ => false,
    }
}

/// One instance's pause decision from the triggers and its four policies:
/// idle, then each tri-state axis over its local and global condition, with
/// the battery axis fed by the single battery flag on both sides.
pub open spec fn should_pause_spec(
    idle: bool,
    on_battery: bool,
    focus_mode: PauseMode,
    maximized_mode: PauseMode,
    fullscreen_mode: PauseMode,
    battery_mode: PauseMode,
    local: WindowStates,
    global: WindowStates,
) -> bool {
    ||| idle
    ||| mode_trigger_spec(focus_mode, local.focused, global.focused)
    ||| mode_trigger_spec(maximized_mode, local.maximized, global.maximized)
    ||| mode_trigger_spec(fullscreen_mode, local.fullscreen, global.fullscreen)
    ||| mode_trigger_spec(battery_mode, on_battery, on_battery)
}

/// Composes one instance's pause decision.
pub fn should_pause(
    idle: bool,
    on_battery: bool,
    focus_mode: PauseMode,
    maximized_mode: PauseMode,
    fullscreen_mode: PauseMode,
    battery_mode: PauseMode,
    local: WindowStates,
    global: WindowStates,
) -> (r: bool)
    ensures
        r == should_pause_spec(
            idle,
            on_battery,
            focus_mode,
            maximized_mode,
            fullscreen_mode,
            battery_mode,
            local,
            global,
        ),
{
    idle || mode_triggered(focus_mode, local.focused, global.focused) || mode_triggered(
        maximized_mode,
        local.maximized,
        global.maximized,
    ) || mode_triggered(fullscreen_mode, local.fullscreen, global.fullscreen) || mode_triggered(
        battery_mode,
        on_battery,
        on_battery,
    )
}

} // verus!
