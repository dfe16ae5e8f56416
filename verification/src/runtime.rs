//! The wallpaper runtime's decision core: planning an apply pass from
//! profiles, assets and monitors; the hosted-instance records; the tick
//! cadences; and the pause evaluation over one consistent telemetry
//! snapshot.
//!
//! Everything here is plain state and decisions. The platform layer owns
//! the real windows and surfaces, executes each planned launch, and reports
//! the outside world back in as plain values.

use crate::assets::{
    asset_index_for, file_url_seq, resolve_asset, resolve_asset_url, resolve_target_monitors,
    resolve_targets_spec, profile_priority, profile_priority_spec, LaunchSource, RegistryAsset,
};
use crate::config::{PauseMode, WallpaperConfig};
use crate::geometry::{rects_match, Rect};
use crate::pause::{
    any_focused, any_fullscreen, any_maximized, appdata_entry_for, display_valid,
    first_best_display, on_battery_spec, should_pause_spec, DisplayInfo, MonitorAppData,
    PowerStatus, SystemSnapshot, WindowStates,
};
use crate::text::eq_ignore_case_seq;
use crate::text::str_eq_ignore_case;
use crate::topology::{span_fold, make_span_monitor_area, MonitorArea};
use vstd::prelude::*;

verus! {

/// One launch an apply pass decided on: which content, hosted how, on which
/// monitor (or synthetic span region).
#[derive(Debug, PartialEq, Eq)]
pub struct PlannedLaunch {
    pub section: String,
    pub url: String,
    pub asset_dir: String,
    pub z_index: String,
    pub monitor: MonitorArea,
    pub pause_focus_mode: PauseMode,
    pub pause_maximized_mode: PauseMode,
    pub pause_fullscreen_mode: PauseMode,
    pub pause_battery_mode: PauseMode,
}

/// The URL an asset's launch source denotes, at specification level.
pub open spec fn url_view_of(source: LaunchSource) -> Option<Seq<char>> {
    match source {
        LaunchSource::Url(u) => Some(u@),
        LaunchSource::LocalIndex(p) => Some(file_url_seq(p@)),
        LaunchSource::Unavailable => None,
    }
}

/// What one planned launch is made from: the profile, the resolved asset,
/// and the target monitor.
pub open spec fn launch_matches(
    l: PlannedLaunch,
    prof: WallpaperConfig,
    asset: RegistryAsset,
    monitor: MonitorArea,
) -> bool {
    &&& l.section@ == prof.section@
    &&& Some(l.url@) == url_view_of(asset.source)
    &&& l.asset_dir@ == asset.dir@
    &&& l.z_index@ == prof.z_index@
    &&& l.monitor == monitor
    &&& l.pause_focus_mode == prof.pause_focus_mode
    &&& l.pause_maximized_mode == prof.pause_maximized_mode
    &&& l.pause_fullscreen_mode == prof.pause_fullscreen_mode
    &&& l.pause_battery_mode == prof.pause_battery_mode
}

/// A whole plan matches its item list position by position.
pub open spec fn plan_matches(
    plan: Seq<PlannedLaunch>,
    items: Seq<(WallpaperConfig, RegistryAsset, MonitorArea)>,
) -> bool {
    &&& plan.len() == items.len()
    &&& forall|k: int|
        0 <= k < plan.len() ==> launch_matches(
            #[trigger] plan[k],
            items[k].0,
            items[k].1,
            items[k].2,
        )
}

/// What one profile adds to the plan: nothing when its asset or URL cannot
/// be resolved or no monitor target remains; otherwise its resolved targets
/// are claimed, and either one span launch across their union or one launch
/// per target is planned.
pub open spec fn plan_profile(
    plan: Seq<(WallpaperConfig, RegistryAsset, MonitorArea)>,
    asg: Seq<usize>,
    prof: WallpaperConfig,
    assets: Seq<RegistryAsset>,
    monitors: Seq<MonitorArea>,
) -> (Seq<(WallpaperConfig, RegistryAsset, MonitorArea)>, Seq<usize>) {
    match asset_index_for(assets, prof.wallpaper_id@) {
        None => (plan, asg),
        Some(ai) => {
            let asset = assets[ai];
            match url_view_of(asset.source) {
                None => (plan, asg),
                Some(_) => {
                    let targets = resolve_targets_spec(monitors, prof.monitor_index@, asg);
                    if targets.len() == 0 {
                        (plan, asg)
                    } else {
                        let asg2 = asg + targets.map_values(|m: MonitorArea| m.index);
                        if eq_ignore_case_seq(prof.mode@, "span"@) && targets.len() > 1 {
                            (plan.push((prof, asset, span_fold(targets))), asg2)
                        } else {
                            let added = targets.map_values(
                                |m: MonitorArea| (prof, asset, m),
                            );
                            (plan + added, asg2)
                        }
                    }
                },
            }
        },
    }
}

/// One launch-priority pass over the profiles in order: only enabled
/// profiles of the given priority contribute.
pub open spec fn plan_pass(
    profiles: Seq<WallpaperConfig>,
    assets: Seq<RegistryAsset>,
    monitors: Seq<MonitorArea>,
    prio: int,
    plan0: Seq<(WallpaperConfig, RegistryAsset, MonitorArea)>,
    asg0: Seq<usize>,
) -> (Seq<(WallpaperConfig, RegistryAsset, MonitorArea)>, Seq<usize>)
    decreases profiles.len(),
{
    if profiles.len() == 0 {
        (plan0, asg0)
    } else {
        let prev = plan_pass(profiles.drop_last(), assets, monitors, prio, plan0, asg0);
        let prof = profiles.last();
        if prof.enabled && profile_priority_spec(prof.monitor_index@) == prio {
            plan_profile(prev.0, prev.1, prof, assets, monitors)
        } else {
            prev
        }
    }
}

/// The full apply plan: the primary-selector pass, then the explicit-index
/// pass, then the wildcard pass, threading the claimed-monitor set through.
pub open spec fn plan_items(
    profiles: Seq<WallpaperConfig>,
    assets: Seq<RegistryAsset>,
    monitors: Seq<MonitorArea>,
) -> Seq<(WallpaperConfig, RegistryAsset, MonitorArea)> {
    let s0 = plan_pass(profiles, assets, monitors, 0, Seq::empty(), Seq::empty());
    let s1 = plan_pass(profiles, assets, monitors, 1, s0.0, s0.1);
    let s2 = plan_pass(profiles, assets, monitors, 2, s1.0, s1.1);
    s2.0
}

/// Runs one priority pass, extending the plan and the claimed-monitor set.
fn run_pass(
    plan: &mut Vec<PlannedLaunch>,
    assigned: &mut Vec<usize>,
    profiles: &Vec<WallpaperConfig>,
    assets: &Vec<RegistryAsset>,
    monitors: &Vec<MonitorArea>,
    prio: u8,
    items0: Ghost<Seq<(WallpaperConfig, RegistryAsset, MonitorArea)>>,
)
    requires
        plan_matches(old(plan)@, items0@),
    ensures
        plan_matches(
            final(plan)@,
            plan_pass(profiles@, assets@, monitors@, prio as int, items0@, old(assigned)@).0,
        ),
        final(assigned)@ == plan_pass(
            profiles@,
            assets@,
            monitors@,
            prio as int,
            items0@,
            old(assigned)@,
        ).1,
{
    let ghost asg0 = assigned@;
    let mut i: usize = 0;
    proof {
        assert(plan_pass(profiles@.take(0), assets@, monitors@, prio as int, items0@, asg0)
            == (items0@, asg0));
    }
    while i < profiles.len()
        invariant
            0 <= i <= profiles@.len(),
            plan_matches(
                plan@,
                plan_pass(
                    profiles@.take(i as int),
                    assets@,
                    monitors@,
                    prio as int,
                    items0@,
                    asg0,
                ).0,
            ),
            assigned@ == plan_pass(
                profiles@.take(i as int),
                assets@,
                monitors@,
                prio as int,
                items0@,
                asg0,
            ).1,
        decreases profiles@.len() - i,
    {
        proof {
            assert(profiles@.take(i + 1).drop_last() =~= profiles@.take(i as int));
            assert(profiles@.take(i + 1).last() == profiles@[i as int]);
        }
        let prof = &profiles[i];
        let prof_prio = profile_priority(prof);
        if prof.enabled && prof_prio == prio {
            run_profile(
                plan,
                assigned,
                prof,
                assets,
                monitors,
                Ghost(
                    plan_pass(
                        profiles@.take(i as int),
                        assets@,
                        monitors@,
                        prio as int,
                        items0@,
                        asg0,
                    ).0,
                ),
            );
        }
        i += 1;
    }
    proof {
        assert(profiles@.take(profiles@.len() as int) =~= profiles@);
    }
}

/// Plans one profile: resolve its asset, its URL and its monitor targets,
/// claim the targets, and plan the launches. Every failure here is soft:
/// the profile is skipped and the plan is unchanged.
#[verifier::rlimit(30)]
fn run_profile(
    plan: &mut Vec<PlannedLaunch>,
    assigned: &mut Vec<usize>,
    prof: &WallpaperConfig,
    assets: &Vec<RegistryAsset>,
    monitors: &Vec<MonitorArea>,
    items: Ghost<Seq<(WallpaperConfig, RegistryAsset, MonitorArea)>>,
)
    requires
        plan_matches(old(plan)@, items@),
    ensures
        plan_matches(
            final(plan)@,
            plan_profile(items@, old(assigned)@, *prof, assets@, monitors@).0,
        ),
        final(assigned)@ == plan_profile(items@, old(assigned)@, *prof, assets@, monitors@).1,
{
    let ai = match resolve_asset(assets, prof.wallpaper_id.as_str()) {
        Some(ai) => ai,
        None => {
            return ;
        },
    };
    let url = match resolve_asset_url(&assets[ai]) {
        Some(u) => u,
        None => {
            return ;
        },
    };
    proof {
        assert(Some(url@) == url_view_of(assets@[ai as int].source));
    }
    let targets = resolve_target_monitors(monitors, &prof.monitor_index, assigned);
    if targets.len() == 0 {
        return ;
    }
    let ghost asg_before = assigned@;
    let mut t: usize = 0;
    proof {
        assert(assigned@ =~= asg_before + targets@.take(0).map_values(
            |m: MonitorArea| m.index,
        ));
    }
    while t < targets.len()
        invariant
            0 <= t <= targets@.len(),
            assigned@ == asg_before + targets@.take(t as int).map_values(
                |m: MonitorArea| m.index,
            ),
        decreases targets@.len() - t,
    {
        assigned.push(targets[t].index);
        proof {
            assert(assigned@ =~= asg_before + targets@.take(t + 1).map_values(
                |m: MonitorArea| m.index,
            ));
        }
        t += 1;
    }
    proof {
        assert(targets@.take(targets@.len() as int) =~= targets@);
    }
    let ghost added_items = targets@.map_values(
        |m: MonitorArea| (*prof, assets@[ai as int], m),
    );
    let is_span = str_eq_ignore_case(prof.mode.as_str(), "span");
    if is_span && targets.len() > 1 {
        let span = make_span_monitor_area(&targets);
        let ghost before = plan@;
        plan.push(
            PlannedLaunch {
                section: prof.section.clone(),
                url,
                asset_dir: assets[ai].dir.clone(),
                z_index: prof.z_index.clone(),
                monitor: span,
                pause_focus_mode: prof.pause_focus_mode,
                pause_maximized_mode: prof.pause_maximized_mode,
                pause_fullscreen_mode: prof.pause_fullscreen_mode,
                pause_battery_mode: prof.pause_battery_mode,
            },
        );
        proof {
            assert(plan@.drop_last() =~= before);
            assert(plan_matches(
                plan@,
                items@.push((*prof, assets@[ai as int], span_fold(targets@))),
            ));
        }
    } else {
        let mut k: usize = 0;
        let ghost before = plan@;
        while k < targets.len()
            invariant
                0 <= k <= targets@.len(),
                0 <= ai < assets@.len(),
                plan@.len() == before.len() + k,
                forall|j: int| 0 <= j < before.len() ==> #[trigger] plan@[j] == before[j],
                forall|j: int|
                    0 <= j < k ==> launch_matches(
                        #[trigger] plan@[before.len() + j],
                        *prof,
                        assets@[ai as int],
                        targets@[j],
                    ),
                Some(url@) == url_view_of(assets@[ai as int].source),
            decreases targets@.len() - k,
        {
            plan.push(
                PlannedLaunch {
                    section: prof.section.clone(),
                    url: url.clone(),
                    asset_dir: assets[ai].dir.clone(),
                    z_index: prof.z_index.clone(),
                    monitor: targets[k],
                    pause_focus_mode: prof.pause_focus_mode,
                    pause_maximized_mode: prof.pause_maximized_mode,
                    pause_fullscreen_mode: prof.pause_fullscreen_mode,
                    pause_battery_mode: prof.pause_battery_mode,
                },
            );
            k += 1;
        }
        proof {
            let combined = items@ + added_items;
            assert(before == old(plan)@);
            assert(plan_matches(before, items@));
            assert(before.len() == items@.len());
            assert forall|j: int| 0 <= j < plan@.len() implies launch_matches(
                #[trigger] plan@[j],
                combined[j].0,
                combined[j].1,
                combined[j].2,
            ) by {
                if j < items@.len() {
                    assert(combined[j] == items@[j]);
                    assert(plan@[j] == before[j]);
                    assert(launch_matches(before[j], items@[j].0, items@[j].1, items@[j].2));
                } else {
                    let jj = j - items@.len();
                    assert(combined[j] == added_items[jj]);
                    assert(added_items[jj] == (*prof, assets@[ai as int], targets@[jj]));
                    assert(plan@[before.len() + jj] == plan@[j]);
                    assert(launch_matches(
                        plan@[before.len() + jj],
                        *prof,
                        assets@[ai as int],
                        targets@[jj],
                    ));
                }
            }
            assert(plan_matches(plan@, combined));
        }
    }
}

/// Plans a whole apply pass: enabled profiles in three launch-priority
/// passes, first-come-first-served monitor assignment, span collapsing, and
/// soft failure for unresolvable profiles.
pub fn plan_apply(
    profiles: &Vec<WallpaperConfig>,
    assets: &Vec<RegistryAsset>,
    monitors: &Vec<MonitorArea>,
) -> (r: Vec<PlannedLaunch>)
    ensures
        plan_matches(r@, plan_items(profiles@, assets@, monitors@)),
{
    let mut plan: Vec<PlannedLaunch> = Vec::new();
    let mut assigned: Vec<usize> = Vec::new();
    proof {
        assert(plan_matches(plan@, Seq::empty()));
        assert(assigned@ =~= Seq::<usize>::empty());
    }
    run_pass(&mut plan, &mut assigned, profiles, assets, monitors, 0, Ghost(Seq::empty()));
    let ghost s0 = plan_pass(profiles@, assets@, monitors@, 0, Seq::empty(), Seq::empty());
    run_pass(&mut plan, &mut assigned, profiles, assets, monitors, 1, Ghost(s0.0));
    let ghost s1 = plan_pass(profiles@, assets@, monitors@, 1, s0.0, s0.1);
    run_pass(&mut plan, &mut assigned, profiles, assets, monitors, 2, Ghost(s1.0));
    plan
}


/// One hosted wallpaper instance as the runtime tracks it: its content
/// identity, its bound monitor, its telemetry identity once resolved, its
/// pause policies and its current paused flag. The window and surface this
/// record stands for are owned by the platform layer, position by position.
#[derive(Debug, PartialEq, Eq)]
pub struct InstanceState {
    pub section: String,
    pub source_url: String,
    pub asset_dir: String,
    pub monitor_rect: Rect,
    pub monitor_index: usize,
    pub monitor_id: Option<String>,
    pub pause_focus_mode: PauseMode,
    pub pause_maximized_mode: PauseMode,
    pub pause_fullscreen_mode: PauseMode,
    pub pause_battery_mode: PauseMode,
    pub paused: bool,
}

/// What a freshly launched instance is made from.
pub open spec fn instance_matches(
    inst: InstanceState,
    prof: WallpaperConfig,
    asset: RegistryAsset,
    monitor: MonitorArea,
) -> bool {
    &&& inst.section@ == prof.section@
    &&& Some(inst.source_url@) == url_view_of(asset.source)
    &&& inst.asset_dir@ == asset.dir@
    &&& inst.monitor_rect == monitor.rect
    &&& inst.monitor_index == monitor.index
    &&& inst.monitor_id is None
    &&& inst.pause_focus_mode == prof.pause_focus_mode
    &&& inst.pause_maximized_mode == prof.pause_maximized_mode
    &&& inst.pause_fullscreen_mode == prof.pause_fullscreen_mode
    &&& inst.pause_battery_mode == prof.pause_battery_mode
    &&& !inst.paused
}

/// The hosted set an apply pass over these inputs produces: one fresh
/// instance per planned launch, in plan order.
pub open spec fn is_applied_state(
    profiles: Seq<WallpaperConfig>,
    assets: Seq<RegistryAsset>,
    monitors: Seq<MonitorArea>,
    hosted: Seq<InstanceState>,
) -> bool {
    let items = plan_items(profiles, assets, monitors);
    &&& hosted.len() == items.len()
    &&& forall|k: int|
        0 <= k < hosted.len() ==> instance_matches(
            #[trigger] hosted[k],
            items[k].0,
            items[k].1,
            items[k].2,
        )
}

/// Every instance is paused.
pub open spec fn all_hosted_paused(hosted: Seq<InstanceState>) -> bool {
    forall|i: int| 0 <= i < hosted.len() ==> #[trigger] hosted[i].paused
}

/// Some instance is running.
pub open spec fn any_hosted_active(hosted: Seq<InstanceState>) -> bool {
    exists|i: int| 0 <= i < hosted.len() && !(#[trigger] hosted[i].paused)
}

/// The foreground window as observed by the platform layer: the bounds of
/// the monitor it sits on (zeroed when unknown) and its condition flags.
#[derive(Debug, Clone, Copy, PartialEq, Eq, Structural)]
pub struct ForegroundObs {
    pub monitor_rect: Rect,
    pub states: WindowStates,
}

/// The displays the cached system telemetry reports; none without a cache.
pub open spec fn displays_of(sys: Option<SystemSnapshot>) -> Seq<DisplayInfo> {
    match sys {
        Some(s) => s.displays@,
        None => Seq::empty(),
    }
}

/// The per-monitor window lists of the cached app telemetry.
pub open spec fn appdata_of(app: Option<Vec<MonitorAppData>>) -> Seq<MonitorAppData> {
    match app {
        Some(a) => a@,
        None => Seq::empty(),
    }
}

/// The cached idle reading.
pub open spec fn idle_of(sys: Option<SystemSnapshot>) -> Option<u64> {
    match sys {
        Some(s) => s.idle_ms,
        None => None,
    }
}

/// The cached power report.
pub open spec fn power_of(sys: Option<SystemSnapshot>) -> Option<PowerStatus> {
    match sys {
        Some(s) => s.power,
        None => None,
    }
}

/// Whether the idle threshold has been crossed.
pub open spec fn idle_trigger_spec(threshold: Option<u64>, idle_ms: Option<u64>) -> bool {
    match (threshold, idle_ms) {
        (Some(t), Some(ms)) => ms >= t,
        _ => false,
    }
}

/// Whether the cached power report means the machine runs unplugged.
pub open spec fn battery_trigger_spec(sys: Option<SystemSnapshot>) -> bool {
    match power_of(sys) {
        Some(p) => on_battery_spec(p),
        None => false,
    }
}

/// The global window conditions: the fold over every reported window,
/// merged with the observed foreground window, with focus forced off while
/// the shell itself is foreground.
pub open spec fn global_merged(
    entries: Seq<MonitorAppData>,
    fg: Option<ForegroundObs>,
    shell_foreground: bool,
) -> WindowStates {
    let g0 = WindowStates {
        focused: exists|i: int|
            0 <= i < entries.len() && any_focused(#[trigger] entries[i].windows@),
        maximized: exists|i: int|
            0 <= i < entries.len() && any_maximized(#[trigger] entries[i].windows@),
        fullscreen: exists|i: int|
            0 <= i < entries.len() && any_fullscreen(#[trigger] entries[i].windows@),
    };
    let g1 = match fg {
        Some(f) => WindowStates {
            focused: g0.focused || f.states.focused,
            maximized: g0.maximized || f.states.maximized,
            fullscreen: g0.fullscreen || f.states.fullscreen,
        },
        None => g0,
    };
    WindowStates {
        focused: if shell_foreground {
            false
        } else {
            g1.focused
        },
        maximized: g1.maximized,
        fullscreen: g1.fullscreen,
    }
}

/// The window-condition fold of the entry with the given identity.
pub open spec fn entry_states_spec(entries: Seq<MonitorAppData>, id: Seq<char>) -> WindowStates {
    match appdata_entry_for(entries, id) {
        Some(e) => WindowStates {
            focused: any_focused(e.windows@),
            maximized: any_maximized(e.windows@),
            fullscreen: any_fullscreen(e.windows@),
        },
        None => WindowStates { focused: false, maximized: false, fullscreen: false },
    }
}

/// One instance's local window conditions: its own monitor's fold, merged
/// with the foreground window when that window sits on the instance's
/// monitor, with focus forced off while the shell is foreground.
pub open spec fn local_merged(
    entries: Seq<MonitorAppData>,
    monitor_id: Option<String>,
    monitor_rect: Rect,
    fg: Option<ForegroundObs>,
    shell_foreground: bool,
) -> WindowStates {
    let l0 = match monitor_id {
        Some(id) => entry_states_spec(entries, id@),
        None => WindowStates { focused: false, maximized: false, fullscreen: false },
    };
    let l1 = match fg {
        Some(f) => if rects_match(monitor_rect, f.monitor_rect) {
            WindowStates {
                focused: l0.focused || f.states.focused,
                maximized: l0.maximized || f.states.maximized,
                fullscreen: l0.fullscreen || f.states.fullscreen,
            }
        } else {
            l0
        },
        None => l0,
    };
    WindowStates {
        focused: if shell_foreground {
            false
        } else {
            l1.focused
        },
        maximized: l1.maximized,
        fullscreen: l1.fullscreen,
    }
}

/// What one pause evaluation leaves behind: every instance keeps its
/// identity and policies, gets its monitor's telemetry identity resolved
/// afresh, and is paused exactly when its triggers say so over the one
/// consistent cached snapshot.
pub open spec fn instance_eval_post(
    o: InstanceState,
    n: InstanceState,
    sys: Option<SystemSnapshot>,
    app: Option<Vec<MonitorAppData>>,
    idle_after: Option<u64>,
    fg: Option<ForegroundObs>,
    shell_foreground: bool,
) -> bool {
    &&& n.section == o.section
    &&& n.source_url == o.source_url
    &&& n.asset_dir == o.asset_dir
    &&& n.monitor_rect == o.monitor_rect
    &&& n.monitor_index == o.monitor_index
    &&& n.pause_focus_mode == o.pause_focus_mode
    &&& n.pause_maximized_mode == o.pause_maximized_mode
    &&& n.pause_fullscreen_mode == o.pause_fullscreen_mode
    &&& n.pause_battery_mode == o.pause_battery_mode
    &&& ((n.monitor_id is None) == (forall|d: int|
        0 <= d < displays_of(sys).len() ==> !display_valid(#[trigger] displays_of(sys)[d])))
    &&& (n.monitor_id matches Some(id) ==> exists|b: int|
        #[trigger] first_best_display(displays_of(sys), o.monitor_rect, b) && id@ == displays_of(
            sys,
        )[b].id.unwrap()@)
    &&& n.paused == should_pause_spec(
        idle_trigger_spec(idle_after, idle_of(sys)),
        battery_trigger_spec(sys),
        o.pause_focus_mode,
        o.pause_maximized_mode,
        o.pause_fullscreen_mode,
        o.pause_battery_mode,
        local_merged(appdata_of(app), n.monitor_id, o.monitor_rect, fg, shell_foreground),
        global_merged(appdata_of(app), fg, shell_foreground),
    )
}

pub open spec fn pause_eval_post(
    old_hosted: Seq<InstanceState>,
    new_hosted: Seq<InstanceState>,
    sys: Option<SystemSnapshot>,
    app: Option<Vec<MonitorAppData>>,
    idle_after: Option<u64>,
    fg: Option<ForegroundObs>,
    shell_foreground: bool,
) -> bool {
    &&& new_hosted.len() == old_hosted.len()
    &&& forall|i: int|
        0 <= i < new_hosted.len() ==> instance_eval_post(
            old_hosted[i],
            #[trigger] new_hosted[i],
            sys,
            app,
            idle_after,
            fg,
            shell_foreground,
        )
}

/// Elapsed milliseconds on a clock that is not trusted to be monotone.
pub open spec fn sat_elapsed(now: u64, last: u64) -> int {
    if now >= last {
        now - last
    } else {
        0
    }
}

/// A registry snapshot as pulled and converted by the transport: the
/// system and per-monitor telemetry as plain values, and the raw payload
/// forwarded to the hosted content.
#[derive(Debug, PartialEq, Eq)]
pub struct RegistryUpdate {
    pub system: SystemSnapshot,
    pub app_data: Vec<MonitorAppData>,
    pub payload: String,
}

/// What one tick asks the platform layer to do next.
#[derive(Debug, PartialEq, Eq)]
pub struct TickActions {
    pub send_demands: Option<Vec<String>>,
    pub deliver_payload: bool,
    pub check_editables: bool,
    pub evaluate_pause: bool,
    pub save_snapshot: bool,
}

/// The section names demanded from the data bridge while any instance
/// runs, in sorted order.
pub open spec fn is_demand_list(s: Seq<String>) -> bool {
    &&& s.len() == 17
    &&& s[0]@ == "appdata"@
    &&& s[1]@ == "audio"@
    &&& s[2]@ == "bluetooth"@
    &&& s[3]@ == "cpu"@
    &&& s[4]@ == "displays"@
    &&& s[5]@ == "gpu"@
    &&& s[6]@ == "idle"@
    &&& s[7]@ == "keyboard"@
    &&& s[8]@ == "mouse"@
    &&& s[9]@ == "network"@
    &&& s[10]@ == "power"@
    &&& s[11]@ == "processes"@
    &&& s[12]@ == "ram"@
    &&& s[13]@ == "storage"@
    &&& s[14]@ == "system"@
    &&& s[15]@ == "time"@
    &&& s[16]@ == "wifi"@
}


/// Whether a directory view already occurs in a list of directories.
pub open spec fn dir_in(dirs: Seq<String>, d: Seq<char>) -> bool {
    exists|k: int| 0 <= k < dirs.len() && #[trigger] dirs[k]@ == d
}

/// The distinct content directories of the hosted instances, first
/// occurrence first.
pub open spec fn dedup_dirs(hosted: Seq<InstanceState>) -> Seq<String>
    decreases hosted.len(),
{
    if hosted.len() == 0 {
        Seq::empty()
    } else {
        let prev = dedup_dirs(hosted.drop_last());
        if dir_in(prev, hosted.last().asset_dir@) {
            prev
        } else {
            prev.push(hosted.last().asset_dir)
        }
    }
}

/// The runtime's own state: the hosted instances and every cadence and
/// cache the tick loop consults. The platform layer mirrors `hosted`
/// position by position with the real windows.
#[derive(Debug, PartialEq, Eq)]
pub struct RuntimeState {
    pub hosted: Vec<InstanceState>,
    pub pause_check_interval_ms: u64,
    pub idle_pause_after_ms: Option<u64>,
    pub log_pause_state_changes: bool,
    pub registry_connected: bool,
    pub cached_system: Option<SystemSnapshot>,
    pub cached_appdata: Option<Vec<MonitorAppData>>,
    pub last_registry_payload: Option<String>,
    pub last_demands_active: bool,
    pub last_monitor_rects: Vec<Rect>,
    pub last_pause_tick_ms: u64,
    pub last_editable_tick_ms: u64,
    pub last_snapshot_tick_ms: u64,
}

impl RuntimeState {
    /// A fresh runtime: nothing hosted, default cadences, no telemetry.
    pub fn new(now_ms: u64) -> (r: Self)
        ensures
            r.hosted@.len() == 0,
            r.pause_check_interval_ms == 500,
            r.idle_pause_after_ms is None,
            r.log_pause_state_changes,
            !r.registry_connected,
            r.cached_system is None,
            r.cached_appdata is None,
            r.last_registry_payload is None,
            !r.last_demands_active,
            r.last_monitor_rects@.len() == 0,
            r.last_pause_tick_ms == now_ms,
            r.last_editable_tick_ms == now_ms,
            r.last_snapshot_tick_ms == now_ms,
    {
        RuntimeState {
            hosted: Vec::new(),
            pause_check_interval_ms: 500,
            idle_pause_after_ms: None,
            log_pause_state_changes: true,
            registry_connected: false,
            cached_system: None,
            cached_appdata: None,
            last_registry_payload: None,
            last_demands_active: false,
            last_monitor_rects: Vec::new(),
            last_pause_tick_ms: now_ms,
            last_editable_tick_ms: now_ms,
            last_snapshot_tick_ms: now_ms,
        }
    }

    /// Every hosted instance is paused (vacuously true with none hosted).
    pub fn hosted_all_paused(&self) -> (r: bool)
        ensures
            r == all_hosted_paused(self.hosted@),
    {
        let mut i: usize = 0;
        while i < self.hosted.len()
            invariant
                0 <= i <= self.hosted@.len(),
                forall|j: int| 0 <= j < i ==> #[trigger] self.hosted@[j].paused,
            decreases self.hosted@.len() - i,
        {
            if !self.hosted[i].paused {
                return false;
            }
            i += 1;
        }
        true
    }

    /// Whether both telemetry caches hold a snapshot.
    pub fn has_registry_snapshot(&self) -> (r: bool)
        ensures
            r == (self.cached_system is Some && self.cached_appdata is Some),
    {
        self.cached_system.is_some() && self.cached_appdata.is_some()
    }

    /// Whether the monitor layout differs from the one the last apply saw:
    /// a different count, or any rectangle moved.
    pub fn monitors_changed(&self, current: &Vec<MonitorArea>) -> (r: bool)
        ensures
            r == (self.last_monitor_rects@ != current@.map_values(|m: MonitorArea| m.rect)),
    {
        let mut rects: Vec<Rect> = Vec::new();
        let mut i: usize = 0;
        proof {
            assert(rects@ =~= current@.take(0).map_values(|m: MonitorArea| m.rect));
        }
        while i < current.len()
            invariant
                0 <= i <= current@.len(),
                rects@ == current@.take(i as int).map_values(|m: MonitorArea| m.rect),
            decreases current@.len() - i,
        {
            rects.push(current[i].rect);
            proof {
                assert(rects@ =~= current@.take(i + 1).map_values(|m: MonitorArea| m.rect));
            }
            i += 1;
        }
        proof {
            assert(current@.take(current@.len() as int) =~= current@);
        }
        crate::topology::rects_changed(&self.last_monitor_rects, &rects)
    }

    /// The monitor rectangle of every hosted instance, in hosting order.
    pub fn hosted_rects(&self) -> (r: Vec<Rect>)
        ensures
            r@ == self.hosted@.map_values(|h: InstanceState| h.monitor_rect),
    {
        let mut rects: Vec<Rect> = Vec::new();
        let mut i: usize = 0;
        proof {
            assert(rects@ =~= self.hosted@.take(0).map_values(
                |h: InstanceState| h.monitor_rect,
            ));
        }
        while i < self.hosted.len()
            invariant
                0 <= i <= self.hosted@.len(),
                rects@ == self.hosted@.take(i as int).map_values(
                    |h: InstanceState| h.monitor_rect,
                ),
            decreases self.hosted@.len() - i,
        {
            rects.push(self.hosted[i].monitor_rect);
            proof {
                assert(rects@ =~= self.hosted@.take(i + 1).map_values(
                    |h: InstanceState| h.monitor_rect,
                ));
            }
            i += 1;
        }
        proof {
            assert(self.hosted@.take(self.hosted@.len() as int) =~= self.hosted@);
        }
        rects
    }

    /// The distinct content directories in use, first occurrence first.
    pub fn active_asset_dirs(&self) -> (r: Vec<String>)
        ensures
            r@ == dedup_dirs(self.hosted@),
    {
        let mut dirs: Vec<String> = Vec::new();
        let mut i: usize = 0;
        proof {
            assert(dirs@ =~= dedup_dirs(self.hosted@.take(0)));
        }
        while i < self.hosted.len()
            invariant
                0 <= i <= self.hosted@.len(),
                dirs@ == dedup_dirs(self.hosted@.take(i as int)),
            decreases self.hosted@.len() - i,
        {
            let dir = self.hosted[i].asset_dir.as_str();
            let mut seen = false;
            let mut k: usize = 0;
            while k < dirs.len()
                invariant
                    0 <= k <= dirs@.len(),
                    0 <= i < self.hosted@.len(),
                    dir@ == self.hosted@[i as int].asset_dir@,
                    seen == (exists|k2: int|
                        0 <= k2 < k && #[trigger] dirs@[k2]@ == self.hosted@[i as int].asset_dir@),
                decreases dirs@.len() - k,
            {
                if crate::text::str_eq(dirs[k].as_str(), dir) {
                    seen = true;
                }
                k += 1;
            }
            proof {
                assert(seen == dir_in(dirs@, self.hosted@[i as int].asset_dir@));
                assert(self.hosted@.take(i + 1).drop_last() =~= self.hosted@.take(i as int));
                assert(self.hosted@.take(i + 1).last() == self.hosted@[i as int]);
            }
            if !seen {
                dirs.push(self.hosted[i].asset_dir.clone());
            }
            i += 1;
        }
        proof {
            assert(self.hosted@.take(self.hosted@.len() as int) =~= self.hosted@);
        }
        dirs
    }

    /// The positions of the instances hosted from the given content
    /// directory; a reload after a debounced change navigates exactly these.
    pub fn reload_wallpapers_for_asset_dir(&self, asset_dir: &str) -> (r: Vec<usize>)
        ensures
            forall|k: int|
                0 <= k < r@.len() ==> #[trigger] r@[k] < self.hosted@.len()
                    && self.hosted@[r@[k] as int].asset_dir@ == asset_dir@,
            forall|i: int|
                0 <= i < self.hosted@.len() && #[trigger] self.hosted@[i].asset_dir@ == asset_dir@
                    ==> r@.contains(i as usize),
    {
        let mut out: Vec<usize> = Vec::new();
        let mut i: usize = 0;
        while i < self.hosted.len()
            invariant
                0 <= i <= self.hosted@.len(),
                forall|k: int|
                    0 <= k < out@.len() ==> #[trigger] out@[k] < self.hosted@.len()
                        && self.hosted@[out@[k] as int].asset_dir@ == asset_dir@,
                forall|j: int|
                    0 <= j < i && #[trigger] self.hosted@[j].asset_dir@ == asset_dir@
                        ==> out@.contains(j as usize),
            decreases self.hosted@.len() - i,
        {
            let hit = crate::text::str_eq(self.hosted[i].asset_dir.as_str(), asset_dir);
            let ghost before = out@;
            if hit {
                out.push(i);
            }
            proof {
                assert forall|j: int|
                    0 <= j < i + 1 && #[trigger] self.hosted@[j].asset_dir@ == asset_dir@ implies
                    out@.contains(j as usize) by {
                    if j < i {
                        let k = choose|k: int| 0 <= k < before.len() && before[k] == j as usize;
                        assert(out@[k] == j as usize);
                    } else {
                        assert(hit);
                        assert(out@[before.len() as int] == i as usize);
                    }
                }
            }
            i += 1;
        }
        out
    }

    /// The telemetry sections demanded while any instance runs: the full
    /// sorted list, or nothing with every instance paused.
    pub fn demanded_sections(&self) -> (r: Vec<String>)
        ensures
            any_hosted_active(self.hosted@) ==> is_demand_list(r@),
            !any_hosted_active(self.hosted@) ==> r@.len() == 0,
    {
        let mut any_active = false;
        let mut i: usize = 0;
        while i < self.hosted.len()
            invariant
                0 <= i <= self.hosted@.len(),
                any_active == (exists|j: int| 0 <= j < i && !(#[trigger] self.hosted@[j].paused)),
            decreases self.hosted@.len() - i,
        {
            if !self.hosted[i].paused {
                any_active = true;
            }
            i += 1;
        }
        let mut out: Vec<String> = Vec::new();
        if any_active {
            out.push(String::from_str("appdata"));
            out.push(String::from_str("audio"));
            out.push(String::from_str("bluetooth"));
            out.push(String::from_str("cpu"));
            out.push(String::from_str("displays"));
            out.push(String::from_str("gpu"));
            out.push(String::from_str("idle"));
            out.push(String::from_str("keyboard"));
            out.push(String::from_str("mouse"));
            out.push(String::from_str("network"));
            out.push(String::from_str("power"));
            out.push(String::from_str("processes"));
            out.push(String::from_str("ram"));
            out.push(String::from_str("storage"));
            out.push(String::from_str("system"));
            out.push(String::from_str("time"));
            out.push(String::from_str("wifi"));
        }
        out
    }
}


impl RuntimeState {
    /// Applies a configuration: tears the hosted set down, re-reads the
    /// pause settings, clears every cache and cadence, and hosts one fresh
    /// instance per planned launch. No monitors, or no profiles at all, is
    /// fatal to the whole pass: nothing is hosted.
    pub fn apply(
        &mut self,
        profiles: &Vec<WallpaperConfig>,
        assets: &Vec<RegistryAsset>,
        monitors: &Vec<MonitorArea>,
        pausing: &crate::config::PausingSettings,
        log_pause_state_changes: bool,
        now_ms: u64,
    )
        ensures
            final(self).pause_check_interval_ms == (if pausing.check_interval_ms >= 100 {
                pausing.check_interval_ms
            } else {
                100
            }),
            final(self).idle_pause_after_ms == (if pausing.idle_timeout_ms == 0 {
                None::<u64>
            } else {
                Some(pausing.idle_timeout_ms)
            }),
            final(self).log_pause_state_changes == log_pause_state_changes,
            !final(self).registry_connected,
            final(self).cached_system is None,
            final(self).cached_appdata is None,
            final(self).last_registry_payload is None,
            !final(self).last_demands_active,
            final(self).last_pause_tick_ms == now_ms,
            final(self).last_editable_tick_ms == now_ms,
            final(self).last_snapshot_tick_ms == now_ms,
            profiles@.len() == 0 || monitors@.len() == 0 ==> final(self).hosted@.len() == 0
                && final(self).last_monitor_rects == old(self).last_monitor_rects,
            profiles@.len() > 0 && monitors@.len() > 0 ==> is_applied_state(
                profiles@,
                assets@,
                monitors@,
                final(self).hosted@,
            ) && final(self).last_monitor_rects@ == monitors@.map_values(
                |m: MonitorArea| m.rect,
            ),
    {
        self.hosted = Vec::new();
        self.pause_check_interval_ms = if pausing.check_interval_ms >= 100 {
            pausing.check_interval_ms
        } else {
            100
        };
        self.idle_pause_after_ms = if pausing.idle_timeout_ms == 0 {
            None
        } else {
            Some(pausing.idle_timeout_ms)
        };
        self.log_pause_state_changes = log_pause_state_changes;
        self.registry_connected = false;
        self.cached_system = None;
        self.cached_appdata = None;
        self.last_registry_payload = None;
        self.last_demands_active = false;
        self.last_pause_tick_ms = now_ms;
        self.last_editable_tick_ms = now_ms;
        self.last_snapshot_tick_ms = now_ms;
        if profiles.len() == 0 || monitors.len() == 0 {
            return ;
        }
        let mut rects: Vec<Rect> = Vec::new();
        let mut mi: usize = 0;
        proof {
            assert(rects@ =~= monitors@.take(0).map_values(|m: MonitorArea| m.rect));
        }
        while mi < monitors.len()
            invariant
                0 <= mi <= monitors@.len(),
                rects@ == monitors@.take(mi as int).map_values(|m: MonitorArea| m.rect),
            decreases monitors@.len() - mi,
        {
            rects.push(monitors[mi].rect);
            proof {
                assert(rects@ =~= monitors@.take(mi as int + 1).map_values(
                    |m: MonitorArea| m.rect,
                ));
            }
            mi += 1;
        }
        proof {
            assert(monitors@.take(monitors@.len() as int) =~= monitors@);
        }
        self.last_monitor_rects = rects;
        let mut plan = plan_apply(profiles, assets, monitors);
        let ghost full = plan@;
        let ghost items = plan_items(profiles@, assets@, monitors@);
        let mut hosted: Vec<InstanceState> = Vec::new();
        proof {
            assert(plan@ =~= full.skip(0));
        }
        while plan.len() > 0
            invariant
                hosted@.len() + plan@.len() == full.len(),
                plan@ == full.skip(hosted@.len() as int),
                plan_matches(full, items),
                forall|k: int|
                    0 <= k < hosted@.len() ==> instance_matches(
                        #[trigger] hosted@[k],
                        items[k].0,
                        items[k].1,
                        items[k].2,
                    ),
            decreases plan@.len(),
        {
            let ghost n = hosted@.len() as int;
            proof {
                assert(plan@[0] == full[n]);
                assert(full.skip(n).drop_first() =~= full.skip(n + 1));
            }
            let l = plan.remove(0);
            hosted.push(
                InstanceState {
                    section: l.section,
                    source_url: l.url,
                    asset_dir: l.asset_dir,
                    monitor_rect: l.monitor.rect,
                    monitor_index: l.monitor.index,
                    monitor_id: None,
                    pause_focus_mode: l.pause_focus_mode,
                    pause_maximized_mode: l.pause_maximized_mode,
                    pause_fullscreen_mode: l.pause_fullscreen_mode,
                    pause_battery_mode: l.pause_battery_mode,
                    paused: false,
                },
            );
            proof {
                assert(launch_matches(full[n], items[n].0, items[n].1, items[n].2));
                assert(instance_matches(hosted@.last(), items[n].0, items[n].1, items[n].2));
            }
        }
        self.hosted = hosted;
    }
}


impl RuntimeState {
    /// One tick's bookkeeping and decisions: demand tracking, registry
    /// caching and payload gating, and the editable, pause and snapshot
    /// cadences. The pause cadence runs on its own interval even when the
    /// registry pull failed (it evaluates from the cached telemetry and the
    /// foreground observation); payload delivery, editable pushes and the
    /// keep-fresh save wait for a live pull. With nothing hosted the tick
    /// does nothing at all.
    pub fn tick(&mut self, now_ms: u64, update: Option<RegistryUpdate>) -> (r: TickActions)
        ensures
            final(self).hosted@ == old(self).hosted@,
            final(self).pause_check_interval_ms == old(self).pause_check_interval_ms,
            final(self).idle_pause_after_ms == old(self).idle_pause_after_ms,
            final(self).log_pause_state_changes == old(self).log_pause_state_changes,
            final(self).last_monitor_rects == old(self).last_monitor_rects,
            old(self).hosted@.len() == 0 ==> {
                &&& *final(self) == *old(self)
                &&& r.send_demands is None
                &&& !r.deliver_payload
                &&& !r.check_editables
                &&& !r.evaluate_pause
                &&& !r.save_snapshot
            },
            old(self).hosted@.len() > 0 ==> {
                let active = any_hosted_active(old(self).hosted@);
                &&& final(self).last_demands_active == active
                &&& (r.send_demands is Some) == (active != old(self).last_demands_active)
                &&& (r.send_demands matches Some(v) ==> (active ==> is_demand_list(v@)) && (
                !active ==> v@.len() == 0))
                &&& match update {
                    Some(u) => {
                        &&& final(self).registry_connected
                        &&& final(self).cached_system == Some(u.system)
                        &&& final(self).cached_appdata == Some(u.app_data)
                        &&& r.deliver_payload == (active && (old(self).last_registry_payload
                            is None || old(self).last_registry_payload.unwrap()@ != u.payload@))
                        &&& (r.deliver_payload ==> (final(self).last_registry_payload
                            matches Some(p) && p@ == u.payload@))
                        &&& (!r.deliver_payload ==> final(self).last_registry_payload == old(
                            self,
                        ).last_registry_payload)
                    },
                    None => {
                        &&& !final(self).registry_connected
                        &&& final(self).cached_system == old(self).cached_system
                        &&& final(self).cached_appdata == old(self).cached_appdata
                        &&& final(self).last_registry_payload == old(self).last_registry_payload
                        &&& !r.deliver_payload
                    },
                }
                &&& r.evaluate_pause == (sat_elapsed(now_ms, old(self).last_pause_tick_ms)
                    >= old(self).pause_check_interval_ms)
                &&& final(self).last_pause_tick_ms == (if r.evaluate_pause {
                    now_ms
                } else {
                    old(self).last_pause_tick_ms
                })
                &&& (update is None ==> {
                    &&& !r.check_editables
                    &&& !r.save_snapshot
                    &&& final(self).last_editable_tick_ms == old(self).last_editable_tick_ms
                    &&& final(self).last_snapshot_tick_ms == old(self).last_snapshot_tick_ms
                })
                &&& (update is Some ==> {
                    &&& r.check_editables == (sat_elapsed(now_ms, old(self).last_editable_tick_ms)
                        >= 250)
                    &&& final(self).last_editable_tick_ms == (if r.check_editables {
                        now_ms
                    } else {
                        old(self).last_editable_tick_ms
                    })
                    &&& r.save_snapshot == (!all_hosted_paused(old(self).hosted@) && sat_elapsed(
                        now_ms,
                        old(self).last_snapshot_tick_ms,
                    ) >= 5000)
                    &&& final(self).last_snapshot_tick_ms == (if r.save_snapshot {
                        now_ms
                    } else {
                        old(self).last_snapshot_tick_ms
                    })
                })
            },
    {
        if self.hosted.len() == 0 {
            return TickActions {
                send_demands: None,
                deliver_payload: false,
                check_editables: false,
                evaluate_pause: false,
                save_snapshot: false,
            };
        }
        let mut active = false;
        let mut all_paused = true;
        let mut i: usize = 0;
        while i < self.hosted.len()
            invariant
                0 <= i <= self.hosted@.len(),
                active == (exists|j: int| 0 <= j < i && !(#[trigger] self.hosted@[j].paused)),
                all_paused == (forall|j: int| 0 <= j < i ==> #[trigger] self.hosted@[j].paused),
            decreases self.hosted@.len() - i,
        {
            if !self.hosted[i].paused {
                active = true;
                all_paused = false;
            }
            i += 1;
        }
        let send_demands: Option<Vec<String>> = if active != self.last_demands_active {
            Some(self.demanded_sections())
        } else {
            None
        };
        self.last_demands_active = active;
        let mut deliver = false;
        let has_update = update.is_some();
        match update {
            Some(u) => {
                self.registry_connected = true;
                let changed = match &self.last_registry_payload {
                    Some(prev) => !crate::text::str_eq(prev.as_str(), u.payload.as_str()),
                    None => true,
                };
                deliver = active && changed;
                self.cached_system = Some(u.system);
                self.cached_appdata = Some(u.app_data);
                if deliver {
                    self.last_registry_payload = Some(u.payload);
                }
            },
            None => {
                self.registry_connected = false;
            },
        }
        // The pause cadence runs whether or not the pull succeeded: a
        // single failed pull is recoverable, and the foreground and
        // fullscreen signals do not come from the bridge.
        let pe: u64 = if now_ms >= self.last_pause_tick_ms {
            now_ms - self.last_pause_tick_ms
        } else {
            0
        };
        let evaluate_pause = pe >= self.pause_check_interval_ms;
        if evaluate_pause {
            self.last_pause_tick_ms = now_ms;
        }
        if !has_update {
            return TickActions {
                send_demands,
                deliver_payload: false,
                check_editables: false,
                evaluate_pause,
                save_snapshot: false,
            };
        }
        let ed: u64 = if now_ms >= self.last_editable_tick_ms {
            now_ms - self.last_editable_tick_ms
        } else {
            0
        };
        let check_editables = ed >= 250;
        if check_editables {
            self.last_editable_tick_ms = now_ms;
        }
        let sn: u64 = if now_ms >= self.last_snapshot_tick_ms {
            now_ms - self.last_snapshot_tick_ms
        } else {
            0
        };
        let save_snapshot = !all_paused && sn >= 5000;
        if save_snapshot {
            self.last_snapshot_tick_ms = now_ms;
        }
        TickActions {
            send_demands,
            deliver_payload: deliver,
            check_editables,
            evaluate_pause,
            save_snapshot,
        }
    }
}


/// What one pause synchronization concluded: whether states changed, which
/// instances flipped, whether a snapshot must be captured (and whether it
/// must also be applied as the real desktop background), and whether the
/// system just left the all-paused state, which signals a full re-apply.
#[derive(Debug, PartialEq, Eq)]
pub struct SyncOutcome {
    pub states_changed: bool,
    pub flipped: Vec<usize>,
    pub capture_snapshot: bool,
    pub apply_snapshot_to_desktop: bool,
    pub unpaused_transition: bool,
}

impl RuntimeState {
    /// Re-evaluates every instance's pause decision from the one cached
    /// telemetry snapshot and the observed foreground window, updating each
    /// instance's telemetry identity and paused flag in place.
    #[verifier::rlimit(60)]
    fn evaluate_and_apply_pause(&mut self, fg: Option<ForegroundObs>, shell_foreground: bool) -> (r:
        (bool, Vec<usize>))
        ensures
            pause_eval_post(
                old(self).hosted@,
                final(self).hosted@,
                old(self).cached_system,
                old(self).cached_appdata,
                old(self).idle_pause_after_ms,
                fg,
                shell_foreground,
            ),
            final(self).pause_check_interval_ms == old(self).pause_check_interval_ms,
            final(self).idle_pause_after_ms == old(self).idle_pause_after_ms,
            final(self).log_pause_state_changes == old(self).log_pause_state_changes,
            final(self).registry_connected == old(self).registry_connected,
            final(self).cached_system == old(self).cached_system,
            final(self).cached_appdata == old(self).cached_appdata,
            final(self).last_registry_payload == old(self).last_registry_payload,
            final(self).last_demands_active == old(self).last_demands_active,
            final(self).last_monitor_rects == old(self).last_monitor_rects,
            final(self).last_pause_tick_ms == old(self).last_pause_tick_ms,
            final(self).last_editable_tick_ms == old(self).last_editable_tick_ms,
            final(self).last_snapshot_tick_ms == old(self).last_snapshot_tick_ms,
            r.0 == (exists|i: int|
                0 <= i < old(self).hosted@.len() && #[trigger] old(self).hosted@[i].paused
                    != final(self).hosted@[i].paused),
            forall|k: int|
                0 <= k < r.1@.len() ==> #[trigger] r.1@[k] < old(self).hosted@.len() && old(
                    self,
                ).hosted@[r.1@[k] as int].paused != final(self).hosted@[r.1@[k] as int].paused,
            forall|i: int|
                0 <= i < old(self).hosted@.len() && #[trigger] old(self).hosted@[i].paused
                    != final(self).hosted@[i].paused ==> r.1@.contains(i as usize),
    {
        let ghost old_hosted = self.hosted@;
        let ghost cs0 = self.cached_system;
        let ghost ca0 = self.cached_appdata;
        let ghost ia0 = self.idle_pause_after_ms;
        let ghost self0 = *self;
        // One consistent global view for every instance in this pass.
        let g0 = match &self.cached_appdata {
            Some(a) => crate::pause::global_window_states(a),
            None => None,
        };
        let mut global = match g0 {
            Some(st) => st,
            None => WindowStates { focused: false, maximized: false, fullscreen: false },
        };
        match &fg {
            Some(f) => {
                global.focused = global.focused || f.states.focused;
                global.maximized = global.maximized || f.states.maximized;
                global.fullscreen = global.fullscreen || f.states.fullscreen;
            },
            None => {},
        }
        if shell_foreground {
            global.focused = false;
        }
        proof {
            assert(global == global_merged(appdata_of(ca0), fg, shell_foreground));
        }
        let idle = crate::pause::idle_triggered(
            self.idle_pause_after_ms,
            match &self.cached_system {
                Some(sy) => sy.idle_ms,
                None => None,
            },
        );
        let batt = match &self.cached_system {
            Some(sy) => crate::pause::power_on_battery(&sy.power),
            None => false,
        };
        proof {
            assert(idle == idle_trigger_spec(self.idle_pause_after_ms, idle_of(cs0)));
            assert(batt == battery_trigger_spec(cs0));
        }
        let n = self.hosted.len();
        let mut flipped: Vec<usize> = Vec::new();
        let mut changed = false;
        let mut i: usize = 0;
        while i < n
            invariant
                0 <= i <= n,
                n == self.hosted@.len(),
                old_hosted.len() == n,
                self.cached_system == cs0,
                self.cached_appdata == ca0,
                self.idle_pause_after_ms == ia0,
                self.pause_check_interval_ms == self0.pause_check_interval_ms,
                self.log_pause_state_changes == self0.log_pause_state_changes,
                self.registry_connected == self0.registry_connected,
                self.last_registry_payload == self0.last_registry_payload,
                self.last_demands_active == self0.last_demands_active,
                self.last_monitor_rects == self0.last_monitor_rects,
                self.last_pause_tick_ms == self0.last_pause_tick_ms,
                self.last_editable_tick_ms == self0.last_editable_tick_ms,
                self.last_snapshot_tick_ms == self0.last_snapshot_tick_ms,
                global == global_merged(appdata_of(ca0), fg, shell_foreground),
                idle == idle_trigger_spec(ia0, idle_of(cs0)),
                batt == battery_trigger_spec(cs0),
                forall|j: int| i <= j < n ==> #[trigger] self.hosted@[j] == old_hosted[j],
                forall|j: int|
                    0 <= j < i ==> instance_eval_post(
                        old_hosted[j],
                        #[trigger] self.hosted@[j],
                        cs0,
                        ca0,
                        ia0,
                        fg,
                        shell_foreground,
                    ),
                changed == (exists|j: int|
                    0 <= j < i && #[trigger] old_hosted[j].paused != self.hosted@[j].paused),
                forall|k: int|
                    0 <= k < flipped@.len() ==> #[trigger] flipped@[k] < i && old_hosted[
                        flipped@[k] as int
                    ].paused != self.hosted@[flipped@[k] as int].paused,
                forall|j: int|
                    0 <= j < i && #[trigger] old_hosted[j].paused != self.hosted@[j].paused
                        ==> flipped@.contains(j as usize),
            decreases n - i,
        {
            let rect = self.hosted[i].monitor_rect;
            let id: Option<String> = match &self.cached_system {
                Some(sy) => crate::pause::resolve_monitor_id_for_rect(&sy.displays, rect),
                None => None,
            };
            let mut local = match &id {
                Some(ids) => match &self.cached_appdata {
                    Some(a) => crate::pause::monitor_states_by_id(a, ids.as_str()),
                    None => WindowStates { focused: false, maximized: false, fullscreen: false },
                },
                None => WindowStates { focused: false, maximized: false, fullscreen: false },
            };
            match &fg {
                Some(f) => {
                    if crate::geometry::rect_matches_monitor(rect, f.monitor_rect) {
                        local.focused = local.focused || f.states.focused;
                        local.maximized = local.maximized || f.states.maximized;
                        local.fullscreen = local.fullscreen || f.states.fullscreen;
                    }
                },
                None => {},
            }
            if shell_foreground {
                local.focused = false;
            }
            proof {
                assert(local == local_merged(appdata_of(ca0), id, rect, fg, shell_foreground));
            }
            let inst = &self.hosted[i];
            let should = crate::pause::should_pause(
                idle,
                batt,
                inst.pause_focus_mode,
                inst.pause_maximized_mode,
                inst.pause_fullscreen_mode,
                inst.pause_battery_mode,
                local,
                global,
            );
            let was = inst.paused;
            let updated = InstanceState {
                section: self.hosted[i].section.clone(),
                source_url: self.hosted[i].source_url.clone(),
                asset_dir: self.hosted[i].asset_dir.clone(),
                monitor_rect: rect,
                monitor_index: self.hosted[i].monitor_index,
                monitor_id: id,
                pause_focus_mode: self.hosted[i].pause_focus_mode,
                pause_maximized_mode: self.hosted[i].pause_maximized_mode,
                pause_fullscreen_mode: self.hosted[i].pause_fullscreen_mode,
                pause_battery_mode: self.hosted[i].pause_battery_mode,
                paused: should,
            };
            self.hosted[i] = updated;
            let ghost flipped_before = flipped@;
            if should != was {
                changed = true;
                flipped.push(i);
            }
            proof {
                assert(instance_eval_post(
                    old_hosted[i as int],
                    self.hosted@[i as int],
                    cs0,
                    ca0,
                    ia0,
                    fg,
                    shell_foreground,
                ));
                assert forall|j: int|
                    0 <= j < i + 1 && #[trigger] old_hosted[j].paused != self.hosted@[j].paused
                        implies flipped@.contains(j as usize) by {
                    if j < i {
                        let k = choose|k: int|
                            0 <= k < flipped_before.len() && flipped_before[k] == j as usize;
                        assert(flipped@[k] == j as usize);
                    } else {
                        assert(should != was);
                        assert(flipped@[flipped_before.len() as int] == i as usize);
                    }
                }
            }
            i += 1;
        }
        (changed, flipped)
    }

    /// Synchronizes pause state now: evaluates every instance, and reports
    /// what must follow. When any instance newly paused, a snapshot must be
    /// captured, and applied as the real desktop background exactly when
    /// that left every instance paused; leaving the all-paused state signals
    /// a full re-apply. The platform layer also re-applies window
    /// visibility (hidden while paused) after every change.
    pub fn sync_pause_state_now(
        &mut self,
        all_paused_before: bool,
        fg: Option<ForegroundObs>,
        shell_foreground: bool,
    ) -> (r: SyncOutcome)
        ensures
            pause_eval_post(
                old(self).hosted@,
                final(self).hosted@,
                old(self).cached_system,
                old(self).cached_appdata,
                old(self).idle_pause_after_ms,
                fg,
                shell_foreground,
            ),
            final(self).cached_system == old(self).cached_system,
            final(self).cached_appdata == old(self).cached_appdata,
            final(self).pause_check_interval_ms == old(self).pause_check_interval_ms,
            final(self).idle_pause_after_ms == old(self).idle_pause_after_ms,
            final(self).log_pause_state_changes == old(self).log_pause_state_changes,
            final(self).registry_connected == old(self).registry_connected,
            final(self).last_registry_payload == old(self).last_registry_payload,
            final(self).last_demands_active == old(self).last_demands_active,
            final(self).last_monitor_rects == old(self).last_monitor_rects,
            final(self).last_pause_tick_ms == old(self).last_pause_tick_ms,
            final(self).last_editable_tick_ms == old(self).last_editable_tick_ms,
            final(self).last_snapshot_tick_ms == old(self).last_snapshot_tick_ms,
            r.states_changed == (exists|i: int|
                0 <= i < old(self).hosted@.len() && #[trigger] old(self).hosted@[i].paused
                    != final(self).hosted@[i].paused),
            r.capture_snapshot == (exists|i: int|
                0 <= i < old(self).hosted@.len() && !(#[trigger] old(self).hosted@[i].paused)
                    && final(self).hosted@[i].paused),
            r.apply_snapshot_to_desktop == all_hosted_paused(final(self).hosted@),
            r.unpaused_transition == (r.states_changed && all_paused_before && !all_hosted_paused(
                final(self).hosted@,
            )),
            forall|k: int|
                0 <= k < r.flipped@.len() ==> #[trigger] r.flipped@[k] < old(self).hosted@.len()
                    && old(self).hosted@[r.flipped@[k] as int].paused != final(self).hosted@[
                    r.flipped@[k] as int
                ].paused,
            forall|i: int|
                0 <= i < old(self).hosted@.len() && #[trigger] old(self).hosted@[i].paused
                    != final(self).hosted@[i].paused ==> r.flipped@.contains(i as usize),
    {
        let ghost old_hosted = self.hosted@;
        let mut before: Vec<bool> = Vec::new();
        let mut i: usize = 0;
        proof {
            assert(before@ =~= old_hosted.take(0).map_values(|h: InstanceState| h.paused));
        }
        while i < self.hosted.len()
            invariant
                0 <= i <= self.hosted@.len(),
                self.hosted@ == old_hosted,
                before@ == old_hosted.take(i as int).map_values(|h: InstanceState| h.paused),
            decreases self.hosted@.len() - i,
        {
            before.push(self.hosted[i].paused);
            proof {
                assert(before@ =~= old_hosted.take(i as int + 1).map_values(
                    |h: InstanceState| h.paused,
                ));
            }
            i += 1;
        }
        proof {
            assert(old_hosted.take(old_hosted.len() as int) =~= old_hosted);
        }
        let (states_changed, flipped) = self.evaluate_and_apply_pause(fg, shell_foreground);
        let n = self.hosted.len();
        let mut any_new_paused = false;
        let mut all_now = true;
        let mut k: usize = 0;
        while k < n
            invariant
                0 <= k <= n,
                n == self.hosted@.len(),
                n == before@.len(),
                forall|j: int| 0 <= j < n ==> #[trigger] before@[j] == old_hosted[j].paused,
                any_new_paused == (exists|j: int|
                    0 <= j < k && !old_hosted[j].paused && #[trigger] self.hosted@[j].paused),
                all_now == (forall|j: int| 0 <= j < k ==> #[trigger] self.hosted@[j].paused),
            decreases n - k,
        {
            if !before[k] && self.hosted[k].paused {
                any_new_paused = true;
            }
            if !self.hosted[k].paused {
                all_now = false;
            }
            k += 1;
        }
        SyncOutcome {
            states_changed,
            flipped,
            capture_snapshot: any_new_paused,
            apply_snapshot_to_desktop: all_now,
            unpaused_transition: states_changed && all_paused_before && !all_now,
        }
    }
}


/// A plan in good standing: no monitor is planned twice, and every planned
/// monitor is recorded as claimed.
pub open spec fn plan_ok(
    items: Seq<(WallpaperConfig, RegistryAsset, MonitorArea)>,
    asg: Seq<usize>,
) -> bool {
    &&& forall|p: int, q: int|
        0 <= p < q < items.len() ==> #[trigger] items[p].2.index != #[trigger] items[q].2.index
    &&& forall|p: int| 0 <= p < items.len() ==> asg.contains(#[trigger] items[p].2.index)
}

proof fn lemma_span_fold_index(ms: Seq<MonitorArea>)
    requires
        ms.len() > 0,
    ensures
        exists|i: int| 0 <= i < ms.len() && span_fold(ms).index == #[trigger] ms[i].index,
    decreases ms.len(),
{
    if ms.len() == 1 {
        assert(span_fold(ms).index == ms[0].index);
    } else {
        lemma_span_fold_index(ms.drop_last());
        let prev = span_fold(ms.drop_last());
        if ms.last().index < prev.index {
            assert(span_fold(ms).index == ms[ms.len() - 1].index);
        } else {
            let i = choose|i: int|
                0 <= i < ms.drop_last().len() && prev.index == #[trigger] ms.drop_last()[i].index;
            assert(span_fold(ms).index == ms[i].index);
        }
    }
}

proof fn lemma_contains_extend(a: Seq<usize>, b: Seq<usize>, x: usize)
    requires
        a.contains(x),
    ensures
        (a + b).contains(x),
{
    let i = choose|i: int| 0 <= i < a.len() && a[i] == x;
    assert((a + b)[i] == x);
}

proof fn lemma_plan_profile_ok(
    items: Seq<(WallpaperConfig, RegistryAsset, MonitorArea)>,
    asg: Seq<usize>,
    prof: WallpaperConfig,
    assets: Seq<RegistryAsset>,
    monitors: Seq<MonitorArea>,
)
    requires
        plan_ok(items, asg),
    ensures
        plan_ok(
            plan_profile(items, asg, prof, assets, monitors).0,
            plan_profile(items, asg, prof, assets, monitors).1,
        ),
{
    match asset_index_for(assets, prof.wallpaper_id@) {
        None => {},
        Some(ai) => {
            let asset = assets[ai];
            match url_view_of(asset.source) {
                None => {},
                Some(_) => {
                    let targets = resolve_targets_spec(monitors, prof.monitor_index@, asg);
                    if targets.len() == 0 {
                    } else {
                        crate::assets::lemma_resolve_targets_ok(
                            monitors,
                            prof.monitor_index@,
                            asg,
                        );
                        let idx_seq = targets.map_values(|m: MonitorArea| m.index);
                        let asg2 = asg + idx_seq;
                        assert forall|p: int|
                            0 <= p < items.len() implies asg2.contains(
                            #[trigger] items[p].2.index,
                        ) by {
                            lemma_contains_extend(asg, idx_seq, items[p].2.index);
                        }
                        assert forall|t: int| 0 <= t < targets.len() implies asg2.contains(
                            #[trigger] targets[t].index,
                        ) by {
                            assert(asg2[asg.len() + t] == idx_seq[t]);
                        }
                        if eq_ignore_case_seq(prof.mode@, "span"@) && targets.len() > 1 {
                            lemma_span_fold_index(targets);
                            let si = choose|i: int|
                                0 <= i < targets.len() && span_fold(targets).index
                                    == #[trigger] targets[i].index;
                            let out = items.push((prof, asset, span_fold(targets)));
                            assert forall|p: int, q: int|
                                0 <= p < q < out.len() implies #[trigger] out[p].2.index
                                != #[trigger] out[q].2.index by {
                                if q == items.len() {
                                    assert(!asg.contains(targets[si].index));
                                    assert(asg.contains(items[p].2.index));
                                }
                            }
                        } else {
                            let added = targets.map_values(
                                |m: MonitorArea| (prof, asset, m),
                            );
                            let out = items + added;
                            assert forall|p: int, q: int|
                                0 <= p < q < out.len() implies #[trigger] out[p].2.index
                                != #[trigger] out[q].2.index by {
                                if p < items.len() && q >= items.len() {
                                    assert(out[q].2 == targets[q - items.len()]);
                                    assert(!asg.contains(targets[q - items.len()].index));
                                    assert(asg.contains(items[p].2.index));
                                } else if p >= items.len() {
                                    assert(out[p].2 == targets[p - items.len()]);
                                    assert(out[q].2 == targets[q - items.len()]);
                                }
                            }
                            assert forall|p: int| 0 <= p < out.len() implies asg2.contains(
                                #[trigger] out[p].2.index,
                            ) by {
                                if p >= items.len() {
                                    assert(out[p].2 == targets[p - items.len()]);
                                }
                            }
                        }
                    }
                },
            }
        },
    }
}

proof fn lemma_plan_pass_ok(
    profiles: Seq<WallpaperConfig>,
    assets: Seq<RegistryAsset>,
    monitors: Seq<MonitorArea>,
    prio: int,
    plan0: Seq<(WallpaperConfig, RegistryAsset, MonitorArea)>,
    asg0: Seq<usize>,
)
    requires
        plan_ok(plan0, asg0),
    ensures
        plan_ok(
            plan_pass(profiles, assets, monitors, prio, plan0, asg0).0,
            plan_pass(profiles, assets, monitors, prio, plan0, asg0).1,
        ),
    decreases profiles.len(),
{
    if profiles.len() > 0 {
        lemma_plan_pass_ok(profiles.drop_last(), assets, monitors, prio, plan0, asg0);
        let prev = plan_pass(profiles.drop_last(), assets, monitors, prio, plan0, asg0);
        let prof = profiles.last();
        if prof.enabled && profile_priority_spec(prof.monitor_index@) == prio {
            lemma_plan_profile_ok(prev.0, prev.1, prof, assets, monitors);
        }
    }
}

/// No apply plan ever claims one monitor for two launches: the planned
/// monitor indices are pairwise distinct.
pub proof fn lemma_plan_distinct(
    profiles: Seq<WallpaperConfig>,
    assets: Seq<RegistryAsset>,
    monitors: Seq<MonitorArea>,
)
    ensures
        forall|p: int, q: int|
            0 <= p < q < plan_items(profiles, assets, monitors).len()
                ==> #[trigger] plan_items(profiles, assets, monitors)[p].2.index
                != #[trigger] plan_items(profiles, assets, monitors)[q].2.index,
{
    let e = Seq::<(WallpaperConfig, RegistryAsset, MonitorArea)>::empty();
    let ea = Seq::<usize>::empty();
    assert(plan_ok(e, ea));
    lemma_plan_pass_ok(profiles, assets, monitors, 0, e, ea);
    let s0 = plan_pass(profiles, assets, monitors, 0, e, ea);
    lemma_plan_pass_ok(profiles, assets, monitors, 1, s0.0, s0.1);
    let s1 = plan_pass(profiles, assets, monitors, 1, s0.0, s0.1);
    lemma_plan_pass_ok(profiles, assets, monitors, 2, s1.0, s1.1);
}

/// Two instances host the same content in the same way: every observable
/// field agrees, the string fields up to their character content.
pub open spec fn instances_agree(a: InstanceState, b: InstanceState) -> bool {
    &&& a.section@ == b.section@
    &&& a.source_url@ == b.source_url@
    &&& a.asset_dir@ == b.asset_dir@
    &&& a.monitor_rect == b.monitor_rect
    &&& a.monitor_index == b.monitor_index
    &&& a.monitor_id == b.monitor_id
    &&& a.pause_focus_mode == b.pause_focus_mode
    &&& a.pause_maximized_mode == b.pause_maximized_mode
    &&& a.pause_fullscreen_mode == b.pause_fullscreen_mode
    &&& a.pause_battery_mode == b.pause_battery_mode
    &&& a.paused == b.paused
}

/// Re-applying an identical configuration recreates the hosted set
/// identically: the same number of instances, pairwise agreeing, and one
/// instance per claimed monitor, so no duplicate hosts are ever left
/// outstanding. The hosted set is replaced, never appended to, so the
/// resource count returns to its baseline.
pub proof fn lemma_apply_round_trip(
    profiles: Seq<WallpaperConfig>,
    assets: Seq<RegistryAsset>,
    monitors: Seq<MonitorArea>,
    h1: Seq<InstanceState>,
    h2: Seq<InstanceState>,
)
    requires
        is_applied_state(profiles, assets, monitors, h1),
        is_applied_state(profiles, assets, monitors, h2),
    ensures
        h1.len() == h2.len(),
        forall|k: int| 0 <= k < h1.len() ==> instances_agree(#[trigger] h1[k], h2[k]),
        forall|p: int, q: int|
            0 <= p < q < h1.len() ==> #[trigger] h1[p].monitor_index != #[trigger] h1[
                q
            ].monitor_index,
{
    let items = plan_items(profiles, assets, monitors);
    assert forall|k: int| 0 <= k < h1.len() implies instances_agree(
        #[trigger] h1[k],
        h2[k],
    ) by {
        assert(instance_matches(h1[k], items[k].0, items[k].1, items[k].2));
        assert(instance_matches(h2[k], items[k].0, items[k].1, items[k].2));
    }
    lemma_plan_distinct(profiles, assets, monitors);
    assert forall|p: int, q: int| 0 <= p < q < h1.len() implies #[trigger] h1[p].monitor_index
        != #[trigger] h1[q].monitor_index by {
        assert(instance_matches(h1[p], items[p].0, items[p].1, items[p].2));
        assert(instance_matches(h1[q], items[q].0, items[q].1, items[q].2));
    }
}

} // verus!
