//! Asset and monitor-target resolution: matching a profile's wallpaper id to
//! a registry asset, turning its metadata into a launch source, and
//! resolving the profile's monitor selector tokens against the current
//! topology.

use crate::config::WallpaperConfig;
use crate::text::{
    dec_seq, digits_val, eq_ignore_case_seq, is_digit_seq, parse_usize, str_contains_char,
    str_eq, str_eq_ignore_case, u64_to_dec,
};
use crate::topology::MonitorArea;
use vstd::prelude::*;

verus! {

/// How an asset launches, decided once when the asset is resolved: a remote
/// or explicit URL from its metadata, a local entry page, or nothing usable.
#[derive(Debug, PartialEq, Eq)]
pub enum LaunchSource {
    Url(String),
    LocalIndex(String),
    Unavailable,
}

impl Clone for LaunchSource {
    fn clone(&self) -> (r: Self)
        ensures
            r == *self,
    {
        match self {
            LaunchSource::Url(u) => LaunchSource::Url(u.clone()),
            LaunchSource::LocalIndex(p) => LaunchSource::LocalIndex(p.clone()),
            LaunchSource::Unavailable => LaunchSource::Unavailable,
        }
    }
}

/// One content asset from the registry: its identity, its category, the
/// directory its content lives in, and its resolved launch source.
#[derive(Debug, PartialEq, Eq)]
pub struct RegistryAsset {
    pub id: String,
    pub category: String,
    pub dir: String,
    pub source: LaunchSource,
}

impl Clone for RegistryAsset {
    fn clone(&self) -> (r: Self)
        ensures
            r == *self,
    {
        let r = RegistryAsset {
            id: self.id.clone(),
            category: self.category.clone(),
            dir: self.dir.clone(),
            source: self.source.clone(),
        };
        proof {
            assert(r == *self);
        }
        r
    }
}

/// Backslashes turned into forward slashes, as a URL needs.
pub open spec fn slash_char(c: char) -> char {
    if c == '\\' {
        '/'
    } else {
        c
    }
}

/// A filesystem path as a `file:///` URL.
pub open spec fn file_url_seq(path: Seq<char>) -> Seq<char> {
    "file:///"@ + path.map_values(|c: char| slash_char(c))
}

/// Builds the `file:///` URL of a local path, normalizing backslashes.
pub fn path_to_file_url(path: &str) -> (r: String)
    ensures
        r@ == file_url_seq(path@),
{
    let mut url = String::from_str("file:///");
    let len = path.unicode_len();
    let mut i: usize = 0;
    proof {
        assert(url@ =~= "file:///"@ + path@.take(0).map_values(|c: char| slash_char(c)));
    }
    while i < len
        invariant
            len == path@.len(),
            0 <= i <= len,
            url@ == "file:///"@ + path@.take(i as int).map_values(|c: char| slash_char(c)),
        decreases len - i,
    {
        let c = path.get_char(i);
        if c == '\\' {
            url.append("/");
        } else {
            let piece = path.substring_char(i, i + 1);
            url.append(piece);
        }
        proof {
            reveal_strlit("/");
            assert(path@.take(i + 1).map_values(|c2: char| slash_char(c2)) =~= path@.take(
                i as int,
            ).map_values(|c2: char| slash_char(c2)).push(slash_char(path@[i as int])));
            if c == '\\' {
                assert(url@ =~= "file:///"@ + path@.take(i + 1).map_values(
                    |c2: char| slash_char(c2),
                ));
            } else {
                assert(path@.subrange(i as int, i + 1) =~= seq![path@[i as int]]);
                assert(url@ =~= "file:///"@ + path@.take(i + 1).map_values(
                    |c2: char| slash_char(c2),
                ));
            }
        }
        i += 1;
    }
    proof {
        assert(path@.take(len as int) =~= path@);
    }
    url
}

/// The URL an asset is hosted from: its metadata URL when it has one, the
/// `file:///` URL of its local entry page otherwise, and nothing when the
/// asset offers neither.
pub fn resolve_asset_url(asset: &RegistryAsset) -> (r: Option<String>)
    ensures
        match asset.source {
            LaunchSource::Url(u) => r matches Some(s) && s@ == u@,
            LaunchSource::LocalIndex(p) => r matches Some(s) && s@ == file_url_seq(p@),
            LaunchSource::Unavailable => r is None,
        },
{
    match &asset.source {
        LaunchSource::Url(u) => Some(u.clone()),
        LaunchSource::LocalIndex(p) => Some(path_to_file_url(p.as_str())),
        LaunchSource::Unavailable => None,
    }
}

/// The first asset with the given id, if any.
pub open spec fn asset_index_for(assets: Seq<RegistryAsset>, id: Seq<char>) -> Option<int> {
    if exists|i: int| 0 <= i < assets.len() && #[trigger] assets[i].id@ == id {
        Some(
            choose|i: int|
                0 <= i < assets.len() && #[trigger] assets[i].id@ == id && forall|j: int|
                    0 <= j < i ==> assets[j].id@ != id,
        )
    } else {
        None
    }
}

/// Finds the first asset whose id matches exactly; a missing id is a soft
/// failure the caller skips the profile on.
pub fn resolve_asset(assets: &Vec<RegistryAsset>, wallpaper_id: &str) -> (r: Option<usize>)
    ensures
        match r {
            Some(i) => {
                &&& asset_index_for(assets@, wallpaper_id@) == Some(i as int)
                &&& i < assets@.len()
                &&& assets@[i as int].id@ == wallpaper_id@
            },
            None => asset_index_for(assets@, wallpaper_id@) is None,
        },
{
    let mut i: usize = 0;
    while i < assets.len()
        invariant
            0 <= i <= assets@.len(),
            forall|j: int| 0 <= j < i ==> #[trigger] assets@[j].id@ != wallpaper_id@,
        decreases assets@.len() - i,
    {
        if str_eq(assets[i].id.as_str(), wallpaper_id) {
            return Some(i);
        }
        i += 1;
    }
    None
}

/// Keeps only the assets of the wallpaper category, compared ignoring ASCII
/// case.
pub fn filter_wallpaper_assets(assets: Vec<RegistryAsset>) -> (r: Vec<RegistryAsset>)
    ensures
        r@ == assets@.filter(|a: RegistryAsset| eq_ignore_case_seq(a.category@, "wallpaper"@)),
{
    let mut out: Vec<RegistryAsset> = Vec::new();
    let mut i: usize = 0;
    proof {
        reveal(Seq::filter);
        assert(out@ =~= assets@.take(0).filter(
            |a: RegistryAsset| eq_ignore_case_seq(a.category@, "wallpaper"@),
        ));
    }
    while i < assets.len()
        invariant
            0 <= i <= assets@.len(),
            out@ == assets@.take(i as int).filter(
                |a: RegistryAsset| eq_ignore_case_seq(a.category@, "wallpaper"@),
            ),
        decreases assets@.len() - i,
    {
        let keep = str_eq_ignore_case(assets[i].category.as_str(), "wallpaper");
        if keep {
            out.push(assets[i].clone());
        }
        proof {
            reveal(Seq::filter);
            assert(assets@.take(i + 1).drop_last() =~= assets@.take(i as int));
            assert(assets@.take(i + 1).last() == assets@[i as int]);
        }
        i += 1;
    }
    proof {
        assert(assets@.take(assets@.len() as int) =~= assets@);
    }
    out
}

/// One monitor selector token: the primary monitor, all remaining monitors,
/// a stable zero-based index, or a word the engine ignores.
#[derive(Debug, Clone, Copy, PartialEq, Eq, Structural)]
pub enum SelectorToken {
    Primary,
    AllRemaining,
    Index(usize),
    Unrecognized,
}

/// The selector a configuration token denotes: `p` (either case) the
/// primary monitor, `*` all remaining, a digit string the monitor of that
/// index, anything else unrecognized.
pub open spec fn selector_token_of(s: Seq<char>) -> SelectorToken {
    if eq_ignore_case_seq(s, "p"@) {
        SelectorToken::Primary
    } else if s == "*"@ {
        SelectorToken::AllRemaining
    } else if is_digit_seq(s) && digits_val(s) <= usize::MAX {
        SelectorToken::Index(digits_val(s) as usize)
    } else {
        SelectorToken::Unrecognized
    }
}

/// Reads one selector token.
pub fn parse_selector_token(s: &str) -> (r: SelectorToken)
    ensures
        r == selector_token_of(s@),
{
    if str_eq_ignore_case(s, "p") {
        SelectorToken::Primary
    } else if str_eq(s, "*") {
        SelectorToken::AllRemaining
    } else {
        match parse_usize(s) {
            Some(v) => SelectorToken::Index(v),
            None => SelectorToken::Unrecognized,
        }
    }
}

/// Whether some token of the list selects the primary monitor.
pub open spec fn keys_have_primary(keys: Seq<String>) -> bool {
    exists|i: int|
        0 <= i < keys.len() && selector_token_of(#[trigger] keys[i]@) == SelectorToken::Primary
}

/// Whether some token of the list is the wildcard.
pub open spec fn keys_have_star(keys: Seq<String>) -> bool {
    exists|i: int|
        0 <= i < keys.len() && selector_token_of(#[trigger] keys[i]@)
            == SelectorToken::AllRemaining
}

/// The first monitor flagged primary, if any.
pub open spec fn first_primary(ms: Seq<MonitorArea>) -> Option<MonitorArea>
    decreases ms.len(),
{
    if ms.len() == 0 {
        None
    } else if ms[0].primary {
        Some(ms[0])
    } else {
        first_primary(ms.drop_first())
    }
}

/// Whether some already-picked target has this stable index.
pub open spec fn in_targets(res: Seq<MonitorArea>, index: usize) -> bool {
    exists|i: int| 0 <= i < res.len() && #[trigger] res[i].index == index
}

/// The primary phase of selector resolution: when a `p` token is present
/// and an unassigned primary monitor exists, it is picked first.
pub open spec fn resolve_phase_primary(
    monitors: Seq<MonitorArea>,
    keys: Seq<String>,
    assigned: Seq<usize>,
) -> Seq<MonitorArea> {
    if keys_have_primary(keys) {
        match first_primary(monitors) {
            Some(m) => if !assigned.contains(m.index) {
                seq![m]
            } else {
                Seq::<MonitorArea>::empty()
            },
            None => Seq::<MonitorArea>::empty(),
        }
    } else {
        Seq::<MonitorArea>::empty()
    }
}

/// The integer phase: each index token, in listed order, adds its monitor
/// when that monitor exists, is unassigned, and is not yet picked.
pub open spec fn resolve_phase_indexed(
    res: Seq<MonitorArea>,
    monitors: Seq<MonitorArea>,
    keys: Seq<String>,
    assigned: Seq<usize>,
) -> Seq<MonitorArea>
    decreases keys.len(),
{
    if keys.len() == 0 {
        res
    } else {
        let prev = resolve_phase_indexed(res, monitors, keys.drop_last(), assigned);
        match selector_token_of(keys.last()@) {
            SelectorToken::Index(idx) => {
                if idx < monitors.len() && !assigned.contains(monitors[idx as int].index)
                    && !in_targets(prev, monitors[idx as int].index) {
                    prev.push(monitors[idx as int])
                } else {
                    prev
                }
            },
            _ => prev,
        }
    }
}

/// The wildcard phase: every remaining unassigned, not yet picked monitor
/// is appended in topology order.
pub open spec fn resolve_phase_star(
    res: Seq<MonitorArea>,
    monitors: Seq<MonitorArea>,
    assigned: Seq<usize>,
) -> Seq<MonitorArea>
    decreases monitors.len(),
{
    if monitors.len() == 0 {
        res
    } else {
        let prev = resolve_phase_star(res, monitors.drop_last(), assigned);
        let m = monitors.last();
        if !assigned.contains(m.index) && !in_targets(prev, m.index) {
            prev.push(m)
        } else {
            prev
        }
    }
}

/// Complete selector resolution: the primary phase, then integer tokens in
/// order, then the wildcard phase when a `*` token is present.
pub open spec fn resolve_targets_spec(
    monitors: Seq<MonitorArea>,
    keys: Seq<String>,
    assigned: Seq<usize>,
) -> Seq<MonitorArea> {
    let afterp = resolve_phase_primary(monitors, keys, assigned);
    let afteri = resolve_phase_indexed(afterp, monitors, keys, assigned);
    if keys_have_star(keys) {
        resolve_phase_star(afteri, monitors, assigned)
    } else {
        afteri
    }
}

/// Resolves a profile's selector tokens against the ordered monitors,
/// honouring prior assignments: `p` first, integer tokens in listed order,
/// the wildcard last; no monitor is picked twice, and an assigned monitor is
/// never picked. An empty result is a soft failure for the profile.
pub fn resolve_target_monitors(
    monitors: &Vec<MonitorArea>,
    keys: &Vec<String>,
    assigned: &Vec<usize>,
) -> (r: Vec<MonitorArea>)
    ensures
        r@ == resolve_targets_spec(monitors@, keys@, assigned@),
{
    let mut result: Vec<MonitorArea> = Vec::new();

    // Primary phase.
    let mut have_p = false;
    let mut i: usize = 0;
    while i < keys.len()
        invariant
            0 <= i <= keys@.len(),
            have_p == (exists|j: int|
                0 <= j < i && selector_token_of(#[trigger] keys@[j]@) == SelectorToken::Primary),
        decreases keys@.len() - i,
    {
        if matches!(parse_selector_token(keys[i].as_str()), SelectorToken::Primary) {
            have_p = true;
        }
        i += 1;
    }
    if have_p {
        let mut k: usize = 0;
        let mut done = false;
        proof {
            assert(monitors@.skip(0) =~= monitors@);
        }
        while k < monitors.len() && !done
            invariant
                0 <= k <= monitors@.len(),
                keys_have_primary(keys@),
                !done ==> first_primary(monitors@) == first_primary(monitors@.skip(k as int)),
                !done ==> result@ =~= Seq::<MonitorArea>::empty(),
                done ==> result@ == resolve_phase_primary(monitors@, keys@, assigned@),
            decreases monitors@.len() - k,
        {
            proof {
                assert(monitors@.skip(k as int)[0] == monitors@[k as int]);
                assert(monitors@.skip(k as int).drop_first() =~= monitors@.skip(k + 1));
            }
            if monitors[k].primary {
                let m = monitors[k];
                proof {
                    assert(first_primary(monitors@.skip(k as int)) == Some(m));
                }
                if !contains_index(assigned, m.index) {
                    let ghost before = result@;
                    result.push(m);
                    proof {
                        assert(before =~= Seq::<MonitorArea>::empty());
                        assert(result@ =~= seq![m]);
                    }
                } else {
                    proof {
                        assert(result@ =~= Seq::<MonitorArea>::empty());
                    }
                }
                done = true;
            }
            k += 1;
        }
        proof {
            if !done {
                assert(monitors@.skip(monitors@.len() as int) =~= Seq::<MonitorArea>::empty());
                assert(first_primary(monitors@) is None);
            }
        }
    }
    proof {
        assert(result@ == resolve_phase_primary(monitors@, keys@, assigned@));
    }

    // Integer phase, tokens in listed order.
    let ghost afterp = result@;
    let mut t: usize = 0;
    proof {
        assert(resolve_phase_indexed(afterp, monitors@, keys@.take(0), assigned@) == afterp);
    }
    while t < keys.len()
        invariant
            0 <= t <= keys@.len(),
            result@ == resolve_phase_indexed(afterp, monitors@, keys@.take(t as int), assigned@),
        decreases keys@.len() - t,
    {
        proof {
            assert(keys@.take(t + 1).drop_last() =~= keys@.take(t as int));
            assert(keys@.take(t + 1).last() == keys@[t as int]);
        }
        match parse_selector_token(keys[t].as_str()) {
            SelectorToken::Index(idx) => {
                if idx < monitors.len() {
                    let m = monitors[idx];
                    if !contains_index(assigned, m.index) && !targets_contain(&result, m.index) {
                        result.push(m);
                    }
                }
            },
            _ => {},
        }
        t += 1;
    }
    proof {
        assert(keys@.take(keys@.len() as int) =~= keys@);
    }

    // Wildcard phase.
    let mut have_star = false;
    let mut s: usize = 0;
    while s < keys.len()
        invariant
            0 <= s <= keys@.len(),
            have_star == (exists|j: int|
                0 <= j < s && selector_token_of(#[trigger] keys@[j]@)
                    == SelectorToken::AllRemaining),
        decreases keys@.len() - s,
    {
        if matches!(parse_selector_token(keys[s].as_str()), SelectorToken::AllRemaining) {
            have_star = true;
        }
        s += 1;
    }
    if have_star {
        let ghost afteri = result@;
        let mut w: usize = 0;
        proof {
            assert(resolve_phase_star(afteri, monitors@.take(0), assigned@) == afteri);
        }
        while w < monitors.len()
            invariant
                0 <= w <= monitors@.len(),
                result@ == resolve_phase_star(afteri, monitors@.take(w as int), assigned@),
            decreases monitors@.len() - w,
        {
            proof {
                assert(monitors@.take(w + 1).drop_last() =~= monitors@.take(w as int));
                assert(monitors@.take(w + 1).last() == monitors@[w as int]);
            }
            let m = monitors[w];
            if !contains_index(assigned, m.index) && !targets_contain(&result, m.index) {
                result.push(m);
            }
            w += 1;
        }
        proof {
            assert(monitors@.take(monitors@.len() as int) =~= monitors@);
        }
    }
    result
}

/// Linear membership test on the assigned-index list.
fn contains_index(assigned: &Vec<usize>, index: usize) -> (r: bool)
    ensures
        r == assigned@.contains(index),
{
    let mut i: usize = 0;
    while i < assigned.len()
        invariant
            0 <= i <= assigned@.len(),
            forall|j: int| 0 <= j < i ==> assigned@[j] != index,
        decreases assigned@.len() - i,
    {
        if assigned[i] == index {
            assert(assigned@[i as int] == index);
            return true;
        }
        i += 1;
    }
    proof {
        if assigned@.contains(index) {
            let j = choose|j: int| 0 <= j < assigned@.len() && assigned@[j] == index;
            assert(false);
        }
    }
    false
}

/// Linear test whether a monitor index was already picked.
fn targets_contain(res: &Vec<MonitorArea>, index: usize) -> (r: bool)
    ensures
        r == in_targets(res@, index),
{
    let mut i: usize = 0;
    while i < res.len()
        invariant
            0 <= i <= res@.len(),
            forall|j: int| 0 <= j < i ==> #[trigger] res@[j].index != index,
        decreases res@.len() - i,
    {
        if res[i].index == index {
            return true;
        }
        i += 1;
    }
    false
}

/// A target list in good standing: no monitor picked twice, no picked
/// monitor already assigned.
pub open spec fn targets_ok(res: Seq<MonitorArea>, assigned: Seq<usize>) -> bool {
    &&& forall|p: int, q: int|
        0 <= p < q < res.len() ==> #[trigger] res[p].index != #[trigger] res[q].index
    &&& forall|p: int| 0 <= p < res.len() ==> !assigned.contains(#[trigger] res[p].index)
}

proof fn lemma_phase_indexed_ok(
    res: Seq<MonitorArea>,
    monitors: Seq<MonitorArea>,
    keys: Seq<String>,
    assigned: Seq<usize>,
)
    requires
        targets_ok(res, assigned),
    ensures
        targets_ok(resolve_phase_indexed(res, monitors, keys, assigned), assigned),
    decreases keys.len(),
{
    if keys.len() > 0 {
        lemma_phase_indexed_ok(res, monitors, keys.drop_last(), assigned);
    }
}

proof fn lemma_phase_star_ok(
    res: Seq<MonitorArea>,
    monitors: Seq<MonitorArea>,
    assigned: Seq<usize>,
)
    requires
        targets_ok(res, assigned),
    ensures
        targets_ok(resolve_phase_star(res, monitors, assigned), assigned),
    decreases monitors.len(),
{
    if monitors.len() > 0 {
        lemma_phase_star_ok(res, monitors.drop_last(), assigned);
    }
}

/// Selector resolution never picks a monitor twice and never picks a
/// monitor that an earlier profile already claimed.
pub proof fn lemma_resolve_targets_ok(
    monitors: Seq<MonitorArea>,
    keys: Seq<String>,
    assigned: Seq<usize>,
)
    ensures
        targets_ok(resolve_targets_spec(monitors, keys, assigned), assigned),
{
    let afterp = resolve_phase_primary(monitors, keys, assigned);
    assert(targets_ok(afterp, assigned));
    lemma_phase_indexed_ok(afterp, monitors, keys, assigned);
    if keys_have_star(keys) {
        lemma_phase_star_ok(
            resolve_phase_indexed(afterp, monitors, keys, assigned),
            monitors,
            assigned,
        );
    }
}

/// The launch priority of a profile: explicit primary selectors first, then
/// plain integer selectors, wildcard profiles last, so explicit placements
/// win monitor assignment.
pub open spec fn profile_priority_spec(keys: Seq<String>) -> int {
    if keys_have_primary(keys) {
        0
    } else if keys_have_star(keys) {
        2
    } else {
        1
    }
}

/// Computes a profile's launch priority from its selector tokens.
pub fn profile_priority(profile: &WallpaperConfig) -> (r: u8)
    ensures
        r as int == profile_priority_spec(profile.monitor_index@),
{
    let keys = &profile.monitor_index;
    let mut have_p = false;
    let mut have_star = false;
    let mut i: usize = 0;
    while i < keys.len()
        invariant
            0 <= i <= keys@.len(),
            have_p == (exists|j: int|
                0 <= j < i && selector_token_of(#[trigger] keys@[j]@) == SelectorToken::Primary),
            have_star == (exists|j: int|
                0 <= j < i && selector_token_of(#[trigger] keys@[j]@)
                    == SelectorToken::AllRemaining),
        decreases keys@.len() - i,
    {
        match parse_selector_token(keys[i].as_str()) {
            SelectorToken::Primary => {
                have_p = true;
            },
            SelectorToken::AllRemaining => {
                have_star = true;
            },
            _ => {},
        }
        i += 1;
    }
    if have_p {
        0
    } else if have_star {
        2
    } else {
        1
    }
}

/// Appends a cache-busting nonce to a URL, after `&` when the URL already
/// carries a query and after `?` otherwise, so a reload reaches the content
/// afresh.
pub fn add_reload_nonce(url: &str, nonce: u64) -> (r: String)
    ensures
        r@ == url@ + (if url@.contains('?') {
            "&__sentinel_reload="@
        } else {
            "?__sentinel_reload="@
        }) + dec_seq(nonce as int),
{
    let mut out = String::from_str(url);
    if str_contains_char(url, '?') {
        out.append("&__sentinel_reload=");
    } else {
        out.append("?__sentinel_reload=");
    }
    let digits = u64_to_dec(nonce);
    out.append(digits.as_str());
    out
}

} // verus!
