//! Hot-reload watching: per-directory modification tracking with a debounce
//! window, so a burst of writes coalesces into one reload, fired only after
//! the content has been quiet for the whole window.

use crate::text::str_eq;
use vstd::prelude::*;

verus! {

/// Watch state for one content directory: the newest modification time seen,
/// and when a not-yet-fired change was first noticed.
#[derive(Debug, PartialEq, Eq)]
pub struct DirWatch {
    pub dir: String,
    pub last_mtime: u64,
    pub pending_since: Option<u64>,
}

impl Clone for DirWatch {
    fn clone(&self) -> (r: Self)
        ensures
            r == *self,
    {
        let r = DirWatch {
            dir: self.dir.clone(),
            last_mtime: self.last_mtime,
            pending_since: self.pending_since,
        };
        proof {
            assert(r == *self);
        }
        r
    }
}

/// The first watch entry for a directory, if one exists.
pub open spec fn watch_index_of(entries: Seq<DirWatch>, dir: Seq<char>) -> Option<int> {
    if exists|i: int| 0 <= i < entries.len() && #[trigger] entries[i].dir@ == dir {
        Some(
            choose|i: int|
                0 <= i < entries.len() && #[trigger] entries[i].dir@ == dir && forall|j: int|
                    0 <= j < i ==> entries[j].dir@ != dir,
        )
    } else {
        None
    }
}

/// What one poll of a tracked directory does to its watch entry: a newer
/// modification time opens (or re-opens) the debounce window at `now`; the
/// reload fires once the window has lain quiet for the full debounce span,
/// and closes.
pub open spec fn observe_step(e: DirWatch, mtime: u64, now: u64, debounce_ms: u64) -> (
    bool,
    DirWatch,
) {
    let pending = if mtime > e.last_mtime {
        Some(now)
    } else {
        e.pending_since
    };
    let fire = match pending {
        Some(since) => since <= now && now - since >= debounce_ms,
        None => false,
    };
    (
        fire,
        DirWatch {
            dir: e.dir,
            last_mtime: mtime,
            pending_since: if fire {
                None
            } else {
                pending
            },
        },
    )
}

/// Finds the watch entry for a directory.
fn find_watch(entries: &Vec<DirWatch>, dir: &str) -> (r: Option<usize>)
    ensures
        match r {
            Some(k) => watch_index_of(entries@, dir@) == Some(k as int) && k < entries@.len()
                && entries@[k as int].dir@ == dir@,
            None => watch_index_of(entries@, dir@) is None,
        },
{
    let mut i: usize = 0;
    while i < entries.len()
        invariant
            0 <= i <= entries@.len(),
            forall|j: int| 0 <= j < i ==> #[trigger] entries@[j].dir@ != dir@,
        decreases entries@.len() - i,
    {
        if str_eq(entries[i].dir.as_str(), dir) {
            proof {
                assert(watch_index_of(entries@, dir@) == Some(i as int));
            }
            return Some(i);
        }
        i += 1;
    }
    None
}

/// The debounced per-directory reload watcher.
#[derive(Debug, PartialEq, Eq)]
pub struct AssetWatcher {
    pub entries: Vec<DirWatch>,
    pub debounce_ms: u64,
}

impl AssetWatcher {
    /// A watcher with no tracked directories.
    pub fn new(debounce_ms: u64) -> (r: Self)
        ensures
            r.entries@.len() == 0,
            r.debounce_ms == debounce_ms,
    {
        AssetWatcher { entries: Vec::new(), debounce_ms }
    }

    /// Feeds one poll result for a directory: the newest modification time
    /// under it, and the current clock. Returns whether the directory's
    /// instances should reload now. A directory seen for the first time only
    /// records its baseline and never fires.
    pub fn observe(&mut self, dir: &str, mtime: u64, now: u64) -> (fire: bool)
        ensures
            final(self).debounce_ms == old(self).debounce_ms,
            match watch_index_of(old(self).entries@, dir@) {
                Some(k) => {
                    &&& fire == observe_step(
                        old(self).entries@[k],
                        mtime,
                        now,
                        old(self).debounce_ms,
                    ).0
                    &&& final(self).entries@ == old(self).entries@.update(
                        k,
                        observe_step(old(self).entries@[k], mtime, now, old(self).debounce_ms).1,
                    )
                },
                None => {
                    &&& !fire
                    &&& final(self).entries@.len() == old(self).entries@.len() + 1
                    &&& final(self).entries@.drop_last() == old(self).entries@
                    &&& final(self).entries@.last().dir@ == dir@
                    &&& final(self).entries@.last().last_mtime == mtime
                    &&& final(self).entries@.last().pending_since is None
                },
            },
{
        match find_watch(&self.entries, dir) {
            Some(k) => {
                let e = &self.entries[k];
                let changed = mtime > e.last_mtime;
                let pending: Option<u64> = if changed {
                    Some(now)
                } else {
                    e.pending_since
                };
                let fire = match pending {
                    Some(since) => since <= now && now - since >= self.debounce_ms,
                    None => false,
                };
                let dir_kept = self.entries[k].dir.clone();
                let updated = DirWatch {
                    dir: dir_kept,
                    last_mtime: mtime,
                    pending_since: if fire {
                        None
                    } else {
                        pending
                    },
                };
                proof {
                    assert(updated == observe_step(
                        self.entries@[k as int],
                        mtime,
                        now,
                        self.debounce_ms,
                    ).1);
                }
                self.entries[k] = updated;
                fire
            },
            None => {
                let ghost before = self.entries@;
                self.entries.push(
                    DirWatch { dir: String::from_str(dir), last_mtime: mtime, pending_since: None },
                );
                proof {
                    assert(self.entries@.drop_last() =~= before);
                }
                false
            },
        }
    }

    /// Drops watch state for directories no longer in use.
    pub fn retain_dirs(&mut self, active: &Vec<String>)
        ensures
            final(self).debounce_ms == old(self).debounce_ms,
            final(self).entries@ == old(self).entries@.filter(
                |e: DirWatch|
                    exists|i: int| 0 <= i < active@.len() && #[trigger] active@[i]@ == e.dir@,
            ),
    {
        let mut kept: Vec<DirWatch> = Vec::new();
        let n = self.entries.len();
        let mut i: usize = 0;
        proof {
            reveal(Seq::filter);
            assert(kept@ =~= self.entries@.take(0).filter(
                |e: DirWatch|
                    exists|j: int| 0 <= j < active@.len() && #[trigger] active@[j]@ == e.dir@,
            ));
        }
        while i < n
            invariant
                n == self.entries@.len(),
                0 <= i <= n,
                kept@ == self.entries@.take(i as int).filter(
                    |e: DirWatch|
                        exists|j: int| 0 <= j < active@.len() && #[trigger] active@[j]@ == e.dir@,
                ),
            decreases n - i,
        {
            let mut found = false;
            let mut a: usize = 0;
            while a < active.len()
                invariant
                    0 <= a <= active@.len(),
                    0 <= i < self.entries@.len(),
                    found == (exists|j: int|
                        0 <= j < a && #[trigger] active@[j]@ == self.entries@[i as int].dir@),
                decreases active@.len() - a,
            {
                if str_eq(active[a].as_str(), self.entries[i].dir.as_str()) {
                    found = true;
                }
                a += 1;
            }
            if found {
                kept.push(self.entries[i].clone());
            }
            proof {
                reveal(Seq::filter);
                assert(self.entries@.take(i + 1).drop_last() =~= self.entries@.take(i as int));
                assert(self.entries@.take(i + 1).last() == self.entries@[i as int]);
            }
            i += 1;
        }
        proof {
            assert(self.entries@.take(n as int) =~= self.entries@);
        }
        self.entries = kept;
    }
}

/// The newest of a list of modification times; `None` exactly when the list
/// is empty.
pub fn newest_mtime(mtimes: &Vec<u64>) -> (r: Option<u64>)
    ensures
        (r is Some) == (mtimes@.len() > 0),
        r matches Some(m) ==> {
            &&& forall|i: int| 0 <= i < mtimes@.len() ==> m >= #[trigger] mtimes@[i]
            &&& exists|i: int| 0 <= i < mtimes@.len() && m == #[trigger] mtimes@[i]
        },
{
    if mtimes.len() == 0 {
        return None;
    }
    let mut best: u64 = mtimes[0];
    let mut i: usize = 1;
    proof {
        assert(best == mtimes@[0]);
    }
    while i < mtimes.len()
        invariant
            1 <= i <= mtimes@.len(),
            forall|j: int| 0 <= j < i ==> best >= #[trigger] mtimes@[j],
            exists|j: int| 0 <= j < i && best == #[trigger] mtimes@[j],
        decreases mtimes@.len() - i,
    {
        if mtimes[i] > best {
            best = mtimes[i];
        }
        i += 1;
    }
    Some(best)
}

/// Whether a freshly read configuration modification time means the file
/// changed: a strictly newer time, or a time appearing where none could be
/// read before.
pub fn config_file_changed(previous: Option<u64>, current: Option<u64>) -> (r: bool)
    ensures
        r == match (previous, current) {
            (Some(p), Some(c)) => c > p,
            (None, Some(_)) => true,
            _ => false,
        },
{
    match (previous, current) {
        (Some(p), Some(c)) => c > p,
        (None, Some(_)) => true,
        _ => false,
    }
}


/// One editable entry's direct fields: the CSS variable it drives and its
/// current value, already rendered to the string CSS takes.
#[derive(Debug, PartialEq, Eq)]
pub struct EditableValue {
    pub variable: Option<String>,
    pub value: Option<String>,
}

/// One entry of an asset's editable tree: either a direct editable (it
/// carries a variable) or a group of them one level down.
#[derive(Debug, PartialEq, Eq)]
pub struct EditableEntry {
    pub own: EditableValue,
    pub children: Vec<EditableValue>,
}

/// A variable/value pair written into the collected set: a pair with the
/// same variable is overwritten in place, a new variable is appended.
pub open spec fn upsert_var(
    pairs: Seq<(String, String)>,
    variable: String,
    value: String,
) -> Seq<(String, String)> {
    if exists|j: int| 0 <= j < pairs.len() && #[trigger] pairs[j].0@ == variable@ {
        let j = choose|j: int|
            0 <= j < pairs.len() && #[trigger] pairs[j].0@ == variable@ && (forall|k: int|
                0 <= k < j ==> #[trigger] pairs[k].0@ != variable@);
        pairs.update(j, (pairs[j].0, value))
    } else {
        pairs.push((variable, value))
    }
}

/// What one editable value contributes: its pair when it names both a
/// variable and a value, nothing otherwise.
pub open spec fn collect_value(
    pairs: Seq<(String, String)>,
    e: EditableValue,
) -> Seq<(String, String)> {
    match (e.variable, e.value) {
        (Some(k), Some(v)) => upsert_var(pairs, k, v),
        _ => pairs,
    }
}

/// What one entry contributes: its own pair when it carries a variable;
/// otherwise its children's pairs, in order.
pub open spec fn collect_entry(
    pairs: Seq<(String, String)>,
    e: EditableEntry,
) -> Seq<(String, String)>
    decreases e.children.len(),
{
    if e.own.variable is Some {
        collect_value(pairs, e.own)
    } else {
        collect_children(pairs, e.children@)
    }
}

/// The children's pairs folded left to right.
pub open spec fn collect_children(
    pairs: Seq<(String, String)>,
    cs: Seq<EditableValue>,
) -> Seq<(String, String)>
    decreases cs.len(),
{
    if cs.len() == 0 {
        pairs
    } else {
        collect_value(collect_children(pairs, cs.drop_last()), cs.last())
    }
}

/// The whole editable tree's pairs folded left to right.
pub open spec fn collect_entries(
    pairs: Seq<(String, String)>,
    es: Seq<EditableEntry>,
) -> Seq<(String, String)>
    decreases es.len(),
{
    if es.len() == 0 {
        pairs
    } else {
        collect_entry(collect_entries(pairs, es.drop_last()), es.last())
    }
}

/// Writes one pair into the collected set.
fn upsert_pair(pairs: &mut Vec<(String, String)>, variable: String, value: String)
    ensures
        final(pairs)@ == upsert_var(old(pairs)@, variable, value),
{
    let mut j: usize = 0;
    let n = pairs.len();
    while j < n
        invariant
            0 <= j <= n,
            n == pairs@.len(),
            *pairs == *old(pairs),
            forall|k: int| 0 <= k < j ==> #[trigger] pairs@[k].0@ != variable@,
        decreases n - j,
    {
        if crate::text::str_eq(pairs[j].0.as_str(), variable.as_str()) {
            let kept = pairs[j].0.clone();
            proof {
                assert(exists|j2: int|
                    0 <= j2 < pairs@.len() && #[trigger] pairs@[j2].0@ == variable@);
            }
            pairs[j] = (kept, value);
            return ;
        }
        j += 1;
    }
    pairs.push((variable, value));
}

/// Walks an asset's editable tree and collects every CSS variable update
/// it names: direct editables first-hand, group members one level down,
/// later values for the same variable overwriting earlier ones in place.
pub fn extract_css_vars(entries: &Vec<EditableEntry>) -> (r: Vec<(String, String)>)
    ensures
        r@ == collect_entries(Seq::empty(), entries@),
{
    let mut pairs: Vec<(String, String)> = Vec::new();
    let mut i: usize = 0;
    proof {
        assert(pairs@ =~= collect_entries(Seq::empty(), entries@.take(0)));
    }
    while i < entries.len()
        invariant
            0 <= i <= entries@.len(),
            pairs@ == collect_entries(Seq::empty(), entries@.take(i as int)),
        decreases entries@.len() - i,
    {
        proof {
            assert(entries@.take(i + 1).drop_last() =~= entries@.take(i as int));
            assert(entries@.take(i + 1).last() == entries@[i as int]);
        }
        let e = &entries[i];
        if e.own.variable.is_some() {
            match (&e.own.variable, &e.own.value) {
                (Some(k), Some(v)) => {
                    upsert_pair(&mut pairs, k.clone(), v.clone());
                },
                _ => {},
            }
        } else {
            let mut c: usize = 0;
            let ghost base = pairs@;
            proof {
                assert(pairs@ =~= collect_children(base, entries@[i as int].children@.take(0)));
            }
            while c < e.children.len()
                invariant
                    0 <= c <= e.children@.len(),
                    0 <= i < entries@.len(),
                    e == &entries@[i as int],
                    pairs@ == collect_children(base, entries@[i as int].children@.take(c as int)),
                decreases e.children@.len() - c,
            {
                proof {
                    assert(entries@[i as int].children@.take(c as int + 1).drop_last()
                        =~= entries@[i as int].children@.take(c as int));
                    assert(entries@[i as int].children@.take(c as int + 1).last() == entries@[
                        i as int
                    ].children@[c as int]);
                }
                let child = &e.children[c];
                match (&child.variable, &child.value) {
                    (Some(k), Some(v)) => {
                        upsert_pair(&mut pairs, k.clone(), v.clone());
                    },
                    _ => {},
                }
                c += 1;
            }
            proof {
                assert(entries@[i as int].children@.take(entries@[i as int].children@.len() as int)
                    =~= entries@[i as int].children@);
            }
        }
        i += 1;
    }
    proof {
        assert(entries@.take(entries@.len() as int) =~= entries@);
    }
    pairs
}

} // verus!
