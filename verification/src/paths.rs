//! The application's directory layout, modeled as path component lists so
//! the resolution rules are verified; reading the executable path or the
//! home directory is the caller's part.

use crate::text::{
    eq_ignore_case_seq, lower_char, matches_at_ignore_case, str_eq, str_eq_ignore_case,
};
use vstd::prelude::*;

verus! {

/// Copies a component path.
pub fn clone_path(p: &Vec<String>) -> (r: Vec<String>)
    ensures
        r@ == p@,
{
    let mut out: Vec<String> = Vec::new();
    let mut i: usize = 0;
    proof {
        assert(out@ =~= p@.take(0));
    }
    while i < p.len()
        invariant
            0 <= i <= p@.len(),
            out@ == p@.take(i as int),
        decreases p@.len() - i,
    {
        out.push(p[i].clone());
        proof {
            assert(out@ =~= p@.take(i + 1));
        }
        i += 1;
    }
    proof {
        assert(p@.take(p@.len() as int) =~= p@);
    }
    out
}

/// Whether one component path starts with another.
pub fn path_starts_with(path: &Vec<String>, prefix: &Vec<String>) -> (r: bool)
    ensures
        r == (prefix@.len() <= path@.len() && (forall|i: int|
            0 <= i < prefix@.len() ==> #[trigger] path@[i]@ == prefix@[i]@)),
{
    if prefix.len() > path.len() {
        return false;
    }
    let mut i: usize = 0;
    while i < prefix.len()
        invariant
            0 <= i <= prefix@.len(),
            prefix@.len() <= path@.len(),
            forall|j: int| 0 <= j < i ==> #[trigger] path@[j]@ == prefix@[j]@,
        decreases prefix@.len() - i,
    {
        if !str_eq(path[i].as_str(), prefix[i].as_str()) {
            return false;
        }
        i += 1;
    }
    true
}

/// The directory the executable runs from: its parent directory, except
/// that an executable inside a `bin` directory belongs to that directory's
/// parent. `None` when the executable path has no parent.
pub fn addon_root_dir(exe_path: &Vec<String>) -> (r: Option<Vec<String>>)
    ensures
        (r is Some) == (exe_path@.len() >= 1),
        r matches Some(root) ==> {
            let parent = exe_path@.drop_last();
            if parent.len() >= 1 && parent.last()@ == "bin"@ {
                root@ == parent.drop_last()
            } else {
                root@ == parent
            }
        },
{
    if exe_path.len() == 0 {
        return None;
    }
    let mut parent = clone_path(exe_path);
    let _ = parent.pop();
    proof {
        assert(parent@ =~= exe_path@.drop_last());
    }
    if parent.len() >= 1 && str_eq(parent[parent.len() - 1].as_str(), "bin") {
        let ghost before = parent@;
        let _ = parent.pop();
        proof {
            assert(before.last()@ == "bin"@);
            assert(parent@ =~= before.drop_last());
        }
    }
    Some(parent)
}

/// The deepest prefix of the path ending in the application's root
/// directory name, if the path runs through one.
pub open spec fn sentinel_prefix_end(path: Seq<String>) -> Option<int> {
    if exists|k: int| 0 < k <= path.len() && #[trigger] path[k - 1]@ == ".Sentinel"@ {
        Some(
            choose|k: int|
                0 < k <= path.len() && #[trigger] path[k - 1]@ == ".Sentinel"@ && (forall|j: int|
                    k < j <= path.len() ==> #[trigger] path[j - 1]@ != ".Sentinel"@),
        )
    } else {
        None
    }
}

/// The application root: walking up from the addon directory, the first
/// enclosing directory named `.Sentinel`; falling back to `.Sentinel` under
/// the home directory, and to nothing when no home is known either.
pub fn sentinel_root_dir(addon_root: &Vec<String>, home: &Option<Vec<String>>) -> (r: Option<
    Vec<String>,
>)
    ensures
        match sentinel_prefix_end(addon_root@) {
            Some(k) => r matches Some(root) && root@ == addon_root@.take(k),
            None => match home {
                Some(h) => r matches Some(root) && root@.len() == h@.len() + 1 && root@.drop_last()
                    == h@ && root@.last()@ == ".Sentinel"@,
                None => r is None,
            },
        },
{
    let mut k: usize = addon_root.len();
    while k > 0
        invariant
            0 <= k <= addon_root@.len(),
            forall|j: int| k < j <= addon_root@.len() ==> #[trigger] addon_root@[j - 1]@ != ".Sentinel"@,
        decreases k,
    {
        if str_eq(addon_root[k - 1].as_str(), ".Sentinel") {
            let mut out = clone_path(addon_root);
            let ghost kk = k as int;
            proof {
                assert(sentinel_prefix_end(addon_root@) == Some(kk));
                assert(addon_root@.take(addon_root@.len() as int) =~= addon_root@);
            }
            while out.len() > k
                invariant
                    k <= out@.len(),
                    out@.len() <= addon_root@.len(),
                    out@ == addon_root@.take(out@.len() as int),
                decreases out@.len(),
            {
                let _ = out.pop();
                proof {
                    assert(addon_root@.take(out@.len() as int + 1).drop_last() =~= addon_root@.take(
                        out@.len() as int,
                    ));
                }
            }
            return Some(out);
        }
        k -= 1;
    }
    match home {
        Some(h) => {
            let mut out = clone_path(h);
            out.push(String::from_str(".Sentinel"));
            proof {
                assert(out@.drop_last() =~= h@);
            }
            Some(out)
        },
        None => None,
    }
}

/// A path extended by one component.
pub fn path_join(base: &Vec<String>, name: &str) -> (r: Vec<String>)
    ensures
        r@.len() == base@.len() + 1,
        r@.drop_last() == base@,
        r@.last()@ == name@,
{
    let mut out = clone_path(base);
    out.push(String::from_str(name));
    proof {
        assert(out@.drop_last() =~= base@);
    }
    out
}

/// The assets directory under the application root.
pub fn sentinel_assets_dir(root: &Vec<String>) -> (r: Vec<String>)
    ensures
        r@.len() == root@.len() + 1,
        r@.drop_last() == root@,
        r@.last()@ == "Assets"@,
{
    path_join(root, "Assets")
}

/// The addons directory under the application root.
pub fn sentinel_addons_dir(root: &Vec<String>) -> (r: Vec<String>)
    ensures
        r@.len() == root@.len() + 1,
        r@.drop_last() == root@,
        r@.last()@ == "Addons"@,
{
    path_join(root, "Addons")
}

/// This addon's install directory under the addons directory.
pub fn addon_install_dir(addons_dir: &Vec<String>) -> (r: Vec<String>)
    ensures
        r@.len() == addons_dir@.len() + 1,
        r@.drop_last() == addons_dir@,
        r@.last()@ == "wallpaper"@,
{
    path_join(addons_dir, "wallpaper")
}

/// The log file under the application root.
pub fn log_path(root: &Vec<String>) -> (r: Vec<String>)
    ensures
        r@.len() == root@.len() + 1,
        r@.drop_last() == root@,
        r@.last()@ == "sentinel.wallpaper.log"@,
{
    path_join(root, "sentinel.wallpaper.log")
}

/// The configuration file: beside the addon root when one is known, under
/// the addon's install directory otherwise, and bare as a last resort.
pub fn addon_config_path(
    addon_root: &Option<Vec<String>>,
    addons_dir: &Option<Vec<String>>,
) -> (r: Vec<String>)
    ensures
        match addon_root {
            Some(root) => {
                &&& r@.len() == root@.len() + 1
                &&& r@.drop_last() == root@
                &&& r@.last()@ == "config.yaml"@
            },
            None => match addons_dir {
                Some(addons) => {
                    &&& r@.len() == addons@.len() + 2
                    &&& r@.drop_last().drop_last() == addons@
                    &&& r@[r@.len() - 2]@ == "wallpaper"@
                    &&& r@.last()@ == "config.yaml"@
                },
                None => r@.len() == 1 && r@.last()@ == "config.yaml"@,
            },
        },
{
    match addon_root {
        Some(root) => path_join(root, "config.yaml"),
        None => match addons_dir {
            Some(addons) => {
                let inst = addon_install_dir(addons);
                let r = path_join(&inst, "config.yaml");
                proof {
                    assert(r@.drop_last().drop_last() =~= addons@);
                }
                r
            },
            None => {
                let mut out: Vec<String> = Vec::new();
                out.push(String::from_str("config.yaml"));
                out
            },
        },
    }
}

/// The stitched fallback image under the assets directory.
pub fn snapshot_file_path(assets_dir: &Vec<String>) -> (r: Vec<String>)
    ensures
        r@.len() == assets_dir@.len() + 3,
        r@.take(assets_dir@.len() as int) == assets_dir@,
        r@[r@.len() - 3]@ == "wallpaper"@,
        r@[r@.len() - 2]@ == "snapshots"@,
        r@.last()@ == "paused_wallpaper_snapshot.bmp"@,
{
    let a = path_join(assets_dir, "wallpaper");
    let b = path_join(&a, "snapshots");
    let r = path_join(&b, "paused_wallpaper_snapshot.bmp");
    proof {
        assert(r@.take(assets_dir@.len() as int) =~= assets_dir@);
    }
    r
}

/// Whether a changed file must not trigger a content reload: the asset's
/// metadata file (whose name the caller supplies, since editable updates
/// rewrite it constantly), editor temporary files by name, and anything
/// inside a preview directory.
pub fn should_ignore_asset_reload_path(components: &Vec<String>, metadata_file: &str) -> (r: bool)
    ensures
        r == ({
            let n = components@.len();
            if n == 0 {
                false
            } else {
                let name = components@[n - 1]@;
                ||| eq_ignore_case_seq(name, metadata_file@)
                ||| ends_with_ignore_case(name, ".tmp"@)
                ||| ends_with_ignore_case(name, ".temp"@)
                ||| ends_with_ignore_case(name, ".swp"@)
                ||| ends_with_ignore_case(name, ".bak"@)
                ||| matches_at_ignore_case(name, ".~"@, 0)
                ||| exists|i: int|
                    0 <= i < n && eq_ignore_case_seq(#[trigger] components@[i]@, "preview"@)
            }
        }),
{
    let n = components.len();
    if n == 0 {
        return false;
    }
    let name = components[n - 1].as_str();
    if str_eq_ignore_case(name, metadata_file) || str_ends_with_ignore_case(name, ".tmp")
        || str_ends_with_ignore_case(name, ".temp") || str_ends_with_ignore_case(name, ".swp")
        || str_ends_with_ignore_case(name, ".bak") || str_starts_with_ignore_case(name, ".~") {
        return true;
    }
    let mut i: usize = 0;
    while i < n
        invariant
            n == components@.len(),
            0 <= i <= n,
            forall|j: int| 0 <= j < i ==> !eq_ignore_case_seq(#[trigger] components@[j]@, "preview"@),
        decreases n - i,
    {
        if str_eq_ignore_case(components[i].as_str(), "preview") {
            return true;
        }
        i += 1;
    }
    false
}

/// Whether the suffix occurs at the very end of the string, comparing up to
/// ASCII case.
pub open spec fn ends_with_ignore_case(s: Seq<char>, suffix: Seq<char>) -> bool {
    matches_at_ignore_case(s, suffix, s.len() - suffix.len())
}

/// Suffix test up to ASCII case.
pub fn str_ends_with_ignore_case(s: &str, suffix: &str) -> (r: bool)
    ensures
        r == ends_with_ignore_case(s@, suffix@),
{
    let slen = s.unicode_len();
    let plen = suffix.unicode_len();
    if plen > slen {
        return false;
    }
    let off = slen - plen;
    let mut i: usize = 0;
    while i < plen
        invariant
            slen == s@.len(),
            plen == suffix@.len(),
            plen <= slen,
            off == slen - plen,
            0 <= i <= plen,
            forall|j: int| 0 <= j < i ==> lower_char(s@[off + j]) == lower_char(suffix@[j]),
        decreases plen - i,
    {
        let a = s.get_char(off + i);
        let b = suffix.get_char(i);
        if !crate::text::eq_ignore_case_char(a, b) {
            assert(!matches_at_ignore_case(s@, suffix@, off as int));
            return false;
        }
        i += 1;
    }
    proof {
        assert(matches_at_ignore_case(s@, suffix@, off as int));
    }
    true
}

/// Prefix test up to ASCII case.
pub fn str_starts_with_ignore_case(s: &str, prefix: &str) -> (r: bool)
    ensures
        r == matches_at_ignore_case(s@, prefix@, 0),
{
    let slen = s.unicode_len();
    let plen = prefix.unicode_len();
    if plen > slen {
        return false;
    }
    let mut i: usize = 0;
    while i < plen
        invariant
            slen == s@.len(),
            plen == prefix@.len(),
            plen <= slen,
            0 <= i <= plen,
            forall|j: int| 0 <= j < i ==> lower_char(s@[j]) == lower_char(prefix@[j]),
        decreases plen - i,
    {
        if !crate::text::eq_ignore_case_char(s.get_char(i), prefix.get_char(i)) {
            assert(!matches_at_ignore_case(s@, prefix@, 0));
            return false;
        }
        i += 1;
    }
    proof {
        assert(matches_at_ignore_case(s@, prefix@, 0));
    }
    true
}

} // verus!
