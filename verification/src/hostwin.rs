//! The desktop host window's style discipline: the embedded window must be
//! a visible child with no caption, sizing frame or system menu, must not
//! appear in the taskbar or take activation, and sits in the z-order band
//! the profile asked for. The bit juggling is verified here; applying the
//! bits to a real window is the platform layer's part.

use crate::geometry::Rect;
use crate::text::{eq_ignore_case_seq, str_eq_ignore_case};
use vstd::prelude::*;

verus! {

/// The OS style bit for a window caption.
pub const STYLE_CAPTION: u32 = 0x00C00000;

/// The OS style bit for a sizing frame.
pub const STYLE_THICKFRAME: u32 = 0x00040000;

/// The OS style bit for a minimize box.
pub const STYLE_MINIMIZEBOX: u32 = 0x00020000;

/// The OS style bit for a maximize box.
pub const STYLE_MAXIMIZEBOX: u32 = 0x00010000;

/// The OS style bit for a system menu.
pub const STYLE_SYSMENU: u32 = 0x00080000;

/// The OS style bit for a visible window.
pub const STYLE_VISIBLE: u32 = 0x10000000;

/// The OS style bit for a child window.
pub const STYLE_CHILD: u32 = 0x40000000;

/// The OS extended style bit that forces a taskbar entry.
pub const EXSTYLE_APPWINDOW: u32 = 0x00040000;

/// The OS extended style bit for a raised border edge.
pub const EXSTYLE_WINDOWEDGE: u32 = 0x00000100;

/// The OS extended style bit for a dialog modal frame.
pub const EXSTYLE_DLGMODALFRAME: u32 = 0x00000001;

/// The OS extended style bit for a tool window, kept out of the taskbar.
pub const EXSTYLE_TOOLWINDOW: u32 = 0x00000080;

/// The OS extended style bit that keeps a window from taking activation.
pub const EXSTYLE_NOACTIVATE: u32 = 0x08000000;

/// The style bits a host window runs with: all chrome stripped, visible
/// child set.
pub fn host_style_bits(style: u32) -> (r: u32)
    ensures
        r == (style & !(STYLE_CAPTION | STYLE_THICKFRAME | STYLE_MINIMIZEBOX | STYLE_MAXIMIZEBOX
            | STYLE_SYSMENU)) | STYLE_VISIBLE | STYLE_CHILD,
        r & STYLE_CAPTION == 0,
        r & STYLE_THICKFRAME == 0,
        r & STYLE_SYSMENU == 0,
        r & STYLE_VISIBLE != 0,
        r & STYLE_CHILD != 0,
{
    let r = (style & !(STYLE_CAPTION | STYLE_THICKFRAME | STYLE_MINIMIZEBOX | STYLE_MAXIMIZEBOX
        | STYLE_SYSMENU)) | STYLE_VISIBLE | STYLE_CHILD;
    proof {
        assert(r & 0x00C00000u32 == 0 && r & 0x00040000u32 == 0 && r & 0x00080000u32 == 0 && r
            & 0x10000000u32 != 0 && r & 0x40000000u32 != 0) by (bit_vector)
            requires
                r == (style & !(0x00C00000u32 | 0x00040000u32 | 0x00020000u32 | 0x00010000u32
                    | 0x00080000u32)) | 0x10000000u32 | 0x40000000u32,
        ;
    }
    r
}

/// The extended style bits a host window runs with: no taskbar entry, no
/// edge chrome, tool window that never takes activation.
pub fn host_ex_style_bits(ex_style: u32) -> (r: u32)
    ensures
        r == (ex_style & !(EXSTYLE_APPWINDOW | EXSTYLE_WINDOWEDGE | EXSTYLE_DLGMODALFRAME))
            | EXSTYLE_TOOLWINDOW | EXSTYLE_NOACTIVATE,
        r & EXSTYLE_APPWINDOW == 0,
        r & EXSTYLE_TOOLWINDOW != 0,
        r & EXSTYLE_NOACTIVATE != 0,
{
    let r = (ex_style & !(EXSTYLE_APPWINDOW | EXSTYLE_WINDOWEDGE | EXSTYLE_DLGMODALFRAME))
        | EXSTYLE_TOOLWINDOW | EXSTYLE_NOACTIVATE;
    proof {
        assert(r & 0x00040000u32 == 0 && r & 0x00000080u32 != 0 && r & 0x08000000u32 != 0)
            by (bit_vector)
            requires
                r == (ex_style & !(0x00040000u32 | 0x00000100u32 | 0x00000001u32)) | 0x00000080u32
                    | 0x08000000u32,
        ;
    }
    r
}

/// The z-order band a profile's layer word maps to.
#[derive(Debug, Clone, Copy, PartialEq, Eq, Structural)]
pub enum ZBand {
    /// Pinned above the normal bands; the `desktop` layer uses this inside
    /// the wallpaper worker tier, below application windows.
    Topmost,
    /// The bottom of the z-order.
    Bottom,
    /// The ordinary, non-topmost band.
    NoTopmost,
    /// The top of the non-topmost band.
    Top,
}

/// The band a layer word denotes, compared ignoring ASCII case; an unknown
/// word falls to the bottom band.
pub open spec fn z_band_of(z: Seq<char>) -> ZBand {
    if eq_ignore_case_seq(z, "desktop"@) {
        ZBand::Topmost
    } else if eq_ignore_case_seq(z, "bottom"@) {
        ZBand::Bottom
    } else if eq_ignore_case_seq(z, "normal"@) {
        ZBand::NoTopmost
    } else if eq_ignore_case_seq(z, "top"@) {
        ZBand::Top
    } else if eq_ignore_case_seq(z, "topmost"@) || eq_ignore_case_seq(z, "overlay"@) {
        ZBand::Topmost
    } else {
        ZBand::Bottom
    }
}

/// Maps a profile's layer word to its z-order band.
pub fn z_band_for(z_index: &str) -> (r: ZBand)
    ensures
        r == z_band_of(z_index@),
{
    if str_eq_ignore_case(z_index, "desktop") {
        ZBand::Topmost
    } else if str_eq_ignore_case(z_index, "bottom") {
        ZBand::Bottom
    } else if str_eq_ignore_case(z_index, "normal") {
        ZBand::NoTopmost
    } else if str_eq_ignore_case(z_index, "top") {
        ZBand::Top
    } else if str_eq_ignore_case(z_index, "topmost") || str_eq_ignore_case(z_index, "overlay") {
        ZBand::Topmost
    } else {
        ZBand::Bottom
    }
}

/// Where a child window sits inside its parent: the monitor rectangle
/// translated into parent-local coordinates, with its own size.
pub fn child_window_geometry(parent_rect: Rect, target_rect: Rect) -> (r: (i64, i64, i64, i64))
    ensures
        r.0 == target_rect.left - parent_rect.left,
        r.1 == target_rect.top - parent_rect.top,
        r.2 == target_rect.right - target_rect.left,
        r.3 == target_rect.bottom - target_rect.top,
{
    (
        target_rect.left as i64 - parent_rect.left as i64,
        target_rect.top as i64 - parent_rect.top as i64,
        target_rect.right as i64 - target_rect.left as i64,
        target_rect.bottom as i64 - target_rect.top as i64,
    )
}

} // verus!
