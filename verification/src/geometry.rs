//! Virtual-desktop rectangles and the small amount of geometry the engine
//! needs: epsilon matching of window bounds against monitor bounds, and the
//! bounding box of a set of monitor rectangles.

use vstd::prelude::*;

verus! {

/// An axis-aligned rectangle in virtual-desktop coordinates, edges in
/// pixels. `right` and `bottom` are exclusive.
#[derive(Debug, Clone, Copy, PartialEq, Eq, Hash, Structural)]
pub struct Rect {
    pub left: i32,
    pub top: i32,
    pub right: i32,
    pub bottom: i32,
}

/// Pixel width of a rectangle, as a mathematical integer.
pub open spec fn rect_width(r: Rect) -> int {
    r.right - r.left
}

/// Pixel height of a rectangle, as a mathematical integer.
pub open spec fn rect_height(r: Rect) -> int {
    r.bottom - r.top
}

/// Two rectangles agree on every edge within a one-pixel epsilon.
pub open spec fn rects_match(a: Rect, b: Rect) -> bool {
    &&& -1 <= a.left - b.left <= 1
    &&& -1 <= a.top - b.top <= 1
    &&& -1 <= a.right - b.right <= 1
    &&& -1 <= a.bottom - b.bottom <= 1
}

/// Whether one edge pair lies within the one-pixel epsilon.
fn edge_close(x: i32, y: i32) -> (r: bool)
    ensures
        r == (-1 <= x - y <= 1),
{
    let d: i64 = x as i64 - y as i64;
    -1 <= d && d <= 1
}

/// Whether a window's bounds match a monitor's bounds within one pixel on
/// every edge; used both to attribute the foreground window to a monitor and
/// to judge a window fullscreen.
pub fn rect_matches_monitor(lhs: Rect, rhs: Rect) -> (r: bool)
    ensures
        r == rects_match(lhs, rhs),
{
    edge_close(lhs.left, rhs.left) && edge_close(lhs.top, rhs.top) && edge_close(
        lhs.right,
        rhs.right,
    ) && edge_close(lhs.bottom, rhs.bottom)
}

/// The bounding box of a non-empty set of rectangles: minimal left and top,
/// maximal right and bottom. `None` exactly when the list is empty.
pub fn bounding_box(rects: &Vec<Rect>) -> (r: Option<Rect>)
    ensures
        (r is Some) == (rects@.len() > 0),
        r matches Some(b) ==> {
            &&& forall|i: int|
                0 <= i < rects@.len() ==> {
                    &&& b.left <= #[trigger] rects@[i].left
                    &&& b.top <= rects@[i].top
                    &&& b.right >= rects@[i].right
                    &&& b.bottom >= rects@[i].bottom
                }
            &&& exists|i: int| 0 <= i < rects@.len() && b.left == #[trigger] rects@[i].left
            &&& exists|i: int| 0 <= i < rects@.len() && b.top == #[trigger] rects@[i].top
            &&& exists|i: int| 0 <= i < rects@.len() && b.right == #[trigger] rects@[i].right
            &&& exists|i: int| 0 <= i < rects@.len() && b.bottom == #[trigger] rects@[i].bottom
        },
{
    if rects.len() == 0 {
        return None;
    }
    let first = rects[0];
    let mut acc = first;
    let mut i: usize = 1;
    proof {
        assert(acc.left == rects@[0].left);
        assert(acc.top == rects@[0].top);
        assert(acc.right == rects@[0].right);
        assert(acc.bottom == rects@[0].bottom);
    }
    while i < rects.len()
        invariant
            1 <= i <= rects@.len(),
            forall|j: int|
                0 <= j < i ==> {
                    &&& acc.left <= #[trigger] rects@[j].left
                    &&& acc.top <= rects@[j].top
                    &&& acc.right >= rects@[j].right
                    &&& acc.bottom >= rects@[j].bottom
                },
            exists|j: int| 0 <= j < i && acc.left == #[trigger] rects@[j].left,
            exists|j: int| 0 <= j < i && acc.top == #[trigger] rects@[j].top,
            exists|j: int| 0 <= j < i && acc.right == #[trigger] rects@[j].right,
            exists|j: int| 0 <= j < i && acc.bottom == #[trigger] rects@[j].bottom,
        decreases rects@.len() - i,
    {
        let m = rects[i];
        if m.left < acc.left {
            acc.left = m.left;
        }
        if m.top < acc.top {
            acc.top = m.top;
        }
        if m.right > acc.right {
            acc.right = m.right;
        }
        if m.bottom > acc.bottom {
            acc.bottom = m.bottom;
        }
        i += 1;
    }
    Some(acc)
}

} // verus!
