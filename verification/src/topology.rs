//! Monitor topology: the stable reading order imposed on raw display
//! enumeration, and layout-change detection.
//!
//! Raw enumeration order is unspecified, so the engine canonicalizes it:
//! monitors are grouped into horizontal rows using a tolerance on their top
//! coordinates, rows are ordered top to bottom, monitors within a row left to
//! right, and stable indices are reassigned in that final order. The
//! published predicate [`is_reading_order`] pins the result down uniquely,
//! which is what makes the ordering deterministic and idempotent.

use crate::geometry::Rect;
use vstd::prelude::*;
use vstd::relations::{sorted_by, total_ordering};
use vstd::seq_lib::lemma_sorted_unique;

verus! {

/// One physical display as enumeration reports it: its primary flag and its
/// bounds in virtual-desktop coordinates.
#[derive(Debug, Clone, Copy, PartialEq, Eq, Structural)]
pub struct MonitorDesc {
    pub primary: bool,
    pub rect: Rect,
}

/// One monitor after ordering: its stable index, primary flag and bounds.
/// The index is the identity integer monitor selectors refer to.
#[derive(Debug, Clone, Copy, PartialEq, Eq, Structural)]
pub struct MonitorArea {
    pub index: usize,
    pub primary: bool,
    pub rect: Rect,
}

/// The primary flag as an integer, for use as the last lexicographic
/// tiebreak.
pub open spec fn pbit(b: bool) -> int {
    if b {
        1
    } else {
        0
    }
}

/// Total order on monitors by top edge first, then the remaining fields;
/// used to canonicalize the enumeration before rows are formed.
pub open spec fn top_lex_le(a: MonitorDesc, b: MonitorDesc) -> bool {
    if a.rect.top != b.rect.top {
        a.rect.top < b.rect.top
    } else if a.rect.left != b.rect.left {
        a.rect.left < b.rect.left
    } else if a.rect.right != b.rect.right {
        a.rect.right < b.rect.right
    } else if a.rect.bottom != b.rect.bottom {
        a.rect.bottom < b.rect.bottom
    } else {
        pbit(a.primary) <= pbit(b.primary)
    }
}

/// The height of a monitor, clamped to at least one pixel.
pub open spec fn clamped_height(m: MonitorDesc) -> int {
    if m.rect.bottom - m.rect.top >= 1 {
        m.rect.bottom - m.rect.top
    } else {
        1
    }
}

/// The least clamped height over a non-empty monitor sequence.
pub open spec fn min_height_rec(ms: Seq<MonitorDesc>) -> int
    decreases ms.len(),
{
    if ms.len() <= 1 {
        clamped_height(ms[0])
    } else {
        let rest = min_height_rec(ms.drop_last());
        if clamped_height(ms.last()) < rest {
            clamped_height(ms.last())
        } else {
            rest
        }
    }
}

/// The row-grouping tolerance: a quarter of the smallest monitor height, but
/// no less than 80 pixels.
pub open spec fn row_tolerance_of(ms: Seq<MonitorDesc>) -> int {
    let q = min_height_rec(ms) / 4;
    if q >= 80 {
        q
    } else {
        80
    }
}

/// Whether a top coordinate lies within the tolerance of some existing row
/// anchor.
pub open spec fn has_anchor(anchors: Seq<int>, t: int, tol: int) -> bool {
    exists|k: int| 0 <= k < anchors.len() && -tol <= t - #[trigger] anchors[k] <= tol
}

/// The row anchors a left-to-right scan of the top-sorted monitors creates:
/// each top either joins an existing row or founds a new one anchored at its
/// own top coordinate.
pub open spec fn anchors_from(ms: Seq<MonitorDesc>, tol: int) -> Seq<int>
    decreases ms.len(),
{
    if ms.len() == 0 {
        Seq::<int>::empty()
    } else {
        let prev = anchors_from(ms.drop_last(), tol);
        let t = ms.last().rect.top as int;
        if has_anchor(prev, t, tol) {
            prev
        } else {
            prev.push(t)
        }
    }
}

/// The anchor of the row a top coordinate belongs to: the first anchor
/// within the tolerance; the coordinate itself when none matches.
pub open spec fn row_anchor(anchors: Seq<int>, t: int, tol: int) -> int
    decreases anchors.len(),
{
    if anchors.len() == 0 {
        t
    } else if -tol <= t - anchors[0] <= tol {
        anchors[0]
    } else {
        row_anchor(anchors.drop_first(), t, tol)
    }
}

/// The reading order proper: by row anchor (top to bottom), then by left
/// edge within a row, with the remaining fields as tiebreaks so the order is
/// total.
pub open spec fn reading_key_le(anchors: Seq<int>, tol: int, a: MonitorDesc, b: MonitorDesc) -> bool {
    let ra = row_anchor(anchors, a.rect.top as int, tol);
    let rb = row_anchor(anchors, b.rect.top as int, tol);
    if ra != rb {
        ra < rb
    } else if a.rect.left != b.rect.left {
        a.rect.left < b.rect.left
    } else if a.rect.top != b.rect.top {
        a.rect.top < b.rect.top
    } else if a.rect.right != b.rect.right {
        a.rect.right < b.rect.right
    } else if a.rect.bottom != b.rect.bottom {
        a.rect.bottom < b.rect.bottom
    } else {
        pbit(a.primary) <= pbit(b.primary)
    }
}

/// The descriptor part of an ordered monitor.
pub open spec fn desc_of(a: MonitorArea) -> MonitorDesc {
    MonitorDesc { primary: a.primary, rect: a.rect }
}

/// The descriptors of an ordered monitor sequence.
pub open spec fn descs_of(result: Seq<MonitorArea>) -> Seq<MonitorDesc> {
    result.map_values(|a: MonitorArea| desc_of(a))
}

/// The canonical top-sorted arrangement of the input monitors.
pub open spec fn canon_top_sorted(input: Seq<MonitorDesc>, srt: Seq<MonitorDesc>) -> bool {
    &&& srt.to_multiset() == input.to_multiset()
    &&& sorted_by(srt, |a: MonitorDesc, b: MonitorDesc| top_lex_le(a, b))
}

/// The result of topology ordering: the same monitors as the input, indices
/// reassigned positionally, arranged in the reading order whose rows are
/// formed from the canonical top-sorted arrangement of the input.
pub open spec fn is_reading_order(input: Seq<MonitorDesc>, result: Seq<MonitorArea>) -> bool {
    &&& descs_of(result).to_multiset() == input.to_multiset()
    &&& forall|i: int| 0 <= i < result.len() ==> #[trigger] result[i].index == i
    &&& exists|srt: Seq<MonitorDesc>|
        {
            &&& #[trigger] canon_top_sorted(input, srt)
            &&& sorted_by(
                descs_of(result),
                |a: MonitorDesc, b: MonitorDesc|
                    reading_key_le(
                        anchors_from(srt, row_tolerance_of(srt)),
                        row_tolerance_of(srt),
                        a,
                        b,
                    ),
            )
        }
}

/// The top-first lexicographic order is a total ordering.
pub proof fn lemma_top_lex_total()
    ensures
        total_ordering(|a: MonitorDesc, b: MonitorDesc| top_lex_le(a, b)),
{
    let leq = |a: MonitorDesc, b: MonitorDesc| top_lex_le(a, b);
    assert forall|a: MonitorDesc, b: MonitorDesc| #[trigger] leq(a, b) && leq(b, a) implies a
        == b by {
        assert(a.rect == b.rect);
    }
    assert(vstd::relations::reflexive(leq));
    assert(vstd::relations::transitive(leq));
    assert(vstd::relations::antisymmetric(leq));
    assert(vstd::relations::strongly_connected(leq));
}

/// The reading order is a total ordering for any anchor context.
pub proof fn lemma_reading_key_total(anchors: Seq<int>, tol: int)
    ensures
        total_ordering(
            |a: MonitorDesc, b: MonitorDesc| reading_key_le(anchors, tol, a, b),
        ),
{
    let leq = |a: MonitorDesc, b: MonitorDesc| reading_key_le(anchors, tol, a, b);
    assert forall|a: MonitorDesc, b: MonitorDesc| #[trigger] leq(a, b) && leq(b, a) implies a
        == b by {
        assert(a.rect == b.rect);
    }
    assert(vstd::relations::reflexive(leq));
    assert(vstd::relations::transitive(leq));
    assert(vstd::relations::antisymmetric(leq));
    assert(vstd::relations::strongly_connected(leq));
}

proof fn lemma_insert_multiset<A>(s: Seq<A>, i: int, a: A)
    requires
        0 <= i <= s.len(),
    ensures
        s.insert(i, a).to_multiset() =~= s.to_multiset().insert(a),
    decreases s.len() - i,
{
    broadcast use vstd::seq_lib::group_to_multiset_ensures;

    if i == s.len() {
        assert(s.insert(i, a) =~= s.push(a));
    } else {
        let t = s.drop_last();
        assert(s.insert(i, a) =~= t.insert(i, a).push(s.last()));
        lemma_insert_multiset(t, i, a);
        assert(s =~= t.push(s.last()));
        assert(s.insert(i, a).to_multiset() =~= t.insert(i, a).to_multiset().insert(s.last()));
        assert(s.to_multiset() =~= t.to_multiset().insert(s.last()));
    }
}

/// Exec form of the top-first lexicographic order.
fn le_top_lex(a: &MonitorDesc, b: &MonitorDesc) -> (r: bool)
    ensures
        r == top_lex_le(*a, *b),
{
    if a.rect.top != b.rect.top {
        a.rect.top < b.rect.top
    } else if a.rect.left != b.rect.left {
        a.rect.left < b.rect.left
    } else if a.rect.right != b.rect.right {
        a.rect.right < b.rect.right
    } else if a.rect.bottom != b.rect.bottom {
        a.rect.bottom < b.rect.bottom
    } else {
        !a.primary || b.primary
    }
}

/// The sequence of `i64` values as mathematical integers.
pub open spec fn int_seq(v: Seq<i64>) -> Seq<int> {
    v.map_values(|x: i64| x as int)
}

/// Exec form of the reading order, over the computed anchor context.
fn le_reading(anchors: &Vec<i64>, tol: i64, a: &MonitorDesc, b: &MonitorDesc) -> (r: bool)
    requires
        0 <= tol <= 0x7fffffff,
        forall|k: int| 0 <= k < anchors@.len() ==> -0x80000000 <= #[trigger] anchors@[k] <= 0x7fffffff,
    ensures
        r == reading_key_le(int_seq(anchors@), tol as int, *a, *b),
{
    let ra = find_row_anchor(anchors, a.rect.top as i64, tol);
    let rb = find_row_anchor(anchors, b.rect.top as i64, tol);
    if ra != rb {
        ra < rb
    } else if a.rect.left != b.rect.left {
        a.rect.left < b.rect.left
    } else if a.rect.top != b.rect.top {
        a.rect.top < b.rect.top
    } else if a.rect.right != b.rect.right {
        a.rect.right < b.rect.right
    } else if a.rect.bottom != b.rect.bottom {
        a.rect.bottom < b.rect.bottom
    } else {
        !a.primary || b.primary
    }
}

/// The first anchor within the tolerance of `t`, or `t` itself when none
/// matches.
fn find_row_anchor(anchors: &Vec<i64>, t: i64, tol: i64) -> (r: i64)
    requires
        -0x80000000 <= t <= 0x7fffffff,
        0 <= tol <= 0x7fffffff,
        forall|k: int| 0 <= k < anchors@.len() ==> -0x80000000 <= #[trigger] anchors@[k] <= 0x7fffffff,
    ensures
        r as int == row_anchor(int_seq(anchors@), t as int, tol as int),
{
    let mut i: usize = 0;
    proof {
        assert(int_seq(anchors@).skip(0) =~= int_seq(anchors@));
    }
    while i < anchors.len()
        invariant
            0 <= i <= anchors@.len(),
            -0x80000000 <= t <= 0x7fffffff,
            0 <= tol <= 0x7fffffff,
            forall|k: int|
                0 <= k < anchors@.len() ==> -0x80000000 <= #[trigger] anchors@[k] <= 0x7fffffff,
            row_anchor(int_seq(anchors@), t as int, tol as int) == row_anchor(
                int_seq(anchors@).skip(i as int),
                t as int,
                tol as int,
            ),
        decreases anchors@.len() - i,
    {
        let a = anchors[i];
        let d = t - a;
        if -tol <= d && d <= tol {
            proof {
                assert(int_seq(anchors@).skip(i as int)[0] == a as int);
            }
            return a;
        }
        proof {
            assert(int_seq(anchors@).skip(i as int).drop_first() =~= int_seq(anchors@).skip(
                i + 1,
            ));
            assert(int_seq(anchors@).skip(i as int)[0] == a as int);
        }
        i += 1;
    }
    proof {
        assert(int_seq(anchors@).skip(anchors@.len() as int) =~= Seq::<int>::empty());
    }
    t
}

/// The least clamped monitor height.
fn compute_min_height(ms: &Vec<MonitorDesc>) -> (r: i64)
    requires
        ms@.len() > 0,
    ensures
        r as int == min_height_rec(ms@),
        1 <= r <= 0x100000000,
{
    let first = &ms[0];
    let h0: i64 = first.rect.bottom as i64 - first.rect.top as i64;
    let mut acc: i64 = if h0 >= 1 {
        h0
    } else {
        1
    };
    let mut i: usize = 1;
    proof {
        assert(ms@.take(1).drop_last() =~= ms@.take(0));
        assert(ms@.take(1).len() == 1);
        assert(ms@.take(1)[0] == ms@[0]);
    }
    while i < ms.len()
        invariant
            1 <= i <= ms@.len(),
            acc as int == min_height_rec(ms@.take(i as int)),
            1 <= acc <= 0x100000000,
        decreases ms@.len() - i,
    {
        let m = &ms[i];
        let hraw: i64 = m.rect.bottom as i64 - m.rect.top as i64;
        let h: i64 = if hraw >= 1 {
            hraw
        } else {
            1
        };
        proof {
            assert(ms@.take(i + 1).drop_last() =~= ms@.take(i as int));
            assert(ms@.take(i + 1).last() == ms@[i as int]);
            assert(ms@.take(i + 1).len() == i + 1 >= 2);
        }
        if h < acc {
            acc = h;
        }
        i += 1;
    }
    proof {
        assert(ms@.take(ms@.len() as int) =~= ms@);
    }
    acc
}

/// The row anchors formed by scanning the top-sorted monitors.
fn compute_anchors(srt: &Vec<MonitorDesc>, tol: i64) -> (r: Vec<i64>)
    requires
        0 <= tol <= 0x7fffffff,
    ensures
        int_seq(r@) == anchors_from(srt@, tol as int),
        forall|k: int| 0 <= k < r@.len() ==> -0x80000000 <= #[trigger] r@[k] <= 0x7fffffff,
{
    let mut anchors: Vec<i64> = Vec::new();
    let mut i: usize = 0;
    proof {
        assert(int_seq(anchors@) =~= anchors_from(srt@.take(0), tol as int));
    }
    while i < srt.len()
        invariant
            0 <= i <= srt@.len(),
            0 <= tol <= 0x7fffffff,
            int_seq(anchors@) == anchors_from(srt@.take(i as int), tol as int),
            forall|k: int|
                0 <= k < anchors@.len() ==> -0x80000000 <= #[trigger] anchors@[k] <= 0x7fffffff,
        decreases srt@.len() - i,
    {
        let t: i64 = srt[i].rect.top as i64;
        let mut matched = false;
        let mut k: usize = 0;
        while k < anchors.len()
            invariant
                0 <= k <= anchors@.len(),
                -0x80000000 <= t <= 0x7fffffff,
                0 <= tol <= 0x7fffffff,
                forall|k2: int|
                    0 <= k2 < anchors@.len() ==> -0x80000000 <= #[trigger] anchors@[k2]
                        <= 0x7fffffff,
                matched ==> has_anchor(int_seq(anchors@), t as int, tol as int),
                !matched ==> forall|k2: int|
                    0 <= k2 < k ==> !(-tol <= t - #[trigger] anchors@[k2] <= tol),
            decreases anchors@.len() - k,
        {
            let d = t - anchors[k];
            if -tol <= d && d <= tol {
                proof {
                    assert(int_seq(anchors@)[k as int] == anchors@[k as int] as int);
                }
                matched = true;
                k = anchors.len();
            } else {
                k += 1;
            }
        }
        proof {
            assert(srt@.take(i + 1).drop_last() =~= srt@.take(i as int));
            assert(srt@.take(i + 1).last() == srt@[i as int]);
            if !matched {
                assert forall|k2: int| 0 <= k2 < int_seq(anchors@).len() implies !(-tol <= t as int
                    - #[trigger] int_seq(anchors@)[k2] <= tol) by {
                    assert(int_seq(anchors@)[k2] == anchors@[k2] as int);
                }
                assert(!has_anchor(int_seq(anchors@), t as int, tol as int));
            }
        }
        if !matched {
            anchors.push(t);
            proof {
                assert(int_seq(anchors@) =~= int_seq(anchors@.drop_last()).push(t as int));
            }
        }
        i += 1;
    }
    proof {
        assert(srt@.take(srt@.len() as int) =~= srt@);
    }
    anchors
}

proof fn lemma_sorted_insert<A>(prev: Seq<A>, j: int, m: A, leq: spec_fn(A, A) -> bool)
    requires
        total_ordering(leq),
        sorted_by(prev, leq),
        0 <= j <= prev.len(),
        forall|k: int| 0 <= k < j ==> #[trigger] leq(prev[k], m),
        j == prev.len() || !leq(prev[j], m),
    ensures
        sorted_by(prev.insert(j, m), leq),
{
    prev.insert_ensures(j, m);
    let s = prev.insert(j, m);
    if j < prev.len() {
        assert(leq(m, prev[j]));
    }
    assert forall|p: int, q: int| 0 <= p < q < s.len() implies #[trigger] leq(s[p], s[q]) by {
        if p < j && q < j {
            assert(leq(prev[p], prev[q]));
        } else if p < j && q == j {
            assert(leq(prev[p], m));
        } else if p < j && q > j {
            assert(leq(prev[p], prev[q - 1]));
        } else if p == j && q > j {
            assert(leq(m, prev[j]));
            if q - 1 > j {
                assert(leq(prev[j], prev[q - 1]));
            }
        } else {
            assert(p > j && q > j);
            assert(leq(prev[p - 1], prev[q - 1]));
        }
    }
}

/// Insertion sort by the top-first lexicographic order: the canonical
/// arrangement rows are formed from.
fn sort_by_top(v: &Vec<MonitorDesc>) -> (r: Vec<MonitorDesc>)
    ensures
        canon_top_sorted(v@, r@),
{
    proof {
        broadcast use vstd::seq_lib::group_to_multiset_ensures;

        lemma_top_lex_total();
    }
    let mut out: Vec<MonitorDesc> = Vec::new();
    proof {
        assert(v@.take(0).to_multiset() =~= out@.to_multiset());
    }
    let mut i: usize = 0;
    while i < v.len()
        invariant
            0 <= i <= v@.len(),
            sorted_by(out@, |a: MonitorDesc, b: MonitorDesc| top_lex_le(a, b)),
            out@.to_multiset() == v@.take(i as int).to_multiset(),
        decreases v@.len() - i,
    {
        let m = v[i];
        let mut j: usize = 0;
        while j < out.len() && le_top_lex(&out[j], &m)
            invariant
                0 <= j <= out@.len(),
                forall|k: int| 0 <= k < j ==> top_lex_le(#[trigger] out@[k], m),
            decreases out@.len() - j,
        {
            j += 1;
        }
        let ghost prev = out@;
        out.insert(j, m);
        proof {
            broadcast use vstd::seq_lib::group_to_multiset_ensures;

            lemma_top_lex_total();
            lemma_sorted_insert(
                prev,
                j as int,
                m,
                |a: MonitorDesc, b: MonitorDesc| top_lex_le(a, b),
            );
            lemma_insert_multiset(prev, j as int, m);
            assert(v@.take(i + 1).drop_last() =~= v@.take(i as int));
            assert(v@.take(i + 1).last() == v@[i as int]);
            assert(v@.take(i + 1).to_multiset() =~= v@.take(i as int).to_multiset().insert(
                v@[i as int],
            )) by {
                assert(v@.take(i + 1) =~= v@.take(i as int).push(v@[i as int]));
            }
        }
        i += 1;
    }
    proof {
        assert(v@.take(v@.len() as int) =~= v@);
    }
    out
}

/// Insertion sort by the reading order over the given anchor context.
fn sort_by_reading_key(v: &Vec<MonitorDesc>, anchors: &Vec<i64>, tol: i64) -> (r: Vec<MonitorDesc>)
    requires
        0 <= tol <= 0x7fffffff,
        forall|k: int| 0 <= k < anchors@.len() ==> -0x80000000 <= #[trigger] anchors@[k] <= 0x7fffffff,
    ensures
        sorted_by(
            r@,
            |a: MonitorDesc, b: MonitorDesc|
                reading_key_le(int_seq(anchors@), tol as int, a, b),
        ),
        r@.to_multiset() == v@.to_multiset(),
{
    proof {
        broadcast use vstd::seq_lib::group_to_multiset_ensures;

        lemma_reading_key_total(int_seq(anchors@), tol as int);
    }
    let mut out: Vec<MonitorDesc> = Vec::new();
    proof {
        assert(v@.take(0).to_multiset() =~= out@.to_multiset());
    }
    let mut i: usize = 0;
    while i < v.len()
        invariant
            0 <= i <= v@.len(),
            0 <= tol <= 0x7fffffff,
            forall|k: int|
                0 <= k < anchors@.len() ==> -0x80000000 <= #[trigger] anchors@[k] <= 0x7fffffff,
            sorted_by(
                out@,
                |a: MonitorDesc, b: MonitorDesc|
                    reading_key_le(int_seq(anchors@), tol as int, a, b),
            ),
            out@.to_multiset() == v@.take(i as int).to_multiset(),
        decreases v@.len() - i,
    {
        let m = v[i];
        let mut j: usize = 0;
        while j < out.len() && le_reading(anchors, tol, &out[j], &m)
            invariant
                0 <= j <= out@.len(),
                0 <= tol <= 0x7fffffff,
                forall|k: int|
                    0 <= k < anchors@.len() ==> -0x80000000 <= #[trigger] anchors@[k] <= 0x7fffffff,
                forall|k: int|
                    0 <= k < j ==> reading_key_le(
                        int_seq(anchors@),
                        tol as int,
                        #[trigger] out@[k],
                        m,
                    ),
            decreases out@.len() - j,
        {
            j += 1;
        }
        let ghost prev = out@;
        out.insert(j, m);
        proof {
            broadcast use vstd::seq_lib::group_to_multiset_ensures;

            lemma_reading_key_total(int_seq(anchors@), tol as int);
            lemma_sorted_insert(
                prev,
                j as int,
                m,
                |a: MonitorDesc, b: MonitorDesc|
                    reading_key_le(int_seq(anchors@), tol as int, a, b),
            );
            lemma_insert_multiset(prev, j as int, m);
            assert(v@.take(i + 1).to_multiset() =~= v@.take(i as int).to_multiset().insert(
                v@[i as int],
            )) by {
                assert(v@.take(i + 1) =~= v@.take(i as int).push(v@[i as int]));
            }
        }
        i += 1;
    }
    proof {
        assert(v@.take(v@.len() as int) =~= v@);
    }
    out
}

/// Orders raw enumerated monitors into the stable reading order and assigns
/// each its index: rows grouped by top coordinate within the tolerance, rows
/// top to bottom, monitors within a row left to right.
pub fn sort_monitors(raw: &Vec<MonitorDesc>) -> (r: Vec<MonitorArea>)
    ensures
        is_reading_order(raw@, r@),
{
    let srt = sort_by_top(raw);
    if srt.len() == 0 {
        let empty: Vec<MonitorArea> = Vec::new();
        proof {
            broadcast use vstd::seq_lib::group_to_multiset_ensures;

            assert(descs_of(empty@) =~= Seq::<MonitorDesc>::empty());
            assert(descs_of(empty@).to_multiset() =~= raw@.to_multiset());
            assert(canon_top_sorted(raw@, srt@));
        }
        return empty;
    }
    let mh = compute_min_height(&srt);
    let q = mh / 4;
    let tol: i64 = if q >= 80 {
        q
    } else {
        80
    };
    let anchors = compute_anchors(&srt, tol);
    let ordered = sort_by_reading_key(&srt, &anchors, tol);
    let mut result: Vec<MonitorArea> = Vec::new();
    let mut i: usize = 0;
    proof {
        assert(descs_of(result@) =~= ordered@.take(0));
    }
    while i < ordered.len()
        invariant
            0 <= i <= ordered@.len(),
            result@.len() == i,
            descs_of(result@) == ordered@.take(i as int),
            forall|k: int| 0 <= k < i ==> #[trigger] result@[k].index == k,
        decreases ordered@.len() - i,
    {
        let m = ordered[i];
        result.push(MonitorArea { index: i, primary: m.primary, rect: m.rect });
        proof {
            assert(descs_of(result@) =~= ordered@.take(i + 1)) by {
                assert(descs_of(result@.drop_last()) =~= ordered@.take(i as int));
                assert(descs_of(result@).len() == result@.len());
                assert(forall|k: int|
                    0 <= k < result@.len() ==> #[trigger] descs_of(result@)[k] == desc_of(
                        result@[k],
                    ));
            }
        }
        i += 1;
    }
    proof {
        assert(ordered@.take(ordered@.len() as int) =~= ordered@);
        assert(descs_of(result@) == ordered@);
        assert(tol as int == row_tolerance_of(srt@));
        assert(canon_top_sorted(raw@, srt@));
        assert(sorted_by(
            descs_of(result@),
            |a: MonitorDesc, b: MonitorDesc|
                reading_key_le(
                    anchors_from(srt@, row_tolerance_of(srt@)),
                    row_tolerance_of(srt@),
                    a,
                    b,
                ),
        ));
    }
    result
}

/// Topology ordering is deterministic: any two results that stand in the
/// reading-order relation to the same input are identical, index assignments
/// included.
pub proof fn lemma_reading_order_unique(
    input: Seq<MonitorDesc>,
    r1: Seq<MonitorArea>,
    r2: Seq<MonitorArea>,
)
    requires
        is_reading_order(input, r1),
        is_reading_order(input, r2),
    ensures
        r1 == r2,
{
    let s1 = choose|srt: Seq<MonitorDesc>|
        {
            &&& #[trigger] canon_top_sorted(input, srt)
            &&& sorted_by(
                descs_of(r1),
                |a: MonitorDesc, b: MonitorDesc|
                    reading_key_le(
                        anchors_from(srt, row_tolerance_of(srt)),
                        row_tolerance_of(srt),
                        a,
                        b,
                    ),
            )
        };
    let s2 = choose|srt: Seq<MonitorDesc>|
        {
            &&& #[trigger] canon_top_sorted(input, srt)
            &&& sorted_by(
                descs_of(r2),
                |a: MonitorDesc, b: MonitorDesc|
                    reading_key_le(
                        anchors_from(srt, row_tolerance_of(srt)),
                        row_tolerance_of(srt),
                        a,
                        b,
                    ),
            )
        };
    lemma_top_lex_total();
    lemma_sorted_unique(s1, s2, |a: MonitorDesc, b: MonitorDesc| top_lex_le(a, b));
    assert(s1 == s2);
    let tol = row_tolerance_of(s1);
    let anchors = anchors_from(s1, tol);
    lemma_reading_key_total(anchors, tol);
    assert(descs_of(r1).to_multiset() == descs_of(r2).to_multiset());
    lemma_sorted_unique(
        descs_of(r1),
        descs_of(r2),
        |a: MonitorDesc, b: MonitorDesc| reading_key_le(anchors, tol, a, b),
    );
    assert(descs_of(r1) == descs_of(r2));
    assert(r1.len() == descs_of(r1).len());
    assert(r2.len() == descs_of(r2).len());
    assert forall|i: int| 0 <= i < r1.len() implies r1[i] == r2[i] by {
        assert(descs_of(r1)[i] == descs_of(r2)[i]);
        assert(desc_of(r1[i]) == desc_of(r2[i]));
        assert(r1[i].index == i && r2[i].index == i);
    }
    assert(r1 =~= r2);
}

/// Topology ordering does not depend on the order enumeration happened to
/// deliver the monitors in: a result for one enumeration is a result for
/// every re-enumeration of the same physical layout.
pub proof fn lemma_reading_order_permutation(
    a: Seq<MonitorDesc>,
    b: Seq<MonitorDesc>,
    r: Seq<MonitorArea>,
)
    requires
        a.to_multiset() == b.to_multiset(),
        is_reading_order(a, r),
    ensures
        is_reading_order(b, r),
{
    let srt = choose|srt: Seq<MonitorDesc>|
        {
            &&& #[trigger] canon_top_sorted(a, srt)
            &&& sorted_by(
                descs_of(r),
                |x: MonitorDesc, y: MonitorDesc|
                    reading_key_le(
                        anchors_from(srt, row_tolerance_of(srt)),
                        row_tolerance_of(srt),
                        x,
                        y,
                    ),
            )
        };
    assert(canon_top_sorted(b, srt));
}

/// Re-ordering the monitors of an unchanged layout, as a re-enumeration
/// does, yields the identical indexed result: determinism and idempotence of
/// the topology ordering in one statement.
pub proof fn lemma_reading_order_stable(
    a: Seq<MonitorDesc>,
    b: Seq<MonitorDesc>,
    r1: Seq<MonitorArea>,
    r2: Seq<MonitorArea>,
)
    requires
        a.to_multiset() == b.to_multiset(),
        is_reading_order(a, r1),
        is_reading_order(b, r2),
    ensures
        r1 == r2,
{
    lemma_reading_order_permutation(a, b, r1);
    lemma_reading_order_unique(b, r1, r2);
}

/// Whether the monitor layout changed: a different count, or any rectangle
/// differing position by position.
pub fn rects_changed(prev: &Vec<Rect>, current: &Vec<Rect>) -> (r: bool)
    ensures
        r == (prev@ != current@),
{
    if prev.len() != current.len() {
        assert(prev@.len() != current@.len());
        return true;
    }
    let mut i: usize = 0;
    while i < prev.len()
        invariant
            0 <= i <= prev@.len(),
            prev@.len() == current@.len(),
            forall|j: int| 0 <= j < i ==> prev@[j] == current@[j],
        decreases prev@.len() - i,
    {
        let a = prev[i];
        let b = current[i];
        if a.left != b.left || a.top != b.top || a.right != b.right || a.bottom != b.bottom {
            assert(prev@[i as int] != current@[i as int]);
            return true;
        }
        i += 1;
    }
    proof {
        assert(prev@ =~= current@);
    }
    false
}

/// The synthetic span area of a non-empty monitor list, folded left to
/// right: the bounding union of the rectangles, primary when any
/// constituent is primary, indexed by the least constituent index.
pub open spec fn span_fold(ms: Seq<MonitorArea>) -> MonitorArea
    decreases ms.len(),
{
    if ms.len() <= 1 {
        ms[0]
    } else {
        let prev = span_fold(ms.drop_last());
        let m = ms.last();
        MonitorArea {
            index: if m.index < prev.index {
                m.index
            } else {
                prev.index
            },
            primary: prev.primary || m.primary,
            rect: Rect {
                left: if m.rect.left < prev.rect.left {
                    m.rect.left
                } else {
                    prev.rect.left
                },
                top: if m.rect.top < prev.rect.top {
                    m.rect.top
                } else {
                    prev.rect.top
                },
                right: if m.rect.right > prev.rect.right {
                    m.rect.right
                } else {
                    prev.rect.right
                },
                bottom: if m.rect.bottom > prev.rect.bottom {
                    m.rect.bottom
                } else {
                    prev.rect.bottom
                },
            },
        }
    }
}

/// Collapses several resolved monitors into one synthetic span target: the
/// bounding union of their rectangles, primary when any constituent is
/// primary, indexed by the least constituent index.
pub fn make_span_monitor_area(monitors: &Vec<MonitorArea>) -> (r: MonitorArea)
    requires
        monitors@.len() > 0,
    ensures
        r == span_fold(monitors@),
        forall|i: int|
            0 <= i < monitors@.len() ==> {
                &&& r.rect.left <= #[trigger] monitors@[i].rect.left
                &&& r.rect.top <= monitors@[i].rect.top
                &&& r.rect.right >= monitors@[i].rect.right
                &&& r.rect.bottom >= monitors@[i].rect.bottom
                &&& r.index <= monitors@[i].index
            },
        exists|i: int| 0 <= i < monitors@.len() && r.rect.left == #[trigger] monitors@[i].rect.left,
        exists|i: int| 0 <= i < monitors@.len() && r.rect.top == #[trigger] monitors@[i].rect.top,
        exists|i: int|
            0 <= i < monitors@.len() && r.rect.right == #[trigger] monitors@[i].rect.right,
        exists|i: int|
            0 <= i < monitors@.len() && r.rect.bottom == #[trigger] monitors@[i].rect.bottom,
        exists|i: int| 0 <= i < monitors@.len() && r.index == #[trigger] monitors@[i].index,
        r.primary == (exists|i: int| 0 <= i < monitors@.len() && #[trigger] monitors@[i].primary),
{
    let first = monitors[0];
    let mut acc = MonitorArea { index: first.index, primary: first.primary, rect: first.rect };
    let mut i: usize = 1;
    proof {
        assert(acc == monitors@[0]);
        assert(acc == span_fold(monitors@.take(1))) by {
            assert(monitors@.take(1).len() == 1);
            assert(monitors@.take(1)[0] == monitors@[0]);
        }
        assert(acc.rect.left == monitors@[0].rect.left);
        assert(acc.rect.top == monitors@[0].rect.top);
        assert(acc.rect.right == monitors@[0].rect.right);
        assert(acc.rect.bottom == monitors@[0].rect.bottom);
        assert(acc.index == monitors@[0].index);
        assert(monitors@[0].primary ==> exists|j: int|
            0 <= j < monitors@.len() && #[trigger] monitors@[j].primary);
    }
    while i < monitors.len()
        invariant
            1 <= i <= monitors@.len(),
            acc == span_fold(monitors@.take(i as int)),
            forall|j: int|
                0 <= j < i ==> {
                    &&& acc.rect.left <= #[trigger] monitors@[j].rect.left
                    &&& acc.rect.top <= monitors@[j].rect.top
                    &&& acc.rect.right >= monitors@[j].rect.right
                    &&& acc.rect.bottom >= monitors@[j].rect.bottom
                    &&& acc.index <= monitors@[j].index
                },
            exists|j: int| 0 <= j < i && acc.rect.left == #[trigger] monitors@[j].rect.left,
            exists|j: int| 0 <= j < i && acc.rect.top == #[trigger] monitors@[j].rect.top,
            exists|j: int| 0 <= j < i && acc.rect.right == #[trigger] monitors@[j].rect.right,
            exists|j: int| 0 <= j < i && acc.rect.bottom == #[trigger] monitors@[j].rect.bottom,
            exists|j: int| 0 <= j < i && acc.index == #[trigger] monitors@[j].index,
            acc.primary == (exists|j: int| 0 <= j < i && #[trigger] monitors@[j].primary),
        decreases monitors@.len() - i,
    {
        let m = monitors[i];
        let ghost acc0 = acc;
        if m.rect.left < acc.rect.left {
            acc.rect.left = m.rect.left;
        }
        if m.rect.top < acc.rect.top {
            acc.rect.top = m.rect.top;
        }
        if m.rect.right > acc.rect.right {
            acc.rect.right = m.rect.right;
        }
        if m.rect.bottom > acc.rect.bottom {
            acc.rect.bottom = m.rect.bottom;
        }
        if m.index < acc.index {
            acc.index = m.index;
        }
        if m.primary {
            acc.primary = true;
        }
        proof {
            assert(m == monitors@[i as int]);
            assert(monitors@.take(i + 1).drop_last() =~= monitors@.take(i as int));
            assert(monitors@.take(i + 1).last() == monitors@[i as int]);
            assert(monitors@.take(i + 1).len() == i + 1 >= 2);
            assert forall|j: int|
                0 <= j < i + 1 implies {
                &&& acc.rect.left <= #[trigger] monitors@[j].rect.left
                &&& acc.rect.top <= monitors@[j].rect.top
                &&& acc.rect.right >= monitors@[j].rect.right
                &&& acc.rect.bottom >= monitors@[j].rect.bottom
                &&& acc.index <= monitors@[j].index
            } by {
                if j < i {
                    assert(acc0.rect.left <= monitors@[j].rect.left);
                    assert(acc0.rect.top <= monitors@[j].rect.top);
                    assert(acc0.rect.right >= monitors@[j].rect.right);
                    assert(acc0.rect.bottom >= monitors@[j].rect.bottom);
                    assert(acc0.index <= monitors@[j].index);
                }
            }
        }
        i += 1;
    }
    proof {
        assert(monitors@.take(monitors@.len() as int) =~= monitors@);
    }
    acc
}

} // verus!
