//! What the walk of a tree finds, and why it is what a scan of the flat
//! list of objects finds.

use vstd::prelude::*;
use crate::scalar::Scalar;
use crate::hitable::{Scan, Answers, scanned, steady, agrees, same_t};
use crate::bvh::{Node, well_formed, leaves, covers};

verus! {

/// What the boxes of a tree answer to one ray: `bounds(i, c)` tells whether
/// the ray passes through the box of node `i` within the window that ends at
/// `c`.
pub type BoxAnswers = spec_fn(int, Scalar) -> bool;

/// The search after the subtree at node `i` has been walked. A node whose box
/// the ray misses is left alone. A leaf's object is asked for a hit in the
/// window as it stands, and the nearer of that and what was kept is kept. Of
/// a branch the left subtree is walked first, and then the right one, in the
/// window that the left one left.
pub open spec fn visited(nodes: Seq<Node>, answers: Answers, bounds: BoxAnswers, i: int, scan: Scan) -> Scan
    decreases i,
{
    if i < 0 || i >= nodes.len() || !bounds(i, scan.closest_so_far) {
        scan
    } else {
        match nodes[i] {
            Node::Leaf { object, .. } => scan.offer_nearer(answers(object as int, scan.closest_so_far)),
            Node::Branch { left, right, .. } => if left < i && right < i {
                visited(
                    nodes,
                    answers,
                    bounds,
                    right as int,
                    visited(nodes, answers, bounds, left as int, scan),
                )
            } else {
                scan
            },
        }
    }
}

/// Whether the boxes are sound for this ray: wherever the ray misses a
/// node's box, no object below that node reports a hit.
pub open spec fn sound(nodes: Seq<Node>, answers: Answers, bounds: BoxAnswers, t_max: Scalar) -> bool {
    forall|i: int, c: Scalar, k: int|
        0 <= i < nodes.len() && c.le(t_max) && !#[trigger] bounds(i, c) && 0 <= k < leaves(nodes, i).len()
            ==> answers(#[trigger] leaves(nodes, i)[k], c) is None
}

/// What a search knows once the objects in `seen` have been dealt with: the
/// window ends at the nearest of their hits, and the kept hit lies there.
spec fn settled(scan: Scan, answers: Answers, seen: Set<int>, t_max: Scalar) -> bool {
    &&& scan.closest_so_far.le(t_max)
    &&& forall|o: int| #[trigger]
        seen.contains(o) && answers(o, t_max) is Some ==> scan.closest_so_far.le(answers(o, t_max)->0.t)
    &&& match scan.record {
        None => {
            &&& scan.closest_so_far == t_max
            &&& forall|o: int| #[trigger] seen.contains(o) ==> answers(o, t_max) is None
        },
        Some(r) => {
            &&& r.t.is_number()
            &&& r.t.rank() == scan.closest_so_far.rank()
            &&& exists|o: int| #[trigger]
                seen.contains(o) && answers(o, t_max) is Some && answers(o, t_max)->0.t.rank() == r.t.rank()
        },
    }
}

proof fn lemma_offer_settles(scan: Scan, answers: Answers, seen: Set<int>, t_max: Scalar, o: int)
    requires
        settled(scan, answers, seen, t_max),
        steady(answers, o, t_max),
    ensures
        settled(scan.offer(answers(o, scan.closest_so_far)), answers, seen.insert(o), t_max),
        settled(scan.offer_nearer(answers(o, scan.closest_so_far)), answers, seen.insert(o), t_max),
{
    let c = scan.closest_so_far;
    let a = answers(o, c);
    let full = answers(o, t_max);
    assert(agrees(full, c, a));
    assert(agrees(full, t_max, answers(o, t_max)));
    match a {
        Some(_) => {
            assert(seen.insert(o).contains(o));
            if scan.record is Some {
                let w = choose|w: int| #[trigger]
                    seen.contains(w) && answers(w, t_max) is Some && answers(w, t_max)->0.t.rank()
                        == scan.record->0.t.rank();
                assert(seen.insert(o).contains(w));
            }
        },
        None => {
            if scan.record is Some {
                let w = choose|w: int| #[trigger]
                    seen.contains(w) && answers(w, t_max) is Some && answers(w, t_max)->0.t.rank()
                        == scan.record->0.t.rank();
                assert(seen.insert(o).contains(w));
            }
        },
    }
}

proof fn lemma_skip_settles(scan: Scan, answers: Answers, seen: Set<int>, t_max: Scalar, extra: Set<int>)
    requires
        settled(scan, answers, seen, t_max),
        forall|o: int| #[trigger] extra.contains(o) ==> steady(answers, o, t_max),
        forall|o: int| #[trigger] extra.contains(o) ==> answers(o, scan.closest_so_far) is None,
    ensures
        settled(scan, answers, seen.union(extra), t_max),
{
    let c = scan.closest_so_far;
    assert forall|o: int| #[trigger] seen.union(extra).contains(o) && answers(o, t_max) is Some implies c.le(
        answers(o, t_max)->0.t,
    ) by {
        if !seen.contains(o) {
            assert(extra.contains(o));
            assert(agrees(answers(o, t_max), c, answers(o, c)));
            assert(agrees(answers(o, t_max), t_max, answers(o, t_max)));
        }
    }
    match scan.record {
        None => {
            assert forall|o: int| #[trigger] seen.union(extra).contains(o) implies answers(o, t_max) is None by {
                if !seen.contains(o) {
                    assert(extra.contains(o));
                    assert(agrees(answers(o, t_max), c, answers(o, c)));
                }
            }
        },
        Some(r) => {
            let w = choose|w: int| #[trigger]
                seen.contains(w) && answers(w, t_max) is Some && answers(w, t_max)->0.t.rank() == r.t.rank();
            assert(seen.union(extra).contains(w));
        },
    }
}

/// The objects below node `i`, as a set.
pub open spec fn below(nodes: Seq<Node>, i: int) -> Set<int> {
    Set::new(|o: int| leaves(nodes, i).contains(o))
}

proof fn lemma_leaves_in_range(nodes: Seq<Node>, count: int, i: int, k: int)
    requires
        well_formed(nodes, count),
        0 <= k < leaves(nodes, i).len(),
    ensures
        0 <= leaves(nodes, i)[k] < count,
    decreases i,
{
    if 0 <= i < nodes.len() {
        match nodes[i] {
            Node::Leaf { .. } => {},
            Node::Branch { left, right, .. } => {
                let l = leaves(nodes, left as int);
                if k < l.len() {
                    lemma_leaves_in_range(nodes, count, left as int, k);
                } else {
                    lemma_leaves_in_range(nodes, count, right as int, k - l.len());
                }
            },
        }
    }
}

proof fn lemma_visited_settles(
    nodes: Seq<Node>,
    count: int,
    answers: Answers,
    bounds: BoxAnswers,
    t_max: Scalar,
    i: int,
    scan: Scan,
    seen: Set<int>,
)
    requires
        well_formed(nodes, count),
        0 <= i < nodes.len(),
        forall|o: int| 0 <= o < count ==> steady(answers, o, t_max),
        sound(nodes, answers, bounds, t_max),
        settled(scan, answers, seen, t_max),
    ensures
        settled(visited(nodes, answers, bounds, i, scan), answers, seen.union(below(nodes, i)), t_max),
    decreases i,
{
    let c = scan.closest_so_far;
    let here = leaves(nodes, i);
    if !bounds(i, c) {
        assert forall|o: int| #[trigger] below(nodes, i).contains(o) implies steady(answers, o, t_max)
            && answers(o, c) is None by {
            let k = choose|k: int| 0 <= k < here.len() && here[k] == o;
            lemma_leaves_in_range(nodes, count, i, k);
            assert(answers(leaves(nodes, i)[k], c) is None);
        }
        lemma_skip_settles(scan, answers, seen, t_max, below(nodes, i));
    } else {
        match nodes[i] {
            Node::Leaf { object, .. } => {
                assert(here[0] == object as int);
                lemma_offer_settles(scan, answers, seen, t_max, object as int);
                assert(seen.insert(object as int) =~= seen.union(below(nodes, i))) by {
                    assert forall|o: int| below(nodes, i).contains(o) <==> o == object as int by {
                        if o == object as int {
                            assert(here[0] == o);
                        }
                    }
                }
            },
            Node::Branch { left, right, .. } => {
                let l = leaves(nodes, left as int);
                let r = leaves(nodes, right as int);
                let mid = visited(nodes, answers, bounds, left as int, scan);
                lemma_visited_settles(nodes, count, answers, bounds, t_max, left as int, scan, seen);
                lemma_visited_settles(
                    nodes,
                    count,
                    answers,
                    bounds,
                    t_max,
                    right as int,
                    mid,
                    seen.union(below(nodes, left as int)),
                );
                assert(seen.union(below(nodes, left as int)).union(below(nodes, right as int)) =~= seen.union(
                    below(nodes, i),
                )) by {
                    assert forall|o: int| below(nodes, i).contains(o) <==> (below(nodes, left as int).contains(o)
                        || below(nodes, right as int).contains(o)) by {
                        if l.contains(o) {
                            let k = choose|k: int| 0 <= k < l.len() && l[k] == o;
                            assert(here[k] == o);
                        }
                        if r.contains(o) {
                            let k = choose|k: int| 0 <= k < r.len() && r[k] == o;
                            assert(here[l.len() + k] == o);
                        }
                        if here.contains(o) {
                            let k = choose|k: int| 0 <= k < here.len() && here[k] == o;
                            if k < l.len() {
                                assert(l[k] == o);
                            } else {
                                assert(r[k - l.len()] == o);
                            }
                        }
                    }
                }
            },
        }
    }
}

proof fn lemma_scanned_settles(answers: Answers, n: int, t_min: Scalar, t_max: Scalar)
    requires
        t_max.is_number(),
        forall|o: int| 0 <= o < n ==> steady(answers, o, t_max),
    ensures
        settled(scanned(answers, n, Scan::start(t_min, t_max)), answers, Set::new(|o: int| 0 <= o < n), t_max),
    decreases n,
{
    if n > 0 {
        lemma_scanned_settles(answers, n - 1, t_min, t_max);
        let before = scanned(answers, n - 1, Scan::start(t_min, t_max));
        lemma_offer_settles(before, answers, Set::new(|o: int| 0 <= o < n - 1), t_max, n - 1);
        assert(Set::new(|o: int| 0 <= o < n - 1).insert(n - 1) =~= Set::new(|o: int| 0 <= o < n));
    } else {
        assert(Set::new(|o: int| 0 <= o < n) =~= Set::<int>::empty());
    }
}

proof fn lemma_settled_agree(a: Scan, b: Scan, answers: Answers, seen: Set<int>, t_max: Scalar)
    requires
        settled(a, answers, seen, t_max),
        settled(b, answers, seen, t_max),
    ensures
        same_t(a.record, b.record),
{
}

/// Walking the tree finds a hit at the same ray parameter as scanning the
/// flat list of objects, or none where the scan finds none.
///
/// This holds for a tree in which every object stands below the root, for a
/// window whose upper end is a number, and for answers that behave: every
/// object reports its nearest hit whatever the window, and the ray misses no
/// box that has an object below it that the ray hits.
pub proof fn walk_matches_scan(
    nodes: Seq<Node>,
    count: int,
    root: int,
    answers: Answers,
    bounds: BoxAnswers,
    t_min: Scalar,
    t_max: Scalar,
)
    requires
        well_formed(nodes, count),
        0 <= root < nodes.len(),
        covers(nodes, root, count),
        t_max.is_number(),
        forall|o: int| 0 <= o < count ==> steady(answers, o, t_max),
        sound(nodes, answers, bounds, t_max),
    ensures
        same_t(
            visited(nodes, answers, bounds, root, Scan::start(t_min, t_max)).record,
            scanned(answers, count, Scan::start(t_min, t_max)).record,
        ),
{
    let start = Scan::start(t_min, t_max);
    let all = Set::new(|o: int| 0 <= o < count);
    lemma_scanned_settles(answers, count, t_min, t_max);
    assert(settled(start, answers, Set::<int>::empty(), t_max));
    lemma_visited_settles(nodes, count, answers, bounds, t_max, root, start, Set::<int>::empty());
    assert(Set::<int>::empty().union(below(nodes, root)) =~= all) by {
        assert forall|o: int| below(nodes, root).contains(o) implies 0 <= o < count by {
            let k = choose|k: int| 0 <= k < leaves(nodes, root).len() && leaves(nodes, root)[k] == o;
            lemma_leaves_in_range(nodes, count, root, k);
        }
    }
    lemma_settled_agree(
        visited(nodes, answers, bounds, root, start),
        scanned(answers, count, start),
        answers,
        all,
        t_max,
    );
}

/// A scan returns the nearest of all hits: no object has a hit in the whole
/// window that lies before the one returned, and an object that has a hit
/// makes the scan return one. This holds for a window whose upper end is a
/// number and for objects that report their nearest hit whatever the window.
pub proof fn scan_finds_nearest(answers: Answers, n: int, t_min: Scalar, t_max: Scalar, o: int)
    requires
        t_max.is_number(),
        forall|k: int| 0 <= k < n ==> steady(answers, k, t_max),
        0 <= o < n,
        answers(o, t_max) is Some,
    ensures
        scanned(answers, n, Scan::start(t_min, t_max)).record matches Some(found) && found.t.le(
            answers(o, t_max)->0.t,
        ),
{
    lemma_scanned_settles(answers, n, t_min, t_max);
    assert(Set::new(|k: int| 0 <= k < n).contains(o));
}

/// A walk returns the nearest of all hits, under the conditions of
/// `walk_matches_scan`.
pub proof fn walk_finds_nearest(
    nodes: Seq<Node>,
    count: int,
    root: int,
    answers: Answers,
    bounds: BoxAnswers,
    t_min: Scalar,
    t_max: Scalar,
    o: int,
)
    requires
        well_formed(nodes, count),
        0 <= root < nodes.len(),
        covers(nodes, root, count),
        t_max.is_number(),
        forall|k: int| 0 <= k < count ==> steady(answers, k, t_max),
        sound(nodes, answers, bounds, t_max),
        0 <= o < count,
        answers(o, t_max) is Some,
    ensures
        visited(nodes, answers, bounds, root, Scan::start(t_min, t_max)).record matches Some(found)
            && found.t.le(answers(o, t_max)->0.t),
{
    let start = Scan::start(t_min, t_max);
    assert(settled(start, answers, Set::<int>::empty(), t_max));
    lemma_visited_settles(nodes, count, answers, bounds, t_max, root, start, Set::<int>::empty());
    assert(leaves(nodes, root).contains(o));
    assert(below(nodes, root).contains(o));
    assert(Set::<int>::empty().union(below(nodes, root)).contains(o));
}

} // verus!
