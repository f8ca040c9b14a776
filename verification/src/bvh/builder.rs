//! Building the tree: ordering the objects along an axis and splitting
//! them, subtree by subtree.

use vstd::prelude::*;
use vstd::seq_lib::{to_multiset_build, to_multiset_insert};
use crate::aabb::{AABB, surrounding, surrounding_box};
use crate::random::random_int_closed;
use crate::bvh::{Node, leaves, span, key_of, node_ok};

verus! {

/// Whether the objects in `items` stand in rising order along `axis`.
pub open spec fn ordered(items: Seq<usize>, boxes: Seq<AABB>, axis: int) -> bool {
    forall|i: int, j: int|
        0 <= i <= j < items.len() ==> key_of(boxes, #[trigger] items[i] as int, axis) <= key_of(
            boxes,
            #[trigger] items[j] as int,
            axis,
        )
}

/// Whether every one of `items` names one of `count` objects.
pub open spec fn in_range(items: Seq<usize>, count: int) -> bool {
    forall|k: int| 0 <= k < items.len() ==> #[trigger] items[k] < count
}

/// The same objects in rising order along `axis`: by the lower corner of
/// their boxes on that axis.
pub fn sorted_along(items: &Vec<usize>, boxes: &Vec<AABB>, axis: u8) -> (sorted: Vec<usize>)
    requires
        axis < 3,
        in_range(items@, boxes@.len() as int),
    ensures
        sorted@.to_multiset() == items@.to_multiset(),
        sorted@.len() == items@.len(),
        in_range(sorted@, boxes@.len() as int),
        ordered(sorted@, boxes@, axis as int),
{
    let mut sorted: Vec<usize> = Vec::new();
    let mut i: usize = 0;
    proof {
        assert(items@.subrange(0, 0) =~= sorted@);
    }
    while i < items.len()
        invariant
            axis < 3,
            0 <= i <= items@.len(),
            in_range(items@, boxes@.len() as int),
            sorted@.to_multiset() == items@.subrange(0, i as int).to_multiset(),
            sorted@.len() == i,
            in_range(sorted@, boxes@.len() as int),
            ordered(sorted@, boxes@, axis as int),
        decreases items@.len() - i,
    {
        let item: usize = items[i];
        let key: i64 = boxes[item].min.get(axis).signed_rank();
        let mut j: usize = 0;
        while j < sorted.len() && boxes[sorted[j]].min.get(axis).signed_rank() <= key
            invariant
                axis < 3,
                0 <= j <= sorted@.len(),
                in_range(sorted@, boxes@.len() as int),
                key == key_of(boxes@, item as int, axis as int),
                forall|m: int| 0 <= m < j ==> key_of(boxes@, #[trigger] sorted@[m] as int, axis as int) <= key,
            decreases sorted@.len() - j,
        {
            j = j + 1;
        }
        proof {
            let before = sorted@;
            let after = before.insert(j as int, item);
            to_multiset_insert(before, j as int, item);
            to_multiset_build(items@.subrange(0, i as int), item);
            assert(items@.subrange(0, i as int).push(item) =~= items@.subrange(0, i + 1));
            assert forall|a: int, b: int| 0 <= a <= b < after.len() implies key_of(
                boxes@,
                #[trigger] after[a] as int,
                axis as int,
            ) <= key_of(boxes@, #[trigger] after[b] as int, axis as int) by {
                if a < j && b > j {
                    assert(after[a] == before[a]);
                    assert(after[b] == before[b - 1]);
                } else if a < j && b < j {
                    assert(after[a] == before[a]);
                    assert(after[b] == before[b]);
                } else if a > j {
                    assert(after[a] == before[a - 1]);
                    assert(after[b] == before[b - 1]);
                } else if a == j && b > j {
                    assert(after[b] == before[b - 1]);
                    assert(key_of(boxes@, before[j as int] as int, axis as int) > key);
                } else if b == j && a < j {
                    assert(after[a] == before[a]);
                }
            }
            assert forall|k: int| 0 <= k < after.len() implies #[trigger] after[k] < boxes@.len() by {
                if k < j {
                    assert(after[k] == before[k]);
                } else if k > j {
                    assert(after[k] == before[k - 1]);
                }
            }
        }
        sorted.insert(j, item);
        i = i + 1;
    }
    proof {
        assert(items@.subrange(0, items@.len() as int) =~= items@);
    }
    sorted
}

/// Whether `longer` is `shorter` with more nodes added at its end.
pub open spec fn extends(longer: Seq<Node>, shorter: Seq<Node>) -> bool {
    &&& shorter.len() <= longer.len()
    &&& forall|i: int| 0 <= i < shorter.len() ==> longer[i] == shorter[i]
}

proof fn lemma_extension_keeps(shorter: Seq<Node>, longer: Seq<Node>, boxes: Seq<AABB>, i: int)
    requires
        extends(longer, shorter),
        0 <= i < shorter.len(),
    ensures
        leaves(longer, i) == leaves(shorter, i),
        span(longer, i) == span(shorter, i),
        node_ok(longer, boxes, i) == node_ok(shorter, boxes, i),
    decreases i,
{
    match shorter[i] {
        Node::Leaf { .. } => {},
        Node::Branch { left, right, .. } => {
            if left < i && right < i {
                lemma_extension_keeps(shorter, longer, boxes, left as int);
                lemma_extension_keeps(shorter, longer, boxes, right as int);
            }
        },
    }
}

proof fn lemma_extension_keeps_all(shorter: Seq<Node>, longer: Seq<Node>, boxes: Seq<AABB>)
    requires
        extends(longer, shorter),
        forall|i: int| 0 <= i < shorter.len() ==> node_ok(shorter, boxes, i),
    ensures
        forall|i: int| 0 <= i < shorter.len() ==> node_ok(longer, boxes, i),
{
    assert forall|i: int| 0 <= i < shorter.len() implies node_ok(longer, boxes, i) by {
        lemma_extension_keeps(shorter, longer, boxes, i);
    }
}

proof fn lemma_same_members(a: Seq<usize>, b: Seq<usize>)
    requires
        a.to_multiset() == b.to_multiset(),
    ensures
        forall|x: usize| a.contains(x) <==> b.contains(x),
{
    a.to_multiset_ensures();
    b.to_multiset_ensures();
    assert forall|x: usize| a.contains(x) <==> b.contains(x) by {
        assert(a.contains(x) <==> a.to_multiset().count(x) > 0);
        assert(b.contains(x) <==> b.to_multiset().count(x) > 0);
    }
}

/// Whether `o` is one of `items`.
pub open spec fn names(items: Seq<usize>, o: int) -> bool {
    exists|j: int| 0 <= j < items.len() && items[j] == o
}

/// Whether the objects below `root` are exactly those in `items`.
pub open spec fn holds(nodes: Seq<Node>, root: int, items: Seq<usize>) -> bool {
    &&& forall|k: int| 0 <= k < leaves(nodes, root).len() ==> names(items, #[trigger] leaves(nodes, root)[k])
    &&& forall|j: int| 0 <= j < items.len() ==> leaves(nodes, root).contains(#[trigger] items[j] as int)
}

/// Whether `after` is `before` with the subtree over `items` added, `root`
/// being the root of that subtree and the last node.
pub open spec fn built(before: Seq<Node>, after: Seq<Node>, boxes: Seq<AABB>, items: Seq<usize>, root: int) -> bool {
    &&& extends(after, before)
    &&& root == after.len() - 1
    &&& root >= before.len()
    &&& forall|i: int| 0 <= i < after.len() ==> node_ok(after, boxes, i)
    &&& span(after, root) == items.len()
    &&& holds(after, root, items)
}

proof fn lemma_built_single(before: Seq<Node>, after: Seq<Node>, boxes: Seq<AABB>, items: Seq<usize>, axis: u8)
    requires
        forall|i: int| 0 <= i < before.len() ==> node_ok(before, boxes, i),
        items.len() == 1,
        items[0] < boxes.len(),
        axis < 3,
        before.len() + 1 <= usize::MAX,
        after == before.push(Node::Leaf { object: items[0], bbox: boxes[items[0] as int] }).push(
            Node::Branch {
                left: before.len() as usize,
                right: before.len() as usize,
                bbox: surrounding(boxes[items[0] as int], boxes[items[0] as int]),
                axis,
            },
        ),
    ensures
        built(before, after, boxes, items, after.len() - 1),
{
    let leaf = before.len() as int;
    let root = leaf + 1;
    let object = items[0];
    assert(extends(after, before));
    lemma_extension_keeps_all(before, after, boxes);
    assert(after[leaf] == Node::Leaf { object, bbox: boxes[object as int] });
    assert(node_ok(after, boxes, leaf));
    assert(leaves(after, leaf) =~= seq![object as int]);
    assert(leaves(after, root) =~= seq![object as int, object as int]);
    assert(node_ok(after, boxes, root));
    assert(span(after, leaf) == 1);
    assert(span(after, root) == 1);
    assert(leaves(after, root)[0] == items[0]);
    assert(leaves(after, root)[1] == items[0]);
}

proof fn lemma_built_pair(
    before: Seq<Node>,
    after: Seq<Node>,
    boxes: Seq<AABB>,
    items: Seq<usize>,
    whole: Seq<usize>,
    axis: u8,
)
    requires
        forall|i: int| 0 <= i < before.len() ==> node_ok(before, boxes, i),
        items.len() == 2,
        whole.len() == 2,
        whole.to_multiset() == items.to_multiset(),
        in_range(whole, boxes.len() as int),
        ordered(whole, boxes, axis as int),
        axis < 3,
        before.len() + 2 <= usize::MAX,
        after == before.push(Node::Leaf { object: whole[0], bbox: boxes[whole[0] as int] }).push(
            Node::Leaf { object: whole[1], bbox: boxes[whole[1] as int] },
        ).push(
            Node::Branch {
                left: before.len() as usize,
                right: (before.len() + 1) as usize,
                bbox: surrounding(boxes[whole[0] as int], boxes[whole[1] as int]),
                axis,
            },
        ),
    ensures
        built(before, after, boxes, items, after.len() - 1),
{
    let left = before.len() as int;
    let right = left + 1;
    let root = left + 2;
    let first = whole[0];
    let second = whole[1];
    lemma_same_members(whole, items);
    assert(extends(after, before));
    lemma_extension_keeps_all(before, after, boxes);
    assert(after[left] == Node::Leaf { object: first, bbox: boxes[first as int] });
    assert(after[right] == Node::Leaf { object: second, bbox: boxes[second as int] });
    assert(leaves(after, left) =~= seq![first as int]);
    assert(leaves(after, right) =~= seq![second as int]);
    assert(leaves(after, root) =~= seq![first as int, second as int]);
    assert(node_ok(after, boxes, left));
    assert(node_ok(after, boxes, right));
    assert(span(after, left) == 1);
    assert(span(after, right) == 1);
    assert(key_of(boxes, whole[0] as int, axis as int) <= key_of(boxes, whole[1] as int, axis as int));
    assert(node_ok(after, boxes, root));
    assert(span(after, root) == 2);
    assert(whole.contains(whole[0]) && whole.contains(whole[1]));
    assert forall|k: int| 0 <= k < leaves(after, root).len() implies names(
        items,
        #[trigger] leaves(after, root)[k],
    ) by {
        assert(items.contains(whole[k]));
        let j = choose|j: int| 0 <= j < items.len() && items[j] == whole[k];
        assert(items[j] == leaves(after, root)[k]);
    }
    assert forall|j: int| 0 <= j < items.len() implies leaves(after, root).contains(#[trigger] items[j] as int) by {
        assert(items.contains(items[j]));
        assert(whole.contains(items[j]));
        let p = choose|p: int| 0 <= p < whole.len() && whole[p] == items[j];
        assert(leaves(after, root)[p] == items[j] as int);
    }
}

proof fn lemma_built_split(
    before: Seq<Node>,
    after_left: Seq<Node>,
    after_right: Seq<Node>,
    after: Seq<Node>,
    boxes: Seq<AABB>,
    items: Seq<usize>,
    whole: Seq<usize>,
    mid: int,
    left: usize,
    right: usize,
    axis: u8,
)
    requires
        items.len() > 2,
        whole.len() == items.len(),
        whole.to_multiset() == items.to_multiset(),
        ordered(whole, boxes, axis as int),
        axis < 3,
        mid == whole.len() / 2,
        built(before, after_left, boxes, whole.subrange(0, mid), left as int),
        built(after_left, after_right, boxes, whole.subrange(mid, whole.len() as int), right as int),
        after == after_right.push(
            Node::Branch {
                left,
                right,
                bbox: surrounding(after_right[left as int].bounds(), after_right[right as int].bounds()),
                axis,
            },
        ),
    ensures
        built(before, after, boxes, items, after.len() - 1),
{
    let n = whole.len() as int;
    let root = after.len() - 1;
    let lower_items = whole.subrange(0, mid);
    let upper_items = whole.subrange(mid, n);
    lemma_same_members(whole, items);
    assert(extends(after, after_right));
    assert(extends(after, before));
    lemma_extension_keeps_all(after_right, after, boxes);
    lemma_extension_keeps(after_left, after_right, boxes, left as int);
    lemma_extension_keeps(after_right, after, boxes, left as int);
    lemma_extension_keeps(after_right, after, boxes, right as int);
    let l = leaves(after, left as int);
    let r = leaves(after, right as int);
    assert(l == leaves(after_left, left as int));
    assert(r == leaves(after_right, right as int));
    assert(span(after, left as int) == mid);
    assert(span(after, right as int) == n - mid);
    assert(after[root] == Node::Branch {
        left,
        right,
        bbox: surrounding(after_right[left as int].bounds(), after_right[right as int].bounds()),
        axis,
    });
    assert(leaves(after, root) == l + r);
    assert(span(after, root) == n);
    assert forall|a: int, b: int| 0 <= a < l.len() && 0 <= b < r.len() implies key_of(
        boxes,
        #[trigger] l[a],
        axis as int,
    ) <= key_of(boxes, #[trigger] r[b], axis as int) by {
        assert(names(lower_items, l[a]));
        assert(names(upper_items, r[b]));
        let p = choose|p: int| 0 <= p < lower_items.len() && lower_items[p] == l[a];
        let q = choose|q: int| 0 <= q < upper_items.len() && upper_items[q] == r[b];
        assert(whole[p] == lower_items[p]);
        assert(whole[mid + q] == upper_items[q]);
    }
    assert(node_ok(after, boxes, root));
    let lr = leaves(after, root);
    assert(lr =~= l + r);
    assert forall|k: int| 0 <= k < lr.len() implies names(items, #[trigger] lr[k]) by {
        let x: usize = if k < l.len() {
            assert(names(lower_items, l[k]));
            let p = choose|p: int| 0 <= p < lower_items.len() && lower_items[p] == l[k];
            assert(whole[p] == lower_items[p]);
            whole[p]
        } else {
            assert(names(upper_items, r[k - l.len()]));
            let q = choose|q: int| 0 <= q < upper_items.len() && upper_items[q] == r[k - l.len()];
            assert(whole[mid + q] == upper_items[q]);
            whole[mid + q]
        };
        assert(whole.contains(x));
        assert(items.contains(x));
        let j = choose|j: int| 0 <= j < items.len() && items[j] == x;
        assert(items[j] == lr[k]);
    }
    assert forall|j: int| 0 <= j < items.len() implies lr.contains(#[trigger] items[j] as int) by {
        assert(items.contains(items[j]));
        assert(whole.contains(items[j]));
        let p = choose|p: int| 0 <= p < whole.len() && whole[p] == items[j];
        if p < mid {
            assert(lower_items[p] == whole[p]);
            assert(l.contains(lower_items[p] as int));
            let k = choose|k: int| 0 <= k < l.len() && l[k] == lower_items[p] as int;
            assert(lr[k] == items[j] as int);
        } else {
            assert(upper_items[p - mid] == whole[p]);
            assert(r.contains(upper_items[p - mid] as int));
            let k = choose|k: int| 0 <= k < r.len() && r[k] == upper_items[p - mid] as int;
            assert(lr[l.len() + k] == items[j] as int);
        }
    }
    assert(holds(after, root, items));
    assert(span(after, root) == items.len());
    assert(root >= before.len());
    assert(forall|i: int| 0 <= i < after.len() ==> node_ok(after, boxes, i));
}

pub(crate) fn bounds_of(node: &Node) -> (b: AABB)
    ensures
        b == node.bounds(),
{
    match node {
        Node::Leaf { bbox, .. } => *bbox,
        Node::Branch { bbox, .. } => *bbox,
    }
}

/// Adds to `nodes` the subtree over `items` and returns the place of its
/// root, the last node added. The axis along which the objects are ordered
/// is drawn afresh for every subtree.
pub(crate) fn build(nodes: &mut Vec<Node>, boxes: &Vec<AABB>, items: Vec<usize>) -> (root: usize)
    requires
        items@.len() > 0,
        in_range(items@, boxes@.len() as int),
        forall|i: int| 0 <= i < old(nodes)@.len() ==> node_ok(old(nodes)@, boxes@, i),
    ensures
        built(old(nodes)@, final(nodes)@, boxes@, items@, root as int),
    decreases items@.len(),
{
    let ghost before = nodes@;
    let axis: u8 = random_int_closed(0, 2) as u8;
    let n: usize = items.len();
    if n == 1 {
        let object: usize = items[0];
        let bbox: AABB = boxes[object];
        nodes.push(Node::Leaf { object, bbox });
        let leaf: usize = nodes.len() - 1;
        nodes.push(Node::Branch { left: leaf, right: leaf, bbox: surrounding_box(&bbox, &bbox), axis });
        let root: usize = nodes.len() - 1;
        proof {
            lemma_built_single(before, nodes@, boxes@, items@, axis);
        }
        return root;
    }
    let mut sorted: Vec<usize> = sorted_along(&items, boxes, axis);
    let ghost whole = sorted@;
    if n == 2 {
        let first: usize = sorted[0];
        let second: usize = sorted[1];
        let first_box: AABB = boxes[first];
        let second_box: AABB = boxes[second];
        nodes.push(Node::Leaf { object: first, bbox: first_box });
        let left: usize = nodes.len() - 1;
        nodes.push(Node::Leaf { object: second, bbox: second_box });
        let right: usize = nodes.len() - 1;
        nodes.push(Node::Branch { left, right, bbox: surrounding_box(&first_box, &second_box), axis });
        let root: usize = nodes.len() - 1;
        proof {
            lemma_built_pair(before, nodes@, boxes@, items@, whole, axis);
        }
        return root;
    }
    let mid: usize = n / 2;
    let upper: Vec<usize> = sorted.split_off(mid);
    proof {
        assert forall|k: int| 0 <= k < sorted@.len() implies #[trigger] sorted@[k] < boxes@.len() by {
            assert(sorted@[k] == whole[k]);
        }
        assert forall|k: int| 0 <= k < upper@.len() implies #[trigger] upper@[k] < boxes@.len() by {
            assert(upper@[k] == whole[mid + k]);
        }
    }
    let ghost sorted_lower = sorted@;
    let left: usize = build(nodes, boxes, sorted);
    let ghost after_left = nodes@;
    let right: usize = build(nodes, boxes, upper);
    let ghost after_right = nodes@;
    let bbox: AABB = surrounding_box(&bounds_of(&nodes[left]), &bounds_of(&nodes[right]));
    nodes.push(Node::Branch { left, right, bbox, axis });
    let root: usize = nodes.len() - 1;
    proof {
        assert(sorted_lower == whole.subrange(0, mid as int));
        lemma_built_split(
            before,
            after_left,
            after_right,
            nodes@,
            boxes@,
            items@,
            whole,
            mid as int,
            left,
            right,
            axis,
        );
    }
    root
}

} // verus!
