//! The bounding volume hierarchy: a binary tree of boxes over the objects of
//! a scene, and the search for the nearest hit that walks it.
//!
//! Testing a box or an object against a ray is arithmetic that the caller
//! supplies. The search is here: it names the box or the object to test
//! next, takes the answer, and keeps the nearest hit. `BVH::hit` runs a whole
//! search with two functions for the tests; `BVH::walk` hands the search out
//! step by step.

use vstd::prelude::*;
use crate::scalar::Scalar;
use crate::aabb::{AABB, surrounding};
use crate::materials::HitRecord;
use crate::hitable::{Scan, Answers, scanned, steady, same_t, answers_of, single_valued, reported};
use crate::bvh::builder::{build, bounds_of};
use crate::bvh::search::{BoxAnswers, visited, sound, walk_matches_scan};

pub mod builder;
pub mod search;

verus! {

/// One node of the tree. Nodes live in one vector and name each other by
/// their place in it.
#[derive(Clone, Copy, Debug)]
pub enum Node {
    /// One object of the scene, by its place in the scene's list, and its box.
    Leaf { object: usize, bbox: AABB },
    /// Two subtrees and the box around both. `axis` is the axis along which
    /// the objects below were ordered before they were split between the two.
    Branch { left: usize, right: usize, bbox: AABB, axis: u8 },
}

impl Node {
    pub open spec fn bounds(self) -> AABB {
        match self {
            Node::Leaf { bbox, .. } => bbox,
            Node::Branch { bbox, .. } => bbox,
        }
    }
}

/// Whether every leaf names one of `count` objects and every branch names
/// two nodes that stand before it.
pub open spec fn well_formed(nodes: Seq<Node>, count: int) -> bool {
    forall|i: int|
        0 <= i < nodes.len() ==> match #[trigger] nodes[i] {
            Node::Leaf { object, .. } => object < count,
            Node::Branch { left, right, .. } => left < i && right < i,
        }
}

/// The objects below node `i`, in the order in which a walk meets them.
pub open spec fn leaves(nodes: Seq<Node>, i: int) -> Seq<int>
    decreases i,
{
    if i < 0 || i >= nodes.len() {
        Seq::<int>::empty()
    } else {
        match nodes[i] {
            Node::Leaf { object, .. } => seq![object as int],
            Node::Branch { left, right, .. } => if left < i && right < i {
                leaves(nodes, left as int) + leaves(nodes, right as int)
            } else {
                Seq::<int>::empty()
            },
        }
    }
}

/// How many objects were handed to node `i` when the tree was built. The
/// node above a single object names that object's leaf twice and counts it
/// once.
pub open spec fn span(nodes: Seq<Node>, i: int) -> int
    decreases i,
{
    if i < 0 || i >= nodes.len() {
        0
    } else {
        match nodes[i] {
            Node::Leaf { .. } => 1,
            Node::Branch { left, right, .. } => if left < i && right < i {
                if left == right {
                    span(nodes, left as int)
                } else {
                    span(nodes, left as int) + span(nodes, right as int)
                }
            } else {
                0
            },
        }
    }
}

/// What orders the objects along an axis: the rank of the lower corner of
/// the object's box on that axis.
pub open spec fn key_of(boxes: Seq<AABB>, o: int, axis: int) -> int {
    boxes[o].min.spec_get(axis).rank()
}

/// Whether node `i` is as the tree's construction leaves it. A leaf carries
/// the box of its object. A branch carries the box around its two subtrees.
/// Above a single object it names that object's leaf twice. Otherwise its
/// left subtree holds the lower half of the objects along the branch's axis
/// (one fewer than the right where their number is odd), and none of them
/// ranks above any object of the right subtree.
pub open spec fn node_ok(nodes: Seq<Node>, boxes: Seq<AABB>, i: int) -> bool {
    match nodes[i] {
        Node::Leaf { object, bbox } => object < boxes.len() && bbox == boxes[object as int],
        Node::Branch { left, right, bbox, axis } => {
            &&& left < i && right < i
            &&& axis < 3
            &&& bbox == surrounding(nodes[left as int].bounds(), nodes[right as int].bounds())
            &&& left == right ==> nodes[left as int] is Leaf
            &&& left != right ==> {
                &&& span(nodes, left as int) == (span(nodes, left as int) + span(nodes, right as int)) / 2
                &&& forall|a: int, b: int|
                    0 <= a < leaves(nodes, left as int).len() && 0 <= b < leaves(nodes, right as int).len()
                        ==> key_of(boxes, #[trigger] leaves(nodes, left as int)[a], axis as int) <= key_of(
                        boxes,
                        #[trigger] leaves(nodes, right as int)[b],
                        axis as int,
                    )
            }
        },
    }
}

/// Whether each of `count` objects stands below node `root`.
pub open spec fn covers(nodes: Seq<Node>, root: int, count: int) -> bool {
    forall|o: int| 0 <= o < count ==> leaves(nodes, root).contains(o)
}

/// Whether `nodes` is a hierarchy over the objects whose boxes are `boxes`:
/// every node is as construction leaves it, the last node is the root, and
/// every object stands below the root.
pub open spec fn hierarchy(nodes: Seq<Node>, boxes: Seq<AABB>) -> bool {
    &&& nodes.len() > 0
    &&& forall|i: int| 0 <= i < nodes.len() ==> node_ok(nodes, boxes, i)
    &&& span(nodes, nodes.len() - 1) == boxes.len()
    &&& covers(nodes, nodes.len() - 1, boxes.len() as int)
}

/// A hierarchy is well formed.
pub proof fn hierarchy_is_well_formed(nodes: Seq<Node>, boxes: Seq<AABB>)
    requires
        forall|i: int| 0 <= i < nodes.len() ==> node_ok(nodes, boxes, i),
    ensures
        well_formed(nodes, boxes.len() as int),
{
    assert forall|i: int| 0 <= i < nodes.len() implies match #[trigger] nodes[i] {
        Node::Leaf { object, .. } => object < boxes.len(),
        Node::Branch { left, right, .. } => left < i && right < i,
    } by {
        assert(node_ok(nodes, boxes, i));
    }
}
/// Why no hierarchy could be built.
#[derive(Clone, Copy, Debug, PartialEq, Eq)]
pub enum BvhError {
    /// There was no object to build it over.
    Empty,
    /// An object has no box; `object` is the first such.
    Unbounded { object: usize },
}

/// A bounding volume hierarchy over the objects of a scene.
///
/// It is built once and never changed. It knows the objects by their place
/// in the scene's list and by their boxes only.
pub struct BVH {
    nodes: Vec<Node>,
    boxes: Vec<AABB>,
}

impl BVH {
    /// The nodes of the tree; the last one is the root.
    pub closed spec fn nodes(&self) -> Seq<Node> {
        self.nodes@
    }

    /// The boxes of the objects, in the order of the scene's list.
    pub closed spec fn boxes(&self) -> Seq<AABB> {
        self.boxes@
    }

    #[verifier::type_invariant]
    spec fn wf(self) -> bool {
        hierarchy(self.nodes@, self.boxes@)
    }

    /// Builds the hierarchy over objects with the given boxes.
    ///
    /// One object is put below a branch that names its leaf twice. Two or
    /// more are ordered along an axis drawn at random, by the lower corner of
    /// their boxes; two become the two leaves of a branch, and more are split
    /// in the middle into two subtrees, each built in the same way.
    pub fn new(boxes: &[Option<AABB>]) -> (built: Result<BVH, BvhError>)
        ensures
            match built {
                Ok(bvh) => {
                    &&& boxes@.len() > 0
                    &&& bvh.boxes().len() == boxes@.len()
                    &&& forall|i: int| 0 <= i < boxes@.len() ==> boxes@[i] == Some(#[trigger] bvh.boxes()[i])
                    &&& hierarchy(bvh.nodes(), bvh.boxes())
                },
                Err(BvhError::Empty) => boxes@.len() == 0,
                Err(BvhError::Unbounded { object }) => {
                    &&& object < boxes@.len()
                    &&& boxes@[object as int] is None
                    &&& forall|i: int| 0 <= i < object ==> boxes@[i] is Some
                },
            },
    {
        if boxes.len() == 0 {
            return Err(BvhError::Empty);
        }
        let mut known: Vec<AABB> = Vec::new();
        let mut items: Vec<usize> = Vec::new();
        let mut i: usize = 0;
        while i < boxes.len()
            invariant
                0 <= i <= boxes@.len(),
                known@.len() == i,
                items@.len() == i,
                forall|k: int| 0 <= k < i ==> boxes@[k] is Some,
                forall|k: int| 0 <= k < i ==> boxes@[k] == Some(#[trigger] known@[k]),
                forall|k: int| 0 <= k < i ==> #[trigger] items@[k] == k,
            decreases boxes@.len() - i,
        {
            match boxes[i] {
                Some(b) => {
                    known.push(b);
                    items.push(i);
                },
                None => {
                    return Err(BvhError::Unbounded { object: i });
                },
            }
            i = i + 1;
        }
        let mut nodes: Vec<Node> = Vec::new();
        let root: usize = build(&mut nodes, &known, items);
        proof {
            let count = known@.len() as int;
            assert forall|o: int| 0 <= o < count implies leaves(nodes@, root as int).contains(o) by {
                assert(items@[o] == o);
                assert(leaves(nodes@, root as int).contains(items@[o] as int));
            }
        }
        Ok(BVH { nodes, boxes: known })
    }

    /// How many nodes the tree has.
    pub fn len(&self) -> (n: usize)
        ensures
            n == self.nodes().len(),
            n > 0,
    {
        proof {
            use_type_invariant(self);
        }
        self.nodes.len()
    }

    /// The place of the root.
    pub fn root(&self) -> (i: usize)
        ensures
            i == self.nodes().len() - 1,
    {
        proof {
            use_type_invariant(self);
        }
        self.nodes.len() - 1
    }

    /// The node at place `i`, if there is one.
    pub fn node(&self, i: usize) -> (n: Option<Node>)
        ensures
            n == if i < self.nodes().len() {
                Some(self.nodes()[i as int])
            } else {
                None
            },
    {
        if i < self.nodes.len() {
            Some(self.nodes[i])
        } else {
            None
        }
    }

    /// The box around the whole scene.
    pub fn bounding_box(&self) -> (b: Option<AABB>)
        ensures
            b == Some(self.nodes()[self.nodes().len() - 1].bounds()),
    {
        proof {
            use_type_invariant(self);
        }
        Some(bounds_of(&self.nodes[self.nodes.len() - 1]))
    }
}

/// What a walk wants to know next.
#[derive(Clone, Copy, Debug)]
pub enum Probe {
    /// Whether the ray passes through `bbox`, the box of node `node`, within
    /// the walk's window.
    Bounds { node: usize, bbox: AABB },
    /// Where the ray hits object `object` within the walk's window.
    Object { object: usize },
    /// Nothing: the walk is over.
    Done,
}

/// How far a walk has come.
pub struct WalkState {
    /// The nodes still to be walked; the last one comes next.
    pub pending: Seq<usize>,
    /// The search so far.
    pub scan: Scan,
    /// Whether the node that comes next is a leaf whose box the ray passes
    /// through, so that its object is to be asked next.
    pub at_leaf: bool,
}

impl WalkState {
    /// The walk that has the whole tree before it.
    pub open spec fn start(nodes: Seq<Node>, t_min: Scalar, t_max: Scalar) -> WalkState {
        WalkState { pending: seq![(nodes.len() - 1) as usize], scan: Scan::start(t_min, t_max), at_leaf: false }
    }

    /// Whether the state can come up in a walk of `nodes`.
    pub open spec fn fits(self, nodes: Seq<Node>) -> bool {
        &&& forall|k: int| 0 <= k < self.pending.len() ==> #[trigger] self.pending[k] < nodes.len()
        &&& self.at_leaf ==> self.pending.len() > 0 && nodes[self.pending.last() as int] is Leaf
    }

    /// What the walk wants to know next.
    pub open spec fn probe(self, nodes: Seq<Node>) -> Probe {
        if self.pending.len() == 0 {
            Probe::Done
        } else {
            let top = self.pending.last();
            match nodes[top as int] {
                Node::Leaf { object, bbox } => if self.at_leaf {
                    Probe::Object { object }
                } else {
                    Probe::Bounds { node: top, bbox }
                },
                Node::Branch { bbox, .. } => Probe::Bounds { node: top, bbox },
            }
        }
    }

    /// The walk after the answer to `Probe::Bounds`. A node whose box the ray
    /// misses is dropped with all that is below it. A leaf stays, and its
    /// object is asked next. A branch gives way to its two subtrees, the left
    /// one to be walked first. An answer that was not asked for changes
    /// nothing.
    pub open spec fn after_bounds(self, nodes: Seq<Node>, inside: bool) -> WalkState {
        if self.pending.len() == 0 || self.at_leaf {
            self
        } else if !inside {
            WalkState { pending: self.pending.drop_last(), ..self }
        } else {
            match nodes[self.pending.last() as int] {
                Node::Leaf { .. } => WalkState { at_leaf: true, ..self },
                Node::Branch { left, right, .. } => WalkState {
                    pending: self.pending.drop_last().push(right).push(left),
                    ..self
                },
            }
        }
    }

    /// The walk after the answer to `Probe::Object`: the leaf is done with,
    /// and the nearer of the hit and what was kept is kept. An answer that
    /// was not asked for changes nothing.
    pub open spec fn after_object(self, hit: Option<HitRecord>) -> WalkState {
        if self.pending.len() == 0 || !self.at_leaf {
            self
        } else {
            WalkState { pending: self.pending.drop_last(), scan: self.scan.offer_nearer(hit), at_leaf: false }
        }
    }

    /// Where the walk ends if every probe from here on is answered as
    /// `answers` and `bounds` say.
    pub open spec fn outcome(self, nodes: Seq<Node>, answers: Answers, bounds: BoxAnswers) -> Scan {
        if self.at_leaf && self.pending.len() > 0 {
            match nodes[self.pending.last() as int] {
                Node::Leaf { object, .. } => walked(
                    nodes,
                    answers,
                    bounds,
                    self.pending.drop_last(),
                    self.scan.offer_nearer(answers(object as int, self.scan.closest_so_far)),
                ),
                Node::Branch { .. } => walked(nodes, answers, bounds, self.pending, self.scan),
            }
        } else {
            walked(nodes, answers, bounds, self.pending, self.scan)
        }
    }
}

/// The search after all of `pending` has been walked, last node first.
pub open spec fn walked(
    nodes: Seq<Node>,
    answers: Answers,
    bounds: BoxAnswers,
    pending: Seq<usize>,
    scan: Scan,
) -> Scan
    decreases pending.len(),
{
    if pending.len() == 0 {
        scan
    } else {
        walked(
            nodes,
            answers,
            bounds,
            pending.drop_last(),
            visited(nodes, answers, bounds, pending.last() as int, scan),
        )
    }
}

/// A walk that is just begun ends where the walk of the whole tree ends.
pub proof fn start_outcome(nodes: Seq<Node>, answers: Answers, bounds: BoxAnswers, t_min: Scalar, t_max: Scalar)
    requires
        0 < nodes.len() <= usize::MAX,
    ensures
        WalkState::start(nodes, t_min, t_max).outcome(nodes, answers, bounds) == visited(
            nodes,
            answers,
            bounds,
            nodes.len() - 1,
            Scan::start(t_min, t_max),
        ),
{
    let s = WalkState::start(nodes, t_min, t_max);
    assert(s.pending.drop_last() =~= Seq::<usize>::empty());
    reveal_with_fuel(walked, 2);
}

/// Answering a probe as `answers` and `bounds` say does not change where the
/// walk ends; and a walk that asks nothing more has ended.
pub proof fn step_keeps_outcome(state: WalkState, nodes: Seq<Node>, boxes: Seq<AABB>, answers: Answers, bounds: BoxAnswers)
    requires
        state.fits(nodes),
        forall|i: int| 0 <= i < nodes.len() ==> node_ok(nodes, boxes, i),
    ensures
        match state.probe(nodes) {
            Probe::Bounds { node, .. } => state.after_bounds(
                nodes,
                bounds(node as int, state.scan.closest_so_far),
            ).outcome(nodes, answers, bounds) == state.outcome(nodes, answers, bounds),
            Probe::Object { object } => state.after_object(
                answers(object as int, state.scan.closest_so_far),
            ).outcome(nodes, answers, bounds) == state.outcome(nodes, answers, bounds),
            Probe::Done => state.outcome(nodes, answers, bounds) == state.scan,
        },
{
    if state.pending.len() > 0 {
        let top = state.pending.last();
        let rest = state.pending.drop_last();
        assert(node_ok(nodes, boxes, top as int));
        match nodes[top as int] {
            Node::Leaf { object, .. } => {},
            Node::Branch { left, right, .. } => {
                let inside = bounds(top as int, state.scan.closest_so_far);
                if inside {
                    let next = state.after_bounds(nodes, inside);
                    assert(next.pending.drop_last() =~= rest.push(right));
                    assert(rest.push(right).drop_last() =~= rest);
                    reveal_with_fuel(walked, 3);
                }
            },
        }
    }
}

/// A step leaves a state that can come up in a walk.
pub proof fn step_fits(state: WalkState, nodes: Seq<Node>, boxes: Seq<AABB>, inside: bool, hit: Option<HitRecord>)
    requires
        state.fits(nodes),
        forall|i: int| 0 <= i < nodes.len() ==> node_ok(nodes, boxes, i),
    ensures
        state.after_bounds(nodes, inside).fits(nodes),
        state.after_object(hit).fits(nodes),
{
    if state.pending.len() > 0 {
        let top = state.pending.last();
        assert(node_ok(nodes, boxes, top as int));
    }
}

/// How many answers the walk of the subtree at node `i` takes at most: two
/// for a leaf, one for its box and one for its object, and for a branch one
/// more than for its two subtrees together.
pub open spec fn steps(nodes: Seq<Node>, i: int) -> nat
    decreases i,
{
    if i < 0 || i >= nodes.len() {
        1
    } else {
        match nodes[i] {
            Node::Leaf { .. } => 2,
            Node::Branch { left, right, .. } => if left < i && right < i {
                1 + steps(nodes, left as int) + steps(nodes, right as int)
            } else {
                1
            },
        }
    }
}

/// How many answers the walk of all of `pending` takes at most.
pub open spec fn steps_of(nodes: Seq<Node>, pending: Seq<usize>) -> nat
    decreases pending.len(),
{
    if pending.len() == 0 {
        0
    } else {
        steps_of(nodes, pending.drop_last()) + steps(nodes, pending.last() as int)
    }
}

impl WalkState {
    /// How many answers the walk takes at most before it is over.
    pub open spec fn effort(self, nodes: Seq<Node>) -> int {
        steps_of(nodes, self.pending) - if self.at_leaf {
            1int
        } else {
            0int
        }
    }
}

/// Every answer that was asked for brings the walk nearer to its end, so a
/// walk is over after a number of answers that the tree bounds.
pub proof fn step_spends_effort(
    state: WalkState,
    nodes: Seq<Node>,
    boxes: Seq<AABB>,
    inside: bool,
    hit: Option<HitRecord>,
)
    requires
        state.fits(nodes),
        forall|i: int| 0 <= i < nodes.len() ==> node_ok(nodes, boxes, i),
    ensures
        state.effort(nodes) >= 0,
        state.probe(nodes) is Bounds ==> state.after_bounds(nodes, inside).effort(nodes) < state.effort(nodes),
        state.probe(nodes) is Object ==> state.after_object(hit).effort(nodes) < state.effort(nodes),
{
    if state.pending.len() > 0 {
        let top = state.pending.last();
        let rest = state.pending.drop_last();
        assert(node_ok(nodes, boxes, top as int));
        match nodes[top as int] {
            Node::Leaf { .. } => {},
            Node::Branch { left, right, .. } => {
                if inside {
                    let next = state.after_bounds(nodes, inside);
                    assert(next.pending.drop_last() =~= rest.push(right));
                    assert(rest.push(right).drop_last() =~= rest);
                    reveal_with_fuel(steps_of, 3);
                }
            },
        }
    }
}

/// A walk of a hierarchy, answered by objects and boxes that behave, ends
/// with a hit at the same ray parameter as a scan of the flat list of
/// objects, or with none where the scan finds none.
pub proof fn walk_finds_what_scan_finds(
    nodes: Seq<Node>,
    boxes: Seq<AABB>,
    answers: Answers,
    bounds: BoxAnswers,
    t_min: Scalar,
    t_max: Scalar,
)
    requires
        hierarchy(nodes, boxes),
        nodes.len() <= usize::MAX,
        t_max.is_number(),
        forall|o: int| 0 <= o < boxes.len() ==> steady(answers, o, t_max),
        sound(nodes, answers, bounds, t_max),
    ensures
        same_t(
            WalkState::start(nodes, t_min, t_max).outcome(nodes, answers, bounds).record,
            scanned(answers, boxes.len() as int, Scan::start(t_min, t_max)).record,
        ),
{
    hierarchy_is_well_formed(nodes, boxes);
    start_outcome(nodes, answers, bounds, t_min, t_max);
    walk_matches_scan(nodes, boxes.len() as int, nodes.len() - 1, answers, bounds, t_min, t_max);
}

/// A search of a hierarchy for the nearest hit of one ray.
///
/// The walk asks, the caller answers: `probe` names a box or an object to
/// test against the ray in the window from `t_min` to `t_max`, and
/// `answer_bounds` or `answer_object` takes the result, until `probe` says
/// `Done` and `finish` hands out the hit.
pub struct Walk<'a> {
    bvh: &'a BVH,
    stack: Vec<usize>,
    scan: Scan,
    at_leaf: bool,
}

impl<'a> Walk<'a> {
    #[verifier::type_invariant]
    spec fn wf(self) -> bool {
        &&& hierarchy(self.bvh.nodes@, self.bvh.boxes@)
        &&& (WalkState { pending: self.stack@, scan: self.scan, at_leaf: self.at_leaf }).fits(self.bvh.nodes@)
    }

    /// The nodes of the tree that is walked.
    pub closed spec fn tree(&self) -> Seq<Node> {
        self.bvh.nodes@
    }

    /// How far the walk has come.
    pub closed spec fn state(&self) -> WalkState {
        WalkState { pending: self.stack@, scan: self.scan, at_leaf: self.at_leaf }
    }

    /// What the walk wants to know next.
    pub fn probe(&self) -> (p: Probe)
        ensures
            p == self.state().probe(self.tree()),
    {
        proof {
            use_type_invariant(self);
        }
        if self.stack.len() == 0 {
            return Probe::Done;
        }
        let top: usize = self.stack[self.stack.len() - 1];
        match self.bvh.nodes[top] {
            Node::Leaf { object, bbox } => if self.at_leaf {
                Probe::Object { object }
            } else {
                Probe::Bounds { node: top, bbox }
            },
            Node::Branch { bbox, .. } => Probe::Bounds { node: top, bbox },
        }
    }

    /// The lower end of the window for the next test.
    pub fn t_min(&self) -> (t: Scalar)
        ensures
            t == self.state().scan.t_min,
    {
        self.scan.t_min
    }

    /// The upper end of the window for the next test.
    pub fn t_max(&self) -> (t: Scalar)
        ensures
            t == self.state().scan.closest_so_far,
    {
        self.scan.closest_so_far
    }

    /// Takes the answer to `Probe::Bounds`.
    pub fn answer_bounds(self, inside: bool) -> (next: Walk<'a>)
        ensures
            next.tree() == self.tree(),
            next.state() == self.state().after_bounds(self.tree(), inside),
    {
        proof {
            use_type_invariant(&self);
            step_fits(self.state(), self.bvh.nodes@, self.bvh.boxes@, inside, None);
        }
        let ghost before = self.state();
        let Walk { bvh, mut stack, scan, at_leaf } = self;
        if stack.len() == 0 || at_leaf {
            assert(stack@ =~= before.pending);
            return Walk { bvh, stack, scan, at_leaf };
        }
        let top: usize = stack[stack.len() - 1];
        if !inside {
            stack.pop();
            return Walk { bvh, stack, scan, at_leaf };
        }
        match bvh.nodes[top] {
            Node::Leaf { .. } => Walk { bvh, stack, scan, at_leaf: true },
            Node::Branch { left, right, .. } => {
                stack.pop();
                stack.push(right);
                stack.push(left);
                Walk { bvh, stack, scan, at_leaf }
            },
        }
    }

    /// Takes the answer to `Probe::Object`.
    pub fn answer_object(self, hit: Option<HitRecord>) -> (next: Walk<'a>)
        ensures
            next.tree() == self.tree(),
            next.state() == self.state().after_object(hit),
    {
        proof {
            use_type_invariant(&self);
            step_fits(self.state(), self.bvh.nodes@, self.bvh.boxes@, false, hit);
        }
        let Walk { bvh, mut stack, scan, at_leaf } = self;
        if stack.len() == 0 || !at_leaf {
            return Walk { bvh, stack, scan, at_leaf };
        }
        stack.pop();
        Walk { bvh, stack, scan: scan.offer_nearer(hit), at_leaf: false }
    }

    /// The hit that the walk has kept.
    pub fn finish(self) -> (hit: Option<HitRecord>)
        ensures
            hit == self.state().scan.record,
    {
        self.scan.record
    }
}

impl BVH {
    /// Begins the search for the nearest hit in the window from `t_min` to
    /// `t_max`.
    pub fn walk(&self, t_min: Scalar, t_max: Scalar) -> (w: Walk<'_>)
        ensures
            w.tree() == self.nodes(),
            w.state() == WalkState::start(self.nodes(), t_min, t_max),
    {
        proof {
            use_type_invariant(self);
        }
        let mut stack: Vec<usize> = Vec::new();
        stack.push(self.nodes.len() - 1);
        assert(stack@ =~= seq![(self.nodes@.len() - 1) as usize]);
        Walk { bvh: self, stack, scan: Scan::new(t_min, t_max), at_leaf: false }
    }
}

/// What the function `bounds` returns for a box in the window from `t_min`
/// to `t_max`.
pub open spec fn box_answer_of<B: Fn(AABB, Scalar, Scalar) -> bool>(
    bounds: B,
    bbox: AABB,
    t_min: Scalar,
    t_max: Scalar,
) -> bool {
    choose|inside: bool| call_ensures(bounds, (bbox, t_min, t_max), inside)
}

/// Whether `bounds` returns the same for the same box and window every
/// time: testing a box against a ray involves no chance.
pub open spec fn single_valued_box<B: Fn(AABB, Scalar, Scalar) -> bool>(bounds: B) -> bool {
    forall|bbox: AABB, t_min: Scalar, t_max: Scalar, inside: bool|
        call_ensures(bounds, (bbox, t_min, t_max), inside) ==> inside == box_answer_of(bounds, bbox, t_min, t_max)
}

/// The answers of the boxes of a tree to one ray, with the lower end of the
/// window held at `t_min`.
pub open spec fn box_answers_of<B: Fn(AABB, Scalar, Scalar) -> bool>(
    bounds: B,
    nodes: Seq<Node>,
    t_min: Scalar,
) -> BoxAnswers {
    |i: int, c: Scalar| box_answer_of(bounds, nodes[i].bounds(), t_min, c)
}

impl BVH {
    /// Searches the hierarchy for the nearest hit of one ray in the window
    /// from `t_min` to `t_max`. `bounds` tests a box against the ray in a
    /// given window, and `object` tests one object, named by its place in
    /// the scene's list.
    ///
    /// A subtree whose box the ray misses is not entered. Of a branch the
    /// left subtree is searched first, and the right one in the window that
    /// ends at the hit found on the left, if there is one; the nearer of the
    /// two hits is returned. What is returned is a hit that `object`
    /// reported, so whatever `object` promises of its hits holds of it.
    pub fn hit<B: Fn(AABB, Scalar, Scalar) -> bool, O: Fn(usize, Scalar, Scalar) -> Option<HitRecord>>(
        &self,
        bounds: B,
        object: O,
        t_min: Scalar,
        t_max: Scalar,
    ) -> (found: Option<HitRecord>)
        requires
            forall|bbox: AABB, lo: Scalar, hi: Scalar| call_requires(bounds, (bbox, lo, hi)),
            forall|o: usize, lo: Scalar, hi: Scalar| o < self.boxes().len() ==> call_requires(object, (o, lo, hi)),
            single_valued_box(bounds),
            single_valued(object),
        ensures
            found == visited(
                self.nodes(),
                answers_of(object, t_min),
                box_answers_of(bounds, self.nodes(), t_min),
                self.nodes().len() - 1,
                Scan::start(t_min, t_max),
            ).record,
            found matches Some(h) ==> reported(object, self.boxes().len() as usize, t_min, h),
    {
        let size: usize = self.nodes.len();
        let count: usize = self.boxes.len();
        proof {
            use_type_invariant(self);
            start_outcome(
                self.nodes@,
                answers_of(object, t_min),
                box_answers_of(bounds, self.nodes@, t_min),
                t_min,
                t_max,
            );
        }
        let mut walk = self.walk(t_min, t_max);
        loop
            invariant
                hierarchy(self.nodes@, self.boxes@),
                walk.tree() == self.nodes@,
                walk.state().fits(self.nodes@),
                walk.state().scan.t_min == t_min,
                count == self.boxes@.len(),
                walk.state().scan.record matches Some(h) ==> reported(object, count, t_min, h),
                forall|bbox: AABB, lo: Scalar, hi: Scalar| call_requires(bounds, (bbox, lo, hi)),
                forall|o: usize, lo: Scalar, hi: Scalar| o < self.boxes@.len() ==> call_requires(object, (o, lo, hi)),
                single_valued_box(bounds),
                single_valued(object),
                walk.state().outcome(
                    self.nodes@,
                    answers_of(object, t_min),
                    box_answers_of(bounds, self.nodes@, t_min),
                ) == visited(
                    self.nodes@,
                    answers_of(object, t_min),
                    box_answers_of(bounds, self.nodes@, t_min),
                    self.nodes@.len() - 1,
                    Scan::start(t_min, t_max),
                ),
            decreases walk.state().effort(self.nodes@),
        {
            let ghost before = walk.state();
            proof {
                step_keeps_outcome(
                    before,
                    self.nodes@,
                    self.boxes@,
                    answers_of(object, t_min),
                    box_answers_of(bounds, self.nodes@, t_min),
                );
            }
            match walk.probe() {
                Probe::Bounds { node, bbox } => {
                    let inside = bounds(bbox, walk.t_min(), walk.t_max());
                    proof {
                        step_fits(before, self.nodes@, self.boxes@, inside, None);
                        step_spends_effort(before, self.nodes@, self.boxes@, inside, None);
                    }
                    walk = walk.answer_bounds(inside);
                },
                Probe::Object { object: o } => {
                    proof {
                        assert(node_ok(self.nodes@, self.boxes@, before.pending.last() as int));
                    }
                    let hit = object(o, walk.t_min(), walk.t_max());
                    proof {
                        step_fits(before, self.nodes@, self.boxes@, false, hit);
                        step_spends_effort(before, self.nodes@, self.boxes@, false, hit);
                    }
                    walk = walk.answer_object(hit);
                },
                Probe::Done => {
                    return walk.finish();
                },
            }
        }
    }
}

/// The hierarchy finds a hit at the same ray parameter as the flat list of
/// the same objects, or none where the list finds none: what `BVH::hit`
/// returns is, in this sense, what `hitable::hit` returns for the same
/// functions and the same window.
///
/// This holds for a window whose upper end is a number, for objects that
/// report their nearest hit whatever the window, and for boxes that the ray
/// does not miss while it hits an object inside them.
pub proof fn hierarchy_matches_list<
    B: Fn(AABB, Scalar, Scalar) -> bool,
    O: Fn(usize, Scalar, Scalar) -> Option<HitRecord>,
>(nodes: Seq<Node>, boxes: Seq<AABB>, bounds: B, object: O, t_min: Scalar, t_max: Scalar)
    requires
        hierarchy(nodes, boxes),
        t_max.is_number(),
        forall|o: int| 0 <= o < boxes.len() ==> steady(answers_of(object, t_min), o, t_max),
        sound(nodes, answers_of(object, t_min), box_answers_of(bounds, nodes, t_min), t_max),
    ensures
        same_t(
            visited(
                nodes,
                answers_of(object, t_min),
                box_answers_of(bounds, nodes, t_min),
                nodes.len() - 1,
                Scan::start(t_min, t_max),
            ).record,
            scanned(answers_of(object, t_min), boxes.len() as int, Scan::start(t_min, t_max)).record,
        ),
{
    hierarchy_is_well_formed(nodes, boxes);
    walk_matches_scan(
        nodes,
        boxes.len() as int,
        nodes.len() - 1,
        answers_of(object, t_min),
        box_answers_of(bounds, nodes, t_min),
        t_min,
        t_max,
    );
}

} // verus!
