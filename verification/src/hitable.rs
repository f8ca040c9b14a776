//! Searching a list of objects for the nearest hit, and the box around a
//! list.
//!
//! Testing one object against a ray is arithmetic that the caller
//! supplies. The search itself is here: it hands out the window in which the
//! next object is to be tested, takes that object's answer, and keeps the
//! hit to return.

use vstd::prelude::*;
use crate::scalar::Scalar;
use crate::aabb::{AABB, surrounding, surrounding_box};
use crate::materials::HitRecord;

verus! {

/// A search for the nearest hit, part way through.
#[derive(Clone, Copy, Debug)]
pub struct Scan {
    /// The lower end of the window, the same for every object.
    pub t_min: Scalar,
    /// The upper end of the window for the next object.
    pub closest_so_far: Scalar,
    /// The hit to return if no later object answers.
    pub record: Option<HitRecord>,
}

impl Scan {
    /// The search before any object was asked.
    pub open spec fn start(t_min: Scalar, t_max: Scalar) -> Scan {
        Scan { t_min, closest_so_far: t_max, record: None }
    }

    /// The search after one more object has answered `hit` to the window
    /// from `t_min` to `closest_so_far`: a hit takes the place of what was
    /// kept, and its parameter becomes the upper end of the window.
    pub open spec fn spec_offer(self, hit: Option<HitRecord>) -> Scan {
        match hit {
            Some(h) => Scan { closest_so_far: h.t, record: Some(h), ..self },
            None => self,
        }
    }

    /// As `spec_offer`, but a hit takes the place of what was kept only if
    /// nothing was kept or it is strictly nearer; the window never widens.
    pub open spec fn spec_offer_nearer(self, hit: Option<HitRecord>) -> Scan {
        match hit {
            Some(h) => if self.record is None || h.t.lt(self.record->0.t) {
                Scan { closest_so_far: self.closest_so_far.min(h.t), record: Some(h), ..self }
            } else {
                self
            },
            None => self,
        }
    }

    pub fn new(t_min: Scalar, t_max: Scalar) -> (scan: Scan)
        ensures
            scan == Scan::start(t_min, t_max),
    {
        Scan { t_min, closest_so_far: t_max, record: None }
    }

    #[verifier::when_used_as_spec(spec_offer)]
    pub fn offer(self, hit: Option<HitRecord>) -> (next: Scan)
        ensures
            next == self.spec_offer(hit),
    {
        match hit {
            Some(h) => Scan { t_min: self.t_min, closest_so_far: h.t, record: Some(h) },
            None => self,
        }
    }

    #[verifier::when_used_as_spec(spec_offer_nearer)]
    pub fn offer_nearer(self, hit: Option<HitRecord>) -> (next: Scan)
        ensures
            next == self.spec_offer_nearer(hit),
    {
        match hit {
            Some(h) => {
                let take = match self.record {
                    None => true,
                    Some(kept) => h.t.lt(kept.t),
                };
                if take {
                    Scan {
                        t_min: self.t_min,
                        closest_so_far: self.closest_so_far.min(h.t),
                        record: Some(h),
                    }
                } else {
                    self
                }
            },
            None => self,
        }
    }
}

/// What the objects of a scene answer to one ray: `answers(o, c)` is the hit
/// that object `o` reports in the window that ends at `c`, or `None`. The
/// lower end of the window is the same throughout and is left out.
pub type Answers = spec_fn(int, Scalar) -> Option<HitRecord>;

/// The search over the first `n` objects, in their order.
pub open spec fn scanned(answers: Answers, n: int, start: Scan) -> Scan
    decreases n,
{
    if n <= 0 {
        start
    } else {
        let before = scanned(answers, n - 1, start);
        before.spec_offer(answers(n - 1, before.closest_so_far))
    }
}

/// What the function `object` returns for object `o` in the window from
/// `t_min` to `t_max`.
pub open spec fn answer_of<F: Fn(usize, Scalar, Scalar) -> Option<HitRecord>>(
    object: F,
    o: usize,
    t_min: Scalar,
    t_max: Scalar,
) -> Option<HitRecord> {
    choose|hit: Option<HitRecord>| call_ensures(object, (o, t_min, t_max), hit)
}

/// Whether `object` returns the same for the same object and window every
/// time: testing an object against a ray involves no chance.
pub open spec fn single_valued<F: Fn(usize, Scalar, Scalar) -> Option<HitRecord>>(object: F) -> bool {
    forall|o: usize, t_min: Scalar, t_max: Scalar, hit: Option<HitRecord>|
        call_ensures(object, (o, t_min, t_max), hit) ==> hit == answer_of(object, o, t_min, t_max)
}

/// The answers of the objects to one ray, with the lower end of the window
/// held at `t_min`.
pub open spec fn answers_of<F: Fn(usize, Scalar, Scalar) -> Option<HitRecord>>(object: F, t_min: Scalar) -> Answers {
    |o: int, c: Scalar| answer_of(object, o as usize, t_min, c)
}

/// Whether `h` is a hit that one of the first `count` objects reports, in
/// some window that begins at `t_min`.
pub open spec fn reported<F: Fn(usize, Scalar, Scalar) -> Option<HitRecord>>(
    object: F,
    count: usize,
    t_min: Scalar,
    h: HitRecord,
) -> bool {
    exists|o: usize, c: Scalar| o < count && #[trigger] call_ensures(object, (o, t_min, c), Some(h))
}

/// Scans a list of `count` objects for the nearest hit of one ray in the
/// window from `t_min` to `t_max`. `object` tests one object, named by its
/// place in the list, against the ray in a given window. Each object is
/// tested in the window that the hits before it have left, and the last hit
/// reported is returned; so whatever `object` promises of its hits holds of
/// the hit returned.
pub fn hit<F: Fn(usize, Scalar, Scalar) -> Option<HitRecord>>(
    count: usize,
    object: F,
    t_min: Scalar,
    t_max: Scalar,
) -> (found: Option<HitRecord>)
    requires
        forall|o: usize, lo: Scalar, hi: Scalar| o < count ==> call_requires(object, (o, lo, hi)),
        single_valued(object),
    ensures
        found == scanned(answers_of(object, t_min), count as int, Scan::start(t_min, t_max)).record,
        found matches Some(h) ==> reported(object, count, t_min, h),
{
    let mut scan = Scan::new(t_min, t_max);
    let mut o: usize = 0;
    while o < count
        invariant
            0 <= o <= count,
            forall|k: usize, lo: Scalar, hi: Scalar| k < count ==> call_requires(object, (k, lo, hi)),
            single_valued(object),
            scan == scanned(answers_of(object, t_min), o as int, Scan::start(t_min, t_max)),
            scan.record matches Some(h) ==> reported(object, count, t_min, h),
        decreases count - o,
    {
        assert(scan.t_min == t_min) by {
            lemma_scan_keeps_t_min(answers_of(object, t_min), o as int, Scan::start(t_min, t_max));
        }
        let answer = object(o, scan.t_min, scan.closest_so_far);
        scan = scan.offer(answer);
        o = o + 1;
    }
    scan.record
}

proof fn lemma_scan_keeps_t_min(answers: Answers, n: int, start: Scan)
    ensures
        scanned(answers, n, start).t_min == start.t_min,
    decreases n,
{
    if n > 0 {
        lemma_scan_keeps_t_min(answers, n - 1, start);
    }
}

/// Whether the answer `narrowed`, given for a window that ends at `c`, fits
/// the answer `full` that the same object gives for the whole window: a hit
/// in the narrow window is the hit of the whole window and lies at or before
/// `c`; no hit in the narrow window means either no hit at all or one at or
/// beyond `c`.
pub open spec fn agrees(full: Option<HitRecord>, c: Scalar, narrowed: Option<HitRecord>) -> bool {
    match narrowed {
        Some(h) => {
            &&& full is Some
            &&& h.t.is_number()
            &&& h.t.rank() == full->0.t.rank()
            &&& h.t.le(c)
        },
        None => full is None || c.le(full->0.t),
    }
}

/// Whether object `o` reports its nearest hit whatever the window: ending
/// the window earlier than `t_max` never turns up another hit.
pub open spec fn steady(answers: Answers, o: int, t_max: Scalar) -> bool {
    forall|c: Scalar| c.le(t_max) ==> agrees(answers(o, t_max), c, #[trigger] answers(o, c))
}

/// Whether two results name a hit at the same parameter, or both name none.
pub open spec fn same_t(a: Option<HitRecord>, b: Option<HitRecord>) -> bool {
    match (a, b) {
        (Some(x), Some(y)) => x.t.is_number() && y.t.is_number() && x.t.rank() == y.t.rank(),
        (None, None) => true,
        _ => false,
    }
}

/// The box around the first `n` of some boxes, for `n` at least one.
pub open spec fn union_of(boxes: Seq<Option<AABB>>, n: int) -> AABB
    decreases n,
{
    if n <= 1 {
        boxes[0]->0
    } else {
        surrounding(union_of(boxes, n - 1), boxes[n - 1]->0)
    }
}

/// The box of a list, from the boxes of its members: the box around them
/// all. A list that is empty, or that has a member without a box, has none.
pub fn bounding_box(boxes: &[Option<AABB>]) -> (around: Option<AABB>)
    ensures
        around is Some <==> boxes@.len() > 0 && forall|i: int| 0 <= i < boxes@.len() ==> boxes@[i] is Some,
        around is Some ==> around->0 == union_of(boxes@, boxes@.len() as int),
{
    if boxes.len() == 0 {
        return None;
    }
    let mut output_box: AABB = match boxes[0] {
        Some(b) => b,
        None => {
            return None;
        },
    };
    let mut i: usize = 1;
    while i < boxes.len()
        invariant
            1 <= i <= boxes@.len(),
            forall|k: int| 0 <= k < i ==> boxes@[k] is Some,
            output_box == union_of(boxes@, i as int),
        decreases boxes@.len() - i,
    {
        match boxes[i] {
            Some(temp_box) => {
                output_box = surrounding_box(&output_box, &temp_box);
            },
            None => {
                return None;
            },
        }
        i = i + 1;
    }
    Some(output_box)
}

} // verus!
