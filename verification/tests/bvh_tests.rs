use raytracer::aabb::{Slab, Slabs, AABB};
use raytracer::bvh::{BvhError, Node, Probe, BVH};
use raytracer::hitable::Scan;
use raytracer::materials::HitRecord;
use raytracer::objects::sphere::Roots;
use raytracer::random::{in_unit_ball, random_int_closed};
use raytracer::scalar::Scalar;
use raytracer::structures::vec3::Vec3;

fn s(x: f32) -> Scalar {
    Scalar::from_bits(x.to_bits())
}

fn f(x: Scalar) -> f32 {
    f32::from_bits(x.to_bits())
}

fn v(x: f32, y: f32, z: f32) -> Vec3 {
    Vec3::new(s(x), s(y), s(z))
}

fn cube(x: f32, y: f32, z: f32, r: f32) -> Option<AABB> {
    Some(AABB::new(v(x - r, y - r, z - r), v(x + r, y + r, z + r)))
}

fn same_box(a: &AABB, b: &AABB) -> bool {
    a.min.x.to_bits() == b.min.x.to_bits()
        && a.min.y.to_bits() == b.min.y.to_bits()
        && a.min.z.to_bits() == b.min.z.to_bits()
        && a.max.x.to_bits() == b.max.x.to_bits()
        && a.max.y.to_bits() == b.max.y.to_bits()
        && a.max.z.to_bits() == b.max.z.to_bits()
}

fn objects_below(bvh: &BVH, i: usize) -> Vec<usize> {
    match bvh.node(i).unwrap() {
        Node::Leaf { object, .. } => vec![object],
        Node::Branch { left, right, .. } => {
            if left == right {
                objects_below(bvh, left)
            } else {
                let mut all = objects_below(bvh, left);
                all.extend(objects_below(bvh, right));
                all
            }
        }
    }
}

fn check_structure(bvh: &BVH, boxes: &[Option<AABB>], i: usize) {
    match bvh.node(i).unwrap() {
        Node::Leaf { object, bbox } => {
            assert!(same_box(&bbox, &boxes[object].unwrap()));
        }
        Node::Branch { left, right, bbox, axis } => {
            assert!(left < i && right < i);
            assert!(axis < 3);
            let l = bvh.node(left).unwrap();
            let r = bvh.node(right).unwrap();
            let of = |n: &Node| match n {
                Node::Leaf { bbox, .. } => *bbox,
                Node::Branch { bbox, .. } => *bbox,
            };
            let around = raytracer::aabb::surrounding_box(&of(&l), &of(&r));
            assert!(same_box(&bbox, &around));
            if left == right {
                assert!(matches!(l, Node::Leaf { .. }));
            } else {
                let lower = objects_below(bvh, left);
                let upper = objects_below(bvh, right);
                assert_eq!(lower.len(), (lower.len() + upper.len()) / 2);
                for a in lower.iter() {
                    for b in upper.iter() {
                        let ka = f(boxes[*a].unwrap().min.get(axis));
                        let kb = f(boxes[*b].unwrap().min.get(axis));
                        assert!(ka <= kb);
                    }
                }
            }
            check_structure(bvh, boxes, left);
            if left != right {
                check_structure(bvh, boxes, right);
            }
        }
    }
}

fn scattered_boxes(n: usize) -> Vec<Option<AABB>> {
    let mut seed: u32 = 12345;
    let mut next = || {
        seed = seed.wrapping_mul(1664525).wrapping_add(1013904223);
        ((seed >> 8) as f32 / 16777216.0) * 20.0 - 10.0
    };
    let mut boxes = Vec::new();
    for _ in 0..n {
        let (x, y, z) = (next(), next(), next());
        boxes.push(cube(x, y, z, 0.5));
    }
    boxes
}

#[test]
fn no_objects_is_an_error() {
    let none: [Option<AABB>; 0] = [];
    assert_eq!(BVH::new(&none).err(), Some(BvhError::Empty));
}

#[test]
fn an_unbounded_object_is_an_error() {
    let b = cube(0.0, 0.0, 0.0, 1.0);
    assert_eq!(BVH::new(&[None]).err(), Some(BvhError::Unbounded { object: 0 }));
    assert_eq!(BVH::new(&[b, b, None, b, None]).err(), Some(BvhError::Unbounded { object: 2 }));
    assert!(BVH::new(&[b, b]).is_ok());
}

#[test]
fn one_object_sits_below_a_branch_that_names_it_twice() {
    let boxes = [cube(1.0, 2.0, 3.0, 1.0)];
    let bvh = BVH::new(&boxes).unwrap();
    assert_eq!(bvh.len(), 2);
    assert_eq!(bvh.root(), 1);
    assert!(matches!(bvh.node(0), Some(Node::Leaf { object: 0, .. })));
    assert!(matches!(bvh.node(1), Some(Node::Branch { left: 0, right: 0, .. })));
    assert!(bvh.node(2).is_none());
    assert!(same_box(&bvh.bounding_box().unwrap(), &boxes[0].unwrap()));
    check_structure(&bvh, &boxes, bvh.root());
}

#[test]
fn two_objects_are_ordered_along_the_axis() {
    let boxes = [cube(5.0, 5.0, 5.0, 1.0), cube(-5.0, -5.0, -5.0, 1.0)];
    for _ in 0..20 {
        let bvh = BVH::new(&boxes).unwrap();
        assert_eq!(bvh.len(), 3);
        assert!(matches!(bvh.node(0), Some(Node::Leaf { object: 1, .. })));
        assert!(matches!(bvh.node(1), Some(Node::Leaf { object: 0, .. })));
        assert!(matches!(bvh.node(2), Some(Node::Branch { left: 0, right: 1, .. })));
        let around = bvh.bounding_box().unwrap();
        assert_eq!((f(around.min.x), f(around.max.x)), (-6.0, 6.0));
    }
}

#[test]
fn three_objects_split_into_one_and_two() {
    let boxes = [cube(0.0, 0.0, 0.0, 1.0), cube(-5.0, -5.0, -5.0, 1.0), cube(5.0, 5.0, 5.0, 1.0)];
    let bvh = BVH::new(&boxes).unwrap();
    assert_eq!(bvh.len(), 6);
    let root = bvh.node(bvh.root()).unwrap();
    match root {
        Node::Branch { left, right, .. } => {
            assert_eq!(objects_below(&bvh, left), vec![1]);
            assert_eq!(objects_below(&bvh, right), vec![0, 2]);
        }
        Node::Leaf { .. } => panic!("the root is a branch"),
    }
    check_structure(&bvh, &boxes, bvh.root());
}

#[test]
fn every_object_stands_below_the_root_once() {
    for n in 1..40usize {
        let boxes = scattered_boxes(n);
        let bvh = BVH::new(&boxes).unwrap();
        let mut below = objects_below(&bvh, bvh.root());
        below.sort();
        let all: Vec<usize> = (0..n).collect();
        assert_eq!(below, all);
        check_structure(&bvh, &boxes, bvh.root());
    }
}

#[test]
fn the_axis_is_drawn_at_random() {
    let boxes = scattered_boxes(2);
    let mut seen = [false; 3];
    for _ in 0..200 {
        let bvh = BVH::new(&boxes).unwrap();
        match bvh.node(bvh.root()).unwrap() {
            Node::Branch { axis, .. } => seen[axis as usize] = true,
            Node::Leaf { .. } => panic!("the root is a branch"),
        }
    }
    assert_eq!(seen, [true, true, true]);
}

#[test]
fn random_int_closed_stays_in_range_and_varies() {
    let mut seen = [false; 4];
    for _ in 0..400 {
        let n = random_int_closed(3, 6);
        assert!(3 <= n && n <= 6);
        seen[(n - 3) as usize] = true;
    }
    assert_eq!(seen, [true, true, true, true]);
    assert_eq!(random_int_closed(7, 7), 7);
    assert_eq!(random_int_closed(0, 0), 0);
}

struct Ball {
    center: [f32; 3],
    radius: f32,
}

fn ball_hit(ball: &Ball, origin: [f32; 3], direction: [f32; 3], t_min: Scalar, t_max: Scalar, id: usize) -> Option<HitRecord> {
    let oc = [origin[0] - ball.center[0], origin[1] - ball.center[1], origin[2] - ball.center[2]];
    let a = direction[0] * direction[0] + direction[1] * direction[1] + direction[2] * direction[2];
    let half_b = oc[0] * direction[0] + oc[1] * direction[1] + oc[2] * direction[2];
    let c = oc[0] * oc[0] + oc[1] * oc[1] + oc[2] * oc[2] - ball.radius * ball.radius;
    let discriminant = half_b * half_b - a * c;
    let root = discriminant.sqrt();
    let roots = Roots::new(s(discriminant), s((-half_b - root) / a), s((-half_b + root) / a));
    roots.first_within(t_min, t_max).map(|t| {
        let at = f(t);
        let p = [origin[0] + at * direction[0], origin[1] + at * direction[1], origin[2] + at * direction[2]];
        let n = [
            (p[0] - ball.center[0]) / ball.radius,
            (p[1] - ball.center[1]) / ball.radius,
            (p[2] - ball.center[2]) / ball.radius,
        ];
        let facing = direction[0] * n[0] + direction[1] * n[1] + direction[2] * n[2];
        HitRecord::new(v(p[0], p[1], p[2]), t, s(facing), &v(n[0], n[1], n[2]), s(0.0), s(0.0), id)
    })
}

fn slabs(b: &AABB, origin: [f32; 3], direction: [f32; 3]) -> Slabs {
    let one = |a: usize| {
        let inv_d = 1.0 / direction[a];
        let t0 = (f(b.min.get(a as u8)) - origin[a]) * inv_d;
        let t1 = (f(b.max.get(a as u8)) - origin[a]) * inv_d;
        Slab::new(s(inv_d), s(t0), s(t1))
    };
    Slabs::new(one(0), one(1), one(2))
}

fn walk(bvh: &BVH, balls: &[Ball], origin: [f32; 3], direction: [f32; 3], t_min: f32, t_max: f32) -> (Option<HitRecord>, usize) {
    let mut walk = bvh.walk(s(t_min), s(t_max));
    let mut asked = 0;
    loop {
        match walk.probe() {
            Probe::Bounds { bbox, .. } => {
                let inside = slabs(&bbox, origin, direction).hit(walk.t_min(), walk.t_max());
                walk = walk.answer_bounds(inside);
            }
            Probe::Object { object } => {
                asked += 1;
                let hit = ball_hit(&balls[object], origin, direction, walk.t_min(), walk.t_max(), object);
                walk = walk.answer_object(hit);
            }
            Probe::Done => break,
        }
    }
    (walk.finish(), asked)
}

fn scan(balls: &[Ball], origin: [f32; 3], direction: [f32; 3], t_min: f32, t_max: f32) -> Option<HitRecord> {
    let mut scan = Scan::new(s(t_min), s(t_max));
    for (id, ball) in balls.iter().enumerate() {
        scan = scan.offer(ball_hit(ball, origin, direction, scan.t_min, scan.closest_so_far, id));
    }
    scan.record
}

fn scene(n: usize) -> (Vec<Ball>, Vec<Option<AABB>>) {
    let mut seed: u32 = 2024;
    let mut next = || {
        seed = seed.wrapping_mul(1664525).wrapping_add(1013904223);
        (seed >> 8) as f32 / 16777216.0
    };
    let mut balls = Vec::new();
    let mut boxes = Vec::new();
    for _ in 0..n {
        let center = [next() * 20.0 - 10.0, next() * 20.0 - 10.0, next() * 20.0 - 10.0];
        let radius = 0.25 + next();
        boxes.push(Some(AABB::new(
            v(center[0] - radius, center[1] - radius, center[2] - radius),
            v(center[0] + radius, center[1] + radius, center[2] + radius),
        )));
        balls.push(Ball { center, radius });
    }
    (balls, boxes)
}

fn hit_tree(bvh: &BVH, balls: &[Ball], origin: [f32; 3], direction: [f32; 3], t_min: f32, t_max: f32) -> Option<HitRecord> {
    bvh.hit(
        |bbox, lo, hi| slabs(&bbox, origin, direction).hit(lo, hi),
        |object, lo, hi| ball_hit(&balls[object], origin, direction, lo, hi, object),
        s(t_min),
        s(t_max),
    )
}

fn hit_list(balls: &[Ball], origin: [f32; 3], direction: [f32; 3], t_min: f32, t_max: f32) -> Option<HitRecord> {
    raytracer::hitable::hit(
        balls.len(),
        |object, lo, hi| ball_hit(&balls[object], origin, direction, lo, hi, object),
        s(t_min),
        s(t_max),
    )
}

#[test]
fn the_hierarchy_finds_the_same_hit_as_the_list() {
    for n in [1usize, 2, 3, 4, 5, 8, 33, 100].iter() {
        let (balls, boxes) = scene(*n);
        let bvh = BVH::new(&boxes).unwrap();
        let mut seed: u32 = 7;
        let mut next = || {
            seed = seed.wrapping_mul(1664525).wrapping_add(1013904223);
            (seed >> 8) as f32 / 16777216.0
        };
        let mut hits = 0;
        for _ in 0..300 {
            let origin = [next() * 30.0 - 15.0, next() * 30.0 - 15.0, 20.0];
            let direction = [next() - 0.5, next() - 0.5, -1.0];
            let t_max = if next() < 0.5 { f32::INFINITY } else { 10.0 + 20.0 * next() };
            let by_tree = hit_tree(&bvh, &balls, origin, direction, 0.001, t_max);
            let by_list = hit_list(&balls, origin, direction, 0.001, t_max);
            let by_walk = walk(&bvh, &balls, origin, direction, 0.001, t_max).0;
            match (by_tree, by_list, by_walk) {
                (Some(a), Some(b), Some(c)) => {
                    hits += 1;
                    assert_eq!(f(a.t), f(b.t));
                    assert_eq!(f(a.t), f(c.t));
                    assert_eq!(a.material, b.material);
                    assert!(f(a.t) > 0.001 && f(a.t) < t_max);
                }
                (None, None, None) => {}
                _ => panic!("one search found a hit and another none"),
            }
        }
        if *n == 100 {
            assert!(hits > 20);
        }
    }
}

#[test]
fn the_list_returns_the_nearest_of_several_hits() {
    let balls = vec![
        Ball { center: [0.0, 0.0, -10.0], radius: 1.0 },
        Ball { center: [0.0, 0.0, 0.0], radius: 1.0 },
        Ball { center: [0.0, 0.0, -5.0], radius: 1.0 },
        Ball { center: [9.0, 0.0, 0.0], radius: 1.0 },
    ];
    let found = hit_list(&balls, [0.0, 0.0, 5.0], [0.0, 0.0, -1.0], 0.001, f32::INFINITY).unwrap();
    assert_eq!((f(found.t), found.material), (4.0, 1));
    let beyond = hit_list(&balls, [0.0, 0.0, 5.0], [0.0, 0.0, -1.0], 7.0, f32::INFINITY).unwrap();
    assert_eq!((f(beyond.t), beyond.material), (9.0, 2));
    assert!(hit_list(&balls, [0.0, 0.0, 5.0], [0.0, 0.0, -1.0], 0.001, 3.0).is_none());
    assert!(hit_list(&balls[..0], [0.0, 0.0, 5.0], [0.0, 0.0, -1.0], 0.001, f32::INFINITY).is_none());
}

#[test]
fn walk_finds_the_same_hit_as_a_scan() {
    for n in [1usize, 2, 3, 7, 50].iter() {
        let (balls, boxes) = scene(*n);
        let bvh = BVH::new(&boxes).unwrap();
        let mut seed: u32 = 99;
        let mut next = || {
            seed = seed.wrapping_mul(1664525).wrapping_add(1013904223);
            (seed >> 8) as f32 / 16777216.0
        };
        let mut hits = 0;
        for _ in 0..400 {
            let origin = [next() * 30.0 - 15.0, next() * 30.0 - 15.0, 20.0];
            let direction = [next() - 0.5, next() - 0.5, -1.0];
            let (by_walk, _) = walk(&bvh, &balls, origin, direction, 0.001, f32::INFINITY);
            let by_scan = scan(&balls, origin, direction, 0.001, f32::INFINITY);
            match (by_walk, by_scan) {
                (Some(a), Some(b)) => {
                    hits += 1;
                    assert_eq!(f(a.t), f(b.t));
                    assert_eq!(a.material, b.material);
                }
                (None, None) => {}
                _ => panic!("one search found a hit and the other none"),
            }
        }
        if *n == 50 {
            assert!(hits > 20);
        }
    }
}

#[test]
fn walk_respects_the_window() {
    let balls = vec![Ball { center: [0.0, 0.0, 0.0], radius: 1.0 }, Ball { center: [0.0, 0.0, -10.0], radius: 1.0 }];
    let boxes = vec![cube(0.0, 0.0, 0.0, 1.0), cube(0.0, 0.0, -10.0, 1.0)];
    let bvh = BVH::new(&boxes).unwrap();
    let origin = [0.0, 0.0, 5.0];
    let direction = [0.0, 0.0, -1.0];
    let (nearest, _) = walk(&bvh, &balls, origin, direction, 0.001, f32::INFINITY);
    assert_eq!(f(nearest.unwrap().t), 4.0);
    assert_eq!(nearest.unwrap().material, 0);
    let (behind_the_first, _) = walk(&bvh, &balls, origin, direction, 7.0, f32::INFINITY);
    assert_eq!(f(behind_the_first.unwrap().t), 14.0);
    assert_eq!(behind_the_first.unwrap().material, 1);
    let (too_short, _) = walk(&bvh, &balls, origin, direction, 0.001, 3.0);
    assert!(too_short.is_none());
}

#[test]
fn walk_skips_objects_in_boxes_that_the_ray_misses() {
    let (balls, boxes) = scene(64);
    let bvh = BVH::new(&boxes).unwrap();
    let (hit, asked) = walk(&bvh, &balls, [100.0, 100.0, 20.0], [0.0, 0.0, -1.0], 0.001, f32::INFINITY);
    assert!(hit.is_none());
    assert_eq!(asked, 0);
    let (_, asked_through) = walk(&bvh, &balls, [0.0, 0.0, 20.0], [0.01, 0.02, -1.0], 0.001, f32::INFINITY);
    assert!(asked_through < 64);
}

#[test]
fn walk_ignores_answers_it_did_not_ask_for() {
    let boxes = [cube(0.0, 0.0, 0.0, 1.0)];
    let bvh = BVH::new(&boxes).unwrap();
    let walk = bvh.walk(s(0.001), s(f32::INFINITY));
    assert!(matches!(walk.probe(), Probe::Bounds { node: 1, .. }));
    let stray = HitRecord::new(v(0.0, 0.0, 0.0), s(1.0), s(-1.0), &v(0.0, 0.0, 1.0), s(0.0), s(0.0), 5);
    let walk = walk.answer_object(Some(stray));
    assert!(matches!(walk.probe(), Probe::Bounds { node: 1, .. }));
    let walk = walk.answer_bounds(true);
    assert!(matches!(walk.probe(), Probe::Bounds { node: 0, .. }));
    let walk = walk.answer_bounds(true);
    assert!(matches!(walk.probe(), Probe::Object { object: 0 }));
    let walk = walk.answer_bounds(false);
    assert!(matches!(walk.probe(), Probe::Object { object: 0 }));
    let walk = walk.answer_object(Some(stray));
    assert!(matches!(walk.probe(), Probe::Bounds { node: 0, .. }));
    assert_eq!(f(walk.t_max()), 1.0);
    let walk = walk.answer_bounds(false);
    assert!(matches!(walk.probe(), Probe::Done));
    let walk = walk.answer_bounds(true).answer_object(None);
    assert!(matches!(walk.probe(), Probe::Done));
    assert_eq!(walk.finish().unwrap().material, 5);
}

#[test]
fn sorted_along_orders_by_the_lower_corner() {
    let boxes: Vec<AABB> = vec![
        AABB::new(v(3.0, -1.0, 0.0), v(9.0, 9.0, 9.0)),
        AABB::new(v(-2.0, 5.0, 0.0), v(9.0, 9.0, 9.0)),
        AABB::new(v(0.5, 0.0, -7.0), v(9.0, 9.0, 9.0)),
        AABB::new(v(-0.0, 2.0, 0.0), v(9.0, 9.0, 9.0)),
    ];
    let items: Vec<usize> = vec![0, 1, 2, 3];
    assert_eq!(raytracer::bvh::builder::sorted_along(&items, &boxes, 0), vec![1, 3, 2, 0]);
    assert_eq!(raytracer::bvh::builder::sorted_along(&items, &boxes, 1), vec![0, 2, 3, 1]);
    assert_eq!(raytracer::bvh::builder::sorted_along(&items, &boxes, 2), vec![2, 0, 1, 3]);
    let some: Vec<usize> = vec![3, 0];
    assert_eq!(raytracer::bvh::builder::sorted_along(&some, &boxes, 0), vec![3, 0]);
    let none: Vec<usize> = Vec::new();
    assert!(raytracer::bvh::builder::sorted_along(&none, &boxes, 0).is_empty());
}

#[test]
fn only_points_inside_the_unit_ball_are_kept() {
    assert!(in_unit_ball(s(0.0)));
    assert!(in_unit_ball(s(0.25)));
    assert!(in_unit_ball(s(0.99999994)));
    assert!(!in_unit_ball(s(1.0)));
    assert!(!in_unit_ball(s(3.0)));
    assert!(!in_unit_ball(s(f32::INFINITY)));
    assert!(!in_unit_ball(s(f32::NAN)));
}
