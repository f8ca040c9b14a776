use std::cell::Cell;

use rand::Rng;

use raytracer::aabb::{Slab, Slabs, AABB};
use raytracer::bvh::BVH;
use raytracer::color::{map_color_256, Color};
use raytracer::integrator::ray_color;
use raytracer::materials::{HitRecord, Lambertian, Metal};
use raytracer::objects::sphere::{Roots, Sphere};
use raytracer::random::in_unit_ball;
use raytracer::render::render;
use raytracer::scalar::Scalar;
use raytracer::texture::SolidColor;
use raytracer::structures::ray::Ray;
use raytracer::structures::vec3::Vec3;

type V = [f32; 3];

fn s(x: f32) -> Scalar {
    Scalar::from_bits(x.to_bits())
}

fn f(x: Scalar) -> f32 {
    f32::from_bits(x.to_bits())
}

fn to_vec(a: V) -> Vec3 {
    Vec3::new(s(a[0]), s(a[1]), s(a[2]))
}

fn of_vec(a: Vec3) -> V {
    [f(a.x), f(a.y), f(a.z)]
}

fn to_color(a: V) -> Color {
    Color::new(s(a[0]), s(a[1]), s(a[2]))
}

fn of_color(a: Color) -> V {
    [f(a.r), f(a.g), f(a.b)]
}

fn add(a: V, b: V) -> V {
    [a[0] + b[0], a[1] + b[1], a[2] + b[2]]
}

fn sub(a: V, b: V) -> V {
    [a[0] - b[0], a[1] - b[1], a[2] - b[2]]
}

fn scale(k: f32, a: V) -> V {
    [k * a[0], k * a[1], k * a[2]]
}

fn times(a: V, b: V) -> V {
    [a[0] * b[0], a[1] * b[1], a[2] * b[2]]
}

fn dot(a: V, b: V) -> f32 {
    a[0] * b[0] + a[1] * b[1] + a[2] * b[2]
}

fn unit(a: V) -> V {
    scale(1.0 / dot(a, a).sqrt(), a)
}

fn in_unit_sphere() -> V {
    let mut rng = rand::thread_rng();
    loop {
        let p = [rng.gen_range(-1.0f32, 1.0), rng.gen_range(-1.0f32, 1.0), rng.gen_range(-1.0f32, 1.0)];
        if in_unit_ball(s(dot(p, p))) {
            return p;
        }
    }
}

fn unit_vector() -> V {
    let mut rng = rand::thread_rng();
    let a = rng.gen_range(0.0f32, 2.0 * std::f32::consts::PI);
    let z = rng.gen_range(-1.0f32, 1.0);
    let r = (1.0 - z * z).sqrt();
    [r * a.cos(), r * a.sin(), z]
}

enum Surface {
    Diffuse(Lambertian<SolidColor>),
    Mirror(Metal),
}

struct World {
    balls: Vec<Sphere>,
    surfaces: Vec<Surface>,
    tree: BVH,
}

fn world(balls: Vec<Sphere>, surfaces: Vec<Surface>) -> World {
    let boxes: Vec<Option<AABB>> = balls
        .iter()
        .map(|b| {
            let (c, r) = (of_vec(b.center), f(b.radius));
            Some(AABB::new(to_vec(sub(c, [r, r, r])), to_vec(add(c, [r, r, r]))))
        })
        .collect();
    let tree = BVH::new(&boxes).unwrap();
    World { balls, surfaces, tree }
}

fn hit_ball(ball: &Sphere, ray: &Ray, t_min: Scalar, t_max: Scalar) -> Option<HitRecord> {
    let (origin, direction, center, radius) =
        (of_vec(ray.origin), of_vec(ray.direction), of_vec(ball.center), f(ball.radius));
    let oc = sub(origin, center);
    let a = dot(direction, direction);
    let half_b = dot(oc, direction);
    let c = dot(oc, oc) - radius * radius;
    let discriminant = half_b * half_b - a * c;
    let root = discriminant.sqrt();
    let roots = Roots::new(s(discriminant), s((-half_b - root) / a), s((-half_b + root) / a));
    ball.hit(roots, t_min, t_max).map(|t| {
        let p = add(origin, scale(f(t), direction));
        let n = scale(1.0 / radius, sub(p, center));
        HitRecord::new(to_vec(p), t, s(dot(direction, n)), &to_vec(n), s(0.0), s(0.0), ball.material)
    })
}

fn slabs(b: &AABB, ray: &Ray) -> Slabs {
    let one = |a: u8| {
        let inv_d = 1.0 / f(ray.direction.get(a));
        let t0 = (f(b.min.get(a)) - f(ray.origin.get(a))) * inv_d;
        let t1 = (f(b.max.get(a)) - f(ray.origin.get(a))) * inv_d;
        Slab::new(s(inv_d), s(t0), s(t1))
    };
    Slabs::new(one(0), one(1), one(2))
}

fn hit_world(world: &World, ray: &Ray, t_min: Scalar, t_max: Scalar) -> Option<HitRecord> {
    world.tree.hit(
        |bbox, lo, hi| slabs(&bbox, ray).hit(lo, hi),
        |object, lo, hi| hit_ball(&world.balls[object], ray, lo, hi),
        t_min,
        t_max,
    )
}

fn sky(ray: &Ray) -> V {
    let t = 0.5 * (unit(of_vec(ray.direction))[1] + 1.0);
    add(scale(1.0 - t, [1.0, 1.0, 1.0]), scale(t, [0.5, 0.7, 1.0]))
}

fn scatter(surface: &Surface, ray: &Ray, hit: &HitRecord) -> Option<(Color, Ray)> {
    let (p, n) = (of_vec(hit.p), of_vec(hit.normal));
    match surface {
        Surface::Diffuse(m) => {
            let direction = add(n, unit_vector());
            m.scatter(m.albedo.color(), Ray::new(hit.p, to_vec(direction), ray.time))
        }
        Surface::Mirror(m) => {
            let v = unit(of_vec(ray.direction));
            let reflected = sub(v, scale(2.0 * dot(v, n), n));
            let direction = add(reflected, scale(f(m.fuzz), in_unit_sphere()));
            m.scatter(Ray::new(to_vec(p), to_vec(direction), ray.time), s(dot(direction, n)))
        }
    }
}

fn radiance(world: &World, ray: Ray, depth: u32, casts: &Cell<u32>) -> V {
    let cast = |r: Ray, lo: Scalar, hi: Scalar| {
        casts.set(casts.get() + 1);
        hit_world(world, &r, lo, hi)
    };
    let emitted = |_: HitRecord| to_color([0.0, 0.0, 0.0]);
    let pass_on = |r: Ray, h: HitRecord| scatter(&world.surfaces[h.material], &r, &h);
    let (bounces, last) = ray_color(&ray, cast, emitted, pass_on, depth, |r: Ray| to_color(sky(&r)));
    bounces
        .iter()
        .rev()
        .fold(of_color(last), |beyond, b| add(of_color(b.emitted), times(of_color(b.attenuation), beyond)))
}

fn primary(u: f32, v: f32) -> Ray {
    let half_height = (20.0f32).to_radians().tan();
    let direction = [(2.0 * u - 1.0) * half_height, (2.0 * v - 1.0) * half_height, -1.0];
    Ray::new(to_vec([0.0, 0.0, 3.0]), to_vec(direction), s(0.0))
}

fn picture(world: &World, size: u32, samples: u32, depth: u32) -> (Vec<V>, Vec<u8>) {
    let linear = Cell::new(Vec::new());
    let data = render(size, size, |x, y| {
        let mut rng = rand::thread_rng();
        let mut sum = [0.0f32; 3];
        for _ in 0..samples {
            let u = (x as f32 + rng.gen_range(0.0f32, 1.0)) / (size as f32 - 1.0);
            let v = (y as f32 + rng.gen_range(0.0f32, 1.0)) / (size as f32 - 1.0);
            let casts = Cell::new(0);
            sum = add(sum, radiance(world, primary(u, v), depth, &casts));
            assert!(casts.get() <= depth + 1);
        }
        let mean = scale(1.0 / samples as f32, sum);
        let mut all = linear.take();
        all.push(mean);
        linear.set(all);
        to_color([mean[0].sqrt(), mean[1].sqrt(), mean[2].sqrt()])
    });
    (linear.take(), data)
}

fn two_spheres(albedo: V) -> World {
    world(
        vec![
            Sphere::new(to_vec([0.0, -1000.5, 0.0]), s(1000.0), 0),
            Sphere::new(to_vec([0.0, 0.0, 0.0]), s(0.5), 1),
        ],
        vec![
            Surface::Diffuse(Lambertian::new(SolidColor::new(to_color([0.5, 0.5, 0.5])))),
            Surface::Mirror(Metal::new(to_color(albedo), s(0.0))),
        ],
    )
}

fn distance(a: (u8, u8, u8), b: (u8, u8, u8)) -> f32 {
    let d = [a.0 as f32 - b.0 as f32, a.1 as f32 - b.1 as f32, a.2 as f32 - b.2 as f32];
    dot(d, d).sqrt()
}

#[test]
fn a_metal_sphere_in_the_centre_shows_its_albedo() {
    let albedo = [0.8, 0.6, 0.2];
    let scene = two_spheres(albedo);
    let size = 21;
    let centre = (size / 2 * size + size / 2) as usize;
    for _ in 0..20 {
        let (_, data) = picture(&scene, size, 1, 1);
        assert_eq!(data.len(), (size * size * 3) as usize);
        let pixel = (data[3 * centre], data[3 * centre + 1], data[3 * centre + 2]);
        let gamma = |c: V| map_color_256(to_color([c[0].sqrt(), c[1].sqrt(), c[2].sqrt()]));
        let background = gamma(sky(&primary(0.5, 0.5)));
        assert!(distance(pixel, gamma(albedo)) < distance(pixel, background));
    }
}

#[test]
fn with_no_bounces_a_diffuse_sphere_is_black() {
    let scene = two_spheres([0.8, 0.6, 0.2]);
    let casts = Cell::new(0);
    let down = Ray::new(to_vec([0.0, 5.0, 3.0]), to_vec([0.3, -1.0, 0.0]), s(0.0));
    assert_eq!(radiance(&scene, down, 0, &casts), [0.0, 0.0, 0.0]);
    assert_eq!(casts.get(), 1);
    let casts = Cell::new(0);
    let up = Ray::new(to_vec([0.0, 5.0, 3.0]), to_vec([0.0, 1.0, 0.0]), s(0.0));
    assert_eq!(radiance(&scene, up, 0, &casts), [0.5, 0.7, 1.0]);
    assert_eq!(casts.get(), 1);
}

fn mean_square_error(a: &[V], b: &[V]) -> f32 {
    let mut sum = 0.0;
    for (x, y) in a.iter().zip(b.iter()) {
        let d = sub(*x, *y);
        sum += dot(d, d);
    }
    sum / a.len() as f32
}

#[test]
fn two_renders_of_one_scene_agree_within_noise() {
    let scene = two_spheres([0.8, 0.6, 0.2]);
    let (first, _) = picture(&scene, 10, 128, 8);
    let (second, _) = picture(&scene, 10, 128, 8);
    assert!(mean_square_error(&first, &second) < 0.01);
}

#[test]
fn more_samples_bring_a_render_nearer_to_the_reference() {
    let scene = two_spheres([0.8, 0.6, 0.2]);
    let (reference, _) = picture(&scene, 10, 512, 8);
    let (coarse, _) = picture(&scene, 10, 2, 8);
    let (fine, _) = picture(&scene, 10, 64, 8);
    assert!(mean_square_error(&fine, &reference) < mean_square_error(&coarse, &reference));
}
