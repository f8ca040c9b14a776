use std::cell::Cell;

use raytracer::color::Color;
use raytracer::integrator::ray_color;
use raytracer::materials::HitRecord;
use raytracer::scalar::Scalar;
use raytracer::structures::ray::Ray;
use raytracer::structures::vec3::Vec3;

fn s(x: f32) -> Scalar {
    Scalar::from_bits(x.to_bits())
}

fn f(x: Scalar) -> f32 {
    f32::from_bits(x.to_bits())
}

fn grey(x: f32) -> Color {
    Color::new(s(x), s(x), s(x))
}

fn ray(z: f32) -> Ray {
    Ray::new(Vec3::new(s(0.0), s(0.0), s(0.0)), Vec3::new(s(0.0), s(0.0), s(z)), s(0.0))
}

fn surface(material: usize) -> HitRecord {
    let n = Vec3::new(s(0.0), s(0.0), s(1.0));
    HitRecord::new(Vec3::zero(), s(1.0), s(-1.0), &n, s(0.0), s(0.0), material)
}

#[test]
fn rays_are_cast_in_the_window_from_just_off_the_surface_to_infinity() {
    let window = Cell::new((0.0f32, 0.0f32));
    let _ = ray_color(
        &ray(-1.0),
        |_, lo, hi| {
            window.set((f(lo), f(hi)));
            None
        },
        |_| grey(0.0),
        |_, _| None,
        3,
        |_| grey(0.0),
    );
    assert_eq!(window.get(), (0.001, f32::INFINITY));
}

#[test]
fn a_miss_ends_the_path_with_the_background() {
    let (bounces, last) = ray_color(&ray(-1.0), |_, _, _| None, |_| grey(9.0), |_, _| None, 5, |_| grey(0.7));
    assert!(bounces.is_empty());
    assert_eq!(f(last.r), 0.7);
    let by_heading = |r: Ray| grey(f(r.direction.z) * 2.0);
    let (bounces, last) = ray_color(&ray(0.25), |_, _, _| None, |_| grey(9.0), |_, _| None, 5, by_heading);
    assert!(bounces.is_empty());
    assert_eq!(f(last.r), 0.5);
}

#[test]
fn with_no_budget_a_hit_gives_the_emitted_light_alone() {
    let casts = Cell::new(0);
    let asked = Cell::new(0);
    let world = |_: Ray, _: Scalar, _: Scalar| {
        casts.set(casts.get() + 1);
        Some(surface(0))
    };
    let scatter = |_: Ray, _: HitRecord| {
        asked.set(asked.get() + 1);
        Some((grey(0.5), ray(1.0)))
    };
    let (bounces, last) = ray_color(&ray(-1.0), world, |_| grey(0.0), scatter, 0, |_| grey(0.7));
    assert!(bounces.is_empty());
    assert_eq!((f(last.r), f(last.g), f(last.b)), (0.0, 0.0, 0.0));
    assert_eq!(casts.get(), 1);
    assert_eq!(asked.get(), 0);
    let (bounces, last) = ray_color(&ray(-1.0), world, |_| grey(4.0), scatter, 0, |_| grey(0.7));
    assert!(bounces.is_empty());
    assert_eq!(f(last.g), 4.0);
    assert_eq!(asked.get(), 0);
}

#[test]
fn an_absorbed_ray_ends_the_path_with_the_emitted_light() {
    let (bounces, last) =
        ray_color(&ray(-1.0), |_, _, _| Some(surface(0)), |_| grey(2.0), |_, _| None, 3, |_| grey(0.7));
    assert!(bounces.is_empty());
    assert_eq!(f(last.r), 2.0);
}

#[test]
fn each_scatter_records_a_bounce_and_casts_the_scattered_ray() {
    let directions = Cell::new(Vec::new());
    let world = |r: Ray, _: Scalar, _: Scalar| {
        let mut seen = directions.take();
        seen.push(f(r.direction.z));
        let n = seen.len();
        directions.set(seen);
        if n <= 2 {
            Some(surface(n))
        } else {
            None
        }
    };
    let emitted = |h: HitRecord| grey(h.material as f32);
    let scatter = |r: Ray, h: HitRecord| Some((grey(0.5 / h.material as f32), ray(f(r.direction.z) * 2.0)));
    let background = |r: Ray| grey(f(r.direction.z) * -0.75);
    let (bounces, last) = ray_color(&ray(-1.0), world, emitted, scatter, 5, background);
    assert_eq!(directions.take(), vec![-1.0, -2.0, -4.0]);
    assert_eq!(bounces.len(), 2);
    assert_eq!((f(bounces[0].emitted.r), f(bounces[0].attenuation.r)), (1.0, 0.5));
    assert_eq!((f(bounces[1].emitted.r), f(bounces[1].attenuation.r)), (2.0, 0.25));
    assert_eq!(f(last.r), 3.0);
    let mut radiance = f(last.r);
    for b in bounces.iter().rev() {
        radiance = f(b.emitted.r) + f(b.attenuation.r) * radiance;
    }
    assert_eq!(radiance, 1.0 + 0.5 * (2.0 + 0.25 * 3.0));
}

#[test]
fn a_path_never_bounces_more_often_than_its_budget() {
    for budget in 0..6u32 {
        let casts = Cell::new(0);
        let world = |_: Ray, _: Scalar, _: Scalar| {
            casts.set(casts.get() + 1);
            Some(surface(0))
        };
        let (bounces, last) =
            ray_color(&ray(-1.0), world, |_| grey(0.25), |_, _| Some((grey(0.5), ray(1.0))), budget, |_| grey(0.7));
        assert_eq!(casts.get(), budget + 1);
        assert_eq!(bounces.len(), budget as usize);
        assert_eq!(f(last.r), 0.25);
    }
}
