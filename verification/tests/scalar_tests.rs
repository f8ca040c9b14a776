use raytracer::scalar::Scalar;
use raytracer::utils::clamp;

fn s(x: f32) -> Scalar {
    Scalar::from_bits(x.to_bits())
}

fn samples() -> Vec<f32> {
    vec![
        0.0,
        -0.0,
        1.0,
        -1.0,
        0.5,
        -0.5,
        0.999,
        0.001,
        1e-7,
        -1e-7,
        1e-45,
        -1e-45,
        3.5,
        -3.5,
        255.0,
        1000.0,
        -1000.0,
        f32::MAX,
        f32::MIN,
        f32::MIN_POSITIVE,
        f32::INFINITY,
        f32::NEG_INFINITY,
        f32::NAN,
        -f32::NAN,
    ]
}

#[test]
fn bits_round_trip() {
    for x in samples() {
        assert_eq!(s(x).to_bits(), x.to_bits());
    }
}

#[test]
fn is_nan_agrees_with_hardware() {
    for x in samples() {
        assert_eq!(s(x).is_nan(), x.is_nan());
    }
}

#[test]
fn comparisons_agree_with_hardware() {
    for a in samples() {
        for b in samples() {
            assert_eq!(s(a).lt(s(b)), a < b, "{} < {}", a, b);
            assert_eq!(s(a).le(s(b)), a <= b, "{} <= {}", a, b);
            assert_eq!(s(a).gt(s(b)), a > b, "{} > {}", a, b);
            assert_eq!(s(a).ge(s(b)), a >= b, "{} >= {}", a, b);
        }
    }
}

#[test]
fn min_and_max_agree_with_hardware_on_values() {
    for a in samples() {
        for b in samples() {
            let lo = f32::from_bits(s(a).min(s(b)).to_bits());
            let hi = f32::from_bits(s(a).max(s(b)).to_bits());
            if a.is_nan() && b.is_nan() {
                assert!(lo.is_nan() && hi.is_nan());
            } else {
                assert!(lo == a.min(b), "min({}, {}) = {}", a, b, lo);
                assert!(hi == a.max(b), "max({}, {}) = {}", a, b, hi);
            }
        }
    }
}

#[test]
fn min_prefers_negative_zero_and_max_positive_zero() {
    assert_eq!(s(0.0).min(s(-0.0)).to_bits(), (-0.0f32).to_bits());
    assert_eq!(s(-0.0).min(s(0.0)).to_bits(), (-0.0f32).to_bits());
    assert_eq!(s(0.0).max(s(-0.0)).to_bits(), 0.0f32.to_bits());
    assert_eq!(s(-0.0).max(s(0.0)).to_bits(), 0.0f32.to_bits());
}

#[test]
fn min_and_max_skip_nan() {
    assert_eq!(s(f32::NAN).min(s(2.0)).to_bits(), 2.0f32.to_bits());
    assert_eq!(s(2.0).min(s(f32::NAN)).to_bits(), 2.0f32.to_bits());
    assert_eq!(s(f32::NAN).max(s(2.0)).to_bits(), 2.0f32.to_bits());
    assert_eq!(s(2.0).max(s(f32::NAN)).to_bits(), 2.0f32.to_bits());
}

#[test]
fn neg_flips_the_sign() {
    for x in samples() {
        assert_eq!(s(x).neg().to_bits(), (-x).to_bits());
    }
}

#[test]
fn signed_rank_orders_like_the_numbers() {
    for a in samples() {
        for b in samples() {
            if !a.is_nan() && !b.is_nan() {
                assert_eq!(s(a).signed_rank() < s(b).signed_rank(), a < b);
                assert_eq!(s(a).signed_rank() == s(b).signed_rank(), a == b);
            }
        }
    }
}

#[test]
fn clamp_holds_between_the_bounds() {
    assert_eq!(clamp(s(-2.0), s(0.0), s(1.0)).to_bits(), 0.0f32.to_bits());
    assert_eq!(clamp(s(2.0), s(0.0), s(1.0)).to_bits(), 1.0f32.to_bits());
    assert_eq!(clamp(s(0.25), s(0.0), s(1.0)).to_bits(), 0.25f32.to_bits());
    assert_eq!(clamp(s(0.0), s(0.0), s(1.0)).to_bits(), 0.0f32.to_bits());
    assert_eq!(clamp(s(1.0), s(0.0), s(1.0)).to_bits(), 1.0f32.to_bits());
    assert!(f32::from_bits(clamp(s(f32::NAN), s(0.0), s(1.0)).to_bits()).is_nan());
    for x in samples() {
        assert_eq!(s(x).clamp(s(0.0), s(1.0)).to_bits(), clamp(s(x), s(0.0), s(1.0)).to_bits());
    }
}

#[test]
fn zero_is_positive_zero() {
    assert_eq!(Scalar::zero().to_bits(), 0);
}

#[test]
fn next_up_and_next_down_are_the_neighbours() {
    for x in samples() {
        if x.is_nan() {
            assert!(f32::from_bits(s(x).next_up().to_bits()).is_nan());
            assert!(f32::from_bits(s(x).next_down().to_bits()).is_nan());
        } else {
            assert_eq!(s(x).next_up().to_bits(), x.next_up().to_bits(), "{}", x);
            assert_eq!(s(x).next_down().to_bits(), x.next_down().to_bits(), "{}", x);
        }
    }
    assert_eq!(s(0.0).next_up().to_bits(), 1);
    assert_eq!(s(-0.0).next_up().to_bits(), 1);
    assert_eq!(s(0.0).next_down().to_bits(), 0x8000_0001);
    assert_eq!(s(f32::MAX).next_up().to_bits(), f32::INFINITY.to_bits());
    assert_eq!(s(f32::INFINITY).next_up().to_bits(), f32::INFINITY.to_bits());
    assert_eq!(s(f32::INFINITY).next_down().to_bits(), f32::MAX.to_bits());
    assert_eq!(s(f32::NEG_INFINITY).next_down().to_bits(), f32::NEG_INFINITY.to_bits());
    assert_eq!(s(1.0).next_up().to_bits(), 0x3f80_0001);
    assert_eq!(s(-1.0).next_up().to_bits(), 0xbf7f_ffff);
}
