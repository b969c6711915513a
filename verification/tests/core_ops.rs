use raytracer::color::linear_to_gamma;
use raytracer::trig::{cos_fx, sin_fx, tan_fx, PI_BITS};
use raytracer::utils::degrees_to_radians;
use raytracer::fixed::{Fx, SCALE};
use raytracer::progress::{ema_update, eta_remaining_ms};
use raytracer::utils::{random_double, random_double_range, Interval, _random_int_range};
use raytracer::vec3::Vec3;

fn fx(n: i64) -> Fx {
    Fx::from_int(n)
}

#[test]
fn fixed_point_basic_arithmetic() {
    assert_eq!(fx(2).add(fx(3)).bits, 5 * SCALE);
    assert_eq!(fx(2).sub(fx(3)).bits, -SCALE);
    assert_eq!(fx(2).mul(fx(3)).bits, 6 * SCALE);
    assert_eq!(fx(6).div(fx(3)).bits, 2 * SCALE);
    assert_eq!(Fx::from_ratio(1, 2).bits, SCALE / 2);
    assert_eq!(fx(-5).abs().bits, 5 * SCALE);
}

#[test]
fn fixed_point_saturates_instead_of_wrapping() {
    let big = Fx { bits: i64::MAX };
    assert_eq!(big.add(big).bits, i64::MAX);
    assert_eq!(big.neg().add(big.neg()).bits, i64::MIN);
    assert_eq!(big.mul(big).bits, i64::MAX);
}

#[test]
fn fixed_point_division_by_zero_gives_signed_extremes() {
    assert_eq!(fx(3).div(fx(0)).bits, i64::MAX);
    assert_eq!(fx(-3).div(fx(0)).bits, i64::MIN);
}

#[test]
fn fixed_point_square_roots_of_perfect_squares_are_exact() {
    assert_eq!(fx(4).sqrt().bits, 2 * SCALE);
    assert_eq!(fx(9).sqrt().bits, 3 * SCALE);
    assert_eq!(Fx::from_ratio(1, 4).sqrt().bits, SCALE / 2);
    assert_eq!(fx(-1).sqrt().bits, 0);
}

#[test]
fn gamma_transfer_matches_square_root() {
    assert_eq!(linear_to_gamma(Fx::one()).bits, SCALE);
    assert_eq!(linear_to_gamma(Fx::from_ratio(1, 4)).bits, SCALE / 2);
    assert_eq!(linear_to_gamma(fx(-2)).bits, 0);
    assert_eq!(linear_to_gamma(Fx::zero()).bits, 0);
}

#[test]
fn interval_operations() {
    let i = Interval::new(fx(1), fx(5));
    assert_eq!(i.size().bits, 4 * SCALE);
    assert!(i.contains(fx(1)));
    assert!(i.contains(fx(5)));
    assert!(!i.surrounds(fx(5)));
    assert!(i.surrounds(fx(3)));
    assert_eq!(i.clamp(fx(9)).bits, 5 * SCALE);
    assert_eq!(i.clamp(fx(-9)).bits, SCALE);
    assert_eq!(i.clamp(fx(2)).bits, 2 * SCALE);
    let merged = Interval::new_from_interval(&Interval::new(fx(0), fx(2)), &Interval::new(fx(1), fx(7)));
    assert_eq!(merged.min.bits, 0);
    assert_eq!(merged.max.bits, 7 * SCALE);
    let expanded = Interval::new(fx(1), fx(2)).expand(fx(2));
    assert_eq!(expanded.min.bits, 0);
    assert_eq!(expanded.max.bits, 3 * SCALE);
}

#[test]
fn interval_sentinels_are_merge_identities() {
    let empty = Interval::empty();
    let some = Interval::new(fx(-2), fx(4));
    let merged = Interval::new_from_interval(&empty, &some);
    assert_eq!(merged.min.bits, some.min.bits);
    assert_eq!(merged.max.bits, some.max.bits);
    let universe = Interval::universe();
    let merged2 = Interval::new_from_interval(&universe, &some);
    assert_eq!(merged2.min.bits, i64::MIN);
    assert_eq!(merged2.max.bits, i64::MAX);
}

#[test]
fn vector_algebra() {
    let a = Vec3::new(fx(1), fx(2), fx(3));
    let b = Vec3::new(fx(4), fx(5), fx(6));
    assert_eq!(a.add(b), Vec3::new(fx(5), fx(7), fx(9)));
    assert_eq!(b.sub(a), Vec3::new(fx(3), fx(3), fx(3)));
    assert_eq!(a.dot(&b).bits, 32 * SCALE);
    assert_eq!(a.cross(&b), Vec3::new(fx(-3), fx(6), fx(-3)));
    assert_eq!(a.length_squared().bits, 14 * SCALE);
    assert_eq!(Vec3::new(fx(3), fx(4), fx(0)).length().bits, 5 * SCALE);
    assert_eq!(a.neg(), Vec3::new(fx(-1), fx(-2), fx(-3)));
    assert_eq!(a.scale(fx(2)), Vec3::new(fx(2), fx(4), fx(6)));
}

#[test]
fn vector_reflection() {
    let v = Vec3::new(fx(1), fx(-1), fx(0));
    let n = Vec3::new(fx(0), fx(1), fx(0));
    assert_eq!(Vec3::reflect(v, n), Vec3::new(fx(1), fx(1), fx(0)));
}

#[test]
fn unit_vector_of_axis_vector_is_exact() {
    let v = Vec3::new(fx(7), fx(0), fx(0));
    assert_eq!(Vec3::unit_vector(v), Vec3::new(Fx::one(), Fx::zero(), Fx::zero()));
    assert_eq!(v.normalized(), Vec3::new(Fx::one(), Fx::zero(), Fx::zero()));
}

#[test]
fn near_zero_detects_only_the_zero_vector() {
    assert!(Vec3::new(Fx::zero(), Fx::zero(), Fx::zero()).near_zero());
    assert!(!Vec3::new(Fx { bits: 1 }, Fx::zero(), Fx::zero()).near_zero());
}

#[test]
fn random_draws_stay_in_their_ranges() {
    for _round in 0i32..200 {
        let r = random_double();
        assert!(0 <= r.bits && r.bits < SCALE);
        let s = random_double_range(fx(2), fx(5));
        assert!(fx(2).bits <= s.bits && s.bits <= fx(5).bits);
        let n = _random_int_range(-3, 7);
        assert!(-3 <= n && n <= 7);
        let p = Vec3::random_in_unit_sphere();
        assert!(p.length_squared().bits < SCALE);
        let q = Vec3::random_in_unit_disk();
        assert!(q.length_squared().bits < SCALE);
        assert_eq!(q.z.bits, 0);
    }
}

#[test]
fn progress_moving_average_and_estimate() {
    assert_eq!(ema_update(None, 100), 100);
    assert_eq!(ema_update(Some(100), 200), 110);
    assert_eq!(ema_update(Some(200), 100), 190);
    assert_eq!(eta_remaining_ms(100, 10, 2, 300), 200);
    assert_eq!(eta_remaining_ms(100, 10, 2, 900), 0);
    assert_eq!(eta_remaining_ms(0, 10, 4, 0), 0);
}

#[test]
fn trig_values_are_close() {
    assert_eq!(sin_fx(Fx::zero()).bits, 0);
    let s1 = sin_fx(Fx { bits: PI_BITS / 2 }).bits;
    assert!((s1 - SCALE).abs() < 400, "sin(pi/2) = {}", s1);
    let c0 = cos_fx(Fx::zero()).bits;
    assert!((c0 - SCALE).abs() < 400, "cos(0) = {}", c0);
    let t = tan_fx(Fx { bits: PI_BITS / 4 }).bits;
    assert!((t - SCALE).abs() < 800, "tan(pi/4) = {}", t);
    let s_neg = sin_fx(Fx { bits: -PI_BITS / 2 }).bits;
    assert!((s_neg + SCALE).abs() < 400, "sin(-pi/2) = {}", s_neg);
}

#[test]
fn degrees_to_radians_scales_by_pi_over_180() {
    let half_turn = degrees_to_radians(Fx::from_int(180));
    assert!((half_turn.bits - PI_BITS).abs() <= 1);
    assert_eq!(degrees_to_radians(Fx::zero()).bits, 0);
}
