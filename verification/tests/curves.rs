use particle_life::SCALE;
use particle_life::curve::ActivationProps;
use particle_life::curve::Curve;
use particle_life::curve::CurveProps;
use particle_life::fixed::fp_add;
use particle_life::fixed::fp_div;
use particle_life::fixed::fp_mul;
use particle_life::fixed::fp_sub;
use particle_life::trig::HALF_TURN;
use particle_life::trig::QUARTER_TURN;
use particle_life::trig::TURN;
use particle_life::trig::cos_fp;
use particle_life::trig::sin_fp;

#[test]
fn fixed_point_products_are_exact() {
    assert_eq!(fp_mul(2 * SCALE, 3 * SCALE), 6 * SCALE);
    assert_eq!(fp_mul(-2 * SCALE, 3 * SCALE), -6 * SCALE);
    assert_eq!(fp_div(1, 3), 200_000);
    assert_eq!(fp_div(SCALE, 2 * SCALE), SCALE / 2);
}

#[test]
fn fixed_point_truncates_toward_zero() {
    assert_eq!(fp_mul(-1, 1), 0);
    assert_eq!(fp_mul(1, -1), 0);
    assert_eq!(fp_mul(SCALE + 1, 1), 1);
}

#[test]
fn fixed_point_saturates_at_the_word_bounds() {
    assert_eq!(fp_add(i64::MAX, 1), i64::MAX);
    assert_eq!(fp_add(i64::MIN, -1), i64::MIN);
    assert_eq!(fp_sub(i64::MIN, 1), i64::MIN);
    assert_eq!(fp_mul(i64::MAX, i64::MAX), i64::MAX);
}

#[test]
fn sine_hits_its_cardinal_points() {
    assert_eq!(sin_fp(0), 0);
    assert_eq!(sin_fp(QUARTER_TURN), SCALE);
    assert_eq!(sin_fp(HALF_TURN), 0);
    assert_eq!(sin_fp(HALF_TURN + QUARTER_TURN), -SCALE);
    assert_eq!(sin_fp(TURN), 0);
    assert_eq!(sin_fp(-QUARTER_TURN), -SCALE);
    assert_eq!(cos_fp(0), SCALE);
    assert_eq!(cos_fp(QUARTER_TURN), 0);
}

#[test]
fn trig_samples_stay_bounded_by_y_mul() {
    let c = Curve::Sin(CurveProps { x_mul: 2 * SCALE, y_mul: 3 * SCALE, x_offset: 123_456 });
    let d = Curve::Cos(CurveProps { x_mul: -2 * SCALE, y_mul: -3 * SCALE, x_offset: 654_321 });
    let mut t: i64 = -2 * SCALE;
    while t <= 2 * SCALE {
        assert!(c.sample(t).abs() <= 3 * SCALE);
        assert!(d.sample(t).abs() <= 3 * SCALE);
        t += 61_783;
    }
}

#[test]
fn sine_curve_peaks_at_a_quarter_turn() {
    let c = Curve::Sin(CurveProps { x_mul: SCALE, y_mul: SCALE, x_offset: 0 });
    assert_eq!(c.sample(SCALE / 4), SCALE);
    assert_eq!(c.sample(0), 0);
}

#[test]
fn activation_is_flat_before_its_start() {
    let c = Curve::Activation(ActivationProps { start: SCALE / 2, slope: 2 * SCALE, end: 0 });
    assert_eq!(c.sample(0), 0);
    assert_eq!(c.sample(SCALE / 4), 0);
    assert_eq!(c.sample(SCALE / 2), 0);
    assert_eq!(c.sample(-3 * SCALE), 0);
}

#[test]
fn activation_ramps_linearly_past_its_start() {
    let c = Curve::Activation(ActivationProps { start: SCALE / 2, slope: 2 * SCALE, end: 0 });
    // one whole unit past the start the ramp is exactly the slope
    assert_eq!(c.sample(SCALE / 2 + SCALE), 2 * SCALE);
    // two units past the start, twice the slope
    assert_eq!(c.sample(SCALE / 2 + 2 * SCALE), 4 * SCALE);
    // half a unit past the start, half the slope
    assert_eq!(c.sample(SCALE), SCALE);
}

#[test]
fn scale_multiplies_every_field() {
    let c = Curve::Sin(CurveProps { x_mul: 2 * SCALE, y_mul: -4 * SCALE, x_offset: SCALE });
    match c.scale(SCALE / 2) {
        Curve::Sin(p) => {
            assert_eq!(p.x_mul, SCALE);
            assert_eq!(p.y_mul, -2 * SCALE);
            assert_eq!(p.x_offset, SCALE / 2);
        }
        _ => panic!("scaling keeps the variant"),
    }
    let a = Curve::Activation(ActivationProps { start: SCALE, slope: 6 * SCALE, end: 2 * SCALE });
    match a.scale(SCALE / 3) {
        Curve::Activation(p) => {
            assert_eq!(p.start, SCALE / 3);
            assert_eq!(p.slope, 2 * SCALE);
            assert_eq!(p.end, 2 * SCALE / 3);
        }
        _ => panic!("scaling keeps the variant"),
    }
}
