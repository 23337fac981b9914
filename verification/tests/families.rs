use particle_life::SCALE;
use particle_life::config::MAX_INTERACTION_DIST;
use particle_life::curve::ActivationProps;
use particle_life::curve::Curve;
use particle_life::family::FamilyProperties;
use particle_life::params::SimulationParameters;
use particle_life::rng::rand_range;

fn ramp(start: i64, slope: i64) -> Curve {
    Curve::Activation(ActivationProps { start, slope, end: MAX_INTERACTION_DIST })
}

#[test]
fn attraction_is_zero_against_empty_ancestry() {
    let a = FamilyProperties {
        ancestry: vec![SCALE, 0],
        curves: vec![vec![ramp(0, SCALE)], vec![ramp(0, SCALE)]],
    };
    let hollow = FamilyProperties {
        ancestry: vec![0, 0],
        curves: vec![vec![ramp(0, SCALE)], vec![ramp(0, SCALE)]],
    };
    let mut t: i64 = 0;
    while t <= SCALE {
        assert_eq!(a.attraction(&hollow, t), 0);
        t += 100_000;
    }
}

#[test]
fn attraction_weights_each_family_by_ancestry() {
    // curves against family 0 ramp with slope 1, against family 1 with slope 3
    let a = FamilyProperties {
        ancestry: vec![SCALE, 0],
        curves: vec![vec![ramp(0, SCALE)], vec![ramp(0, 3 * SCALE)]],
    };
    let half = FamilyProperties {
        ancestry: vec![SCALE / 2, SCALE / 2],
        curves: vec![vec![ramp(0, SCALE)], vec![ramp(0, SCALE)]],
    };
    // at t = 0.5: samples are 0.5 and 1.5, each weighted by 0.5
    assert_eq!(a.attraction(&half, SCALE / 2), SCALE / 4 + 3 * SCALE / 4);
    // a one-hot other family picks out a single curve list
    let one_hot = FamilyProperties {
        ancestry: vec![0, SCALE],
        curves: vec![vec![ramp(0, SCALE)], vec![ramp(0, SCALE)]],
    };
    assert_eq!(a.attraction(&one_hot, SCALE / 2), 3 * SCALE / 2);
}

#[test]
fn combine_with_itself_keeps_ancestry() {
    let a = FamilyProperties {
        ancestry: vec![SCALE / 3, 2 * SCALE / 3 + 1],
        curves: vec![vec![ramp(0, SCALE)], vec![ramp(SCALE, -2 * SCALE)]],
    };
    let blended = a.combine(&a, (SCALE / 2, SCALE / 2));
    assert_eq!(blended.ancestry, a.ancestry);
}

#[test]
fn combine_blends_ancestries_and_concatenates_scaled_curves() {
    let a = FamilyProperties {
        ancestry: vec![SCALE, 0],
        curves: vec![vec![ramp(0, 2 * SCALE)], vec![ramp(0, SCALE)]],
    };
    let b = FamilyProperties {
        ancestry: vec![0, SCALE],
        curves: vec![vec![ramp(0, 4 * SCALE)], vec![ramp(0, SCALE)]],
    };
    let c = a.combine(&b, (SCALE / 2, SCALE / 2));
    assert_eq!(c.ancestry, vec![SCALE / 2, SCALE / 2]);
    assert_eq!(c.curves.len(), 2);
    assert_eq!(c.curves[0].len(), 2);
    match (&c.curves[0][0], &c.curves[0][1]) {
        (Curve::Activation(p), Curve::Activation(q)) => {
            assert_eq!(p.slope, SCALE);
            assert_eq!(q.slope, 2 * SCALE);
        }
        _ => panic!("blending keeps the variants"),
    }
}

#[test]
fn random_families_are_one_hot_with_one_curve_each() {
    let params = SimulationParameters::random(4, true);
    assert_eq!(params.families.len(), 4);
    assert_eq!(params.colors.len(), 4);
    for i in 0..4 {
        let fam = &params.families[i];
        assert_eq!(fam.ancestry.len(), 4);
        assert_eq!(fam.curves.len(), 4);
        for j in 0..4 {
            assert_eq!(fam.ancestry[j], if i == j { SCALE } else { 0 });
            assert_eq!(fam.curves[j].len(), 1);
            match &fam.curves[j][0] {
                Curve::Activation(p) => {
                    assert!(0 <= p.start && p.start < 2 * SCALE);
                    assert!(-10 * SCALE <= p.slope && p.slope < 10 * SCALE);
                    assert!(MAX_INTERACTION_DIST / 2 <= p.end && p.end < MAX_INTERACTION_DIST);
                }
                _ => panic!("fast generation draws activation ramps only"),
            }
        }
        let color = &params.colors[i];
        assert!(0 <= color.red && color.red < SCALE);
        assert!(0 <= color.green && color.green < SCALE);
        assert!(0 <= color.blue && color.blue < SCALE);
    }
}

#[test]
fn random_slow_families_draw_waves() {
    let params = SimulationParameters::random(3, false);
    for fam in &params.families {
        for list in &fam.curves {
            match &list[0] {
                Curve::Sin(p) | Curve::Cos(p) => {
                    assert!(-2 * SCALE <= p.x_mul && p.x_mul < 2 * SCALE);
                    assert!(-10 * SCALE <= p.y_mul && p.y_mul < 10 * SCALE);
                    assert!(0 <= p.x_offset);
                }
                _ => panic!("slow generation draws waves only"),
            }
        }
    }
}

#[test]
fn rand_range_stays_in_range() {
    for _ in 0..200 {
        let v = rand_range(-5, 5);
        assert!(-5 <= v && v < 5);
    }
}
