use particle_life::SCALE;
use particle_life::config::MAX_INTERACTION_DIST;
use particle_life::config::TIME_STEP;
use particle_life::curve::ActivationProps;
use particle_life::curve::Curve;
use particle_life::curve::CurveProps;
use particle_life::engine::Particle;
use particle_life::engine::SpatialIndex;
use particle_life::engine::apply_velocity;
use particle_life::engine::spawn_particles;
use particle_life::engine::step;
use particle_life::engine::update_velocity;
use particle_life::family::FamilyProperties;
use particle_life::params::Color;
use particle_life::params::SimulationParameters;

fn grey() -> Color {
    Color { red: SCALE / 2, green: SCALE / 2, blue: SCALE / 2 }
}

/// Two families whose every curve is the same activation ramp.
fn ramp_params(count: usize, start: i64, slope: i64) -> SimulationParameters {
    let mut colors = Vec::new();
    let mut families = Vec::new();
    for i in 0..count {
        colors.push(grey());
        let mut ancestry = vec![0; count];
        ancestry[i] = SCALE;
        let mut curves = Vec::new();
        for _ in 0..count {
            curves.push(vec![Curve::Activation(ActivationProps {
                start,
                slope,
                end: MAX_INTERACTION_DIST,
            })]);
        }
        families.push(FamilyProperties { ancestry, curves });
    }
    SimulationParameters { colors, families }
}

fn particle(family: usize, x: i64, y: i64, vx: i64, vy: i64) -> Particle {
    Particle { family, x, y, vx, vy }
}

#[test]
fn radius_query_includes_the_boundary() {
    let particles = vec![
        particle(0, 0, 0, 0, 0),
        particle(0, 3, 4, 0, 0),
        particle(0, 6, 0, 0, 0),
    ];
    let index = SpatialIndex::rebuild(&particles);
    assert_eq!(index.query_radius(0, 0, 5), vec![0, 1]);
    assert_eq!(index.query_radius(0, 0, 4), vec![0]);
    assert_eq!(index.query_radius(0, 0, 6), vec![0, 1, 2]);
    assert_eq!(index.query_radius(100, 100, 4), Vec::<usize>::new());
}

#[test]
fn coincident_particles_exert_no_pull() {
    let params = ramp_params(1, 0, SCALE);
    let mut particles = vec![
        particle(0, 5, 5, 7, -3),
        particle(0, 5, 5, 2, 4),
    ];
    update_velocity(&mut particles, &params, MAX_INTERACTION_DIST);
    assert_eq!((particles[0].vx, particles[0].vy), (7, -3));
    assert_eq!((particles[1].vx, particles[1].vy), (2, 4));
}

#[test]
fn boundary_neighbor_with_unit_sine_gives_zero_force() {
    // at distance exactly the radius the normalized distance is one unit,
    // the sine curve samples a full turn, and the force is exactly zero
    let sine = Curve::Sin(CurveProps { x_mul: SCALE, y_mul: SCALE, x_offset: 0 });
    assert_eq!(sine.sample(SCALE), 0);
    let params = SimulationParameters {
        colors: vec![grey()],
        families: vec![FamilyProperties { ancestry: vec![SCALE], curves: vec![vec![sine]] }],
    };
    let mut particles = vec![
        particle(0, 0, 0, 0, 0),
        particle(0, MAX_INTERACTION_DIST, 0, 0, 0),
    ];
    update_velocity(&mut particles, &params, MAX_INTERACTION_DIST);
    assert_eq!((particles[0].vx, particles[0].vy), (0, 0));
    assert_eq!((particles[1].vx, particles[1].vy), (0, 0));
}

#[test]
fn two_ramp_particles_attract_each_other_exactly() {
    // one particle of each family, ten units apart, radius one hundred:
    // the normalized distance is 0.1, the ramp gives 0.1, and each gains
    // a tenth of a unit of velocity toward the other
    let params = ramp_params(2, 0, SCALE);
    let mut particles = vec![
        particle(0, 0, 0, 0, 0),
        particle(1, 10 * SCALE, 0, 0, 0),
    ];
    update_velocity(&mut particles, &params, MAX_INTERACTION_DIST);
    assert_eq!((particles[0].vx, particles[0].vy), (SCALE / 10, 0));
    assert_eq!((particles[1].vx, particles[1].vy), (-SCALE / 10, 0));
}

#[test]
fn integrator_shifts_by_a_sixtieth_of_the_velocity() {
    let mut particles = vec![
        particle(0, 0, 0, SCALE / 10, 0),
        particle(1, 10 * SCALE, 0, -SCALE / 10, 0),
    ];
    apply_velocity(&mut particles, TIME_STEP);
    assert_eq!(particles[0].x, SCALE / 10 / 60);
    assert_eq!(particles[0].x, 1000);
    assert_eq!(particles[1].x, 10 * SCALE - 1000);
    assert_eq!(particles[0].y, 0);
    // velocities are untouched by the integrator
    assert_eq!(particles[0].vx, SCALE / 10);
    assert_eq!(particles[1].vx, -SCALE / 10);
}

#[test]
fn integrator_truncates_toward_zero() {
    let mut particles = vec![particle(0, 0, 0, 59, -59)];
    apply_velocity(&mut particles, TIME_STEP);
    assert_eq!(particles[0].x, 0);
    assert_eq!(particles[0].y, 0);
}

#[test]
fn zero_radius_never_changes_velocity() {
    let params = ramp_params(2, 0, SCALE);
    let mut particles = vec![
        particle(0, 0, 0, 60, -120),
        particle(1, 5, 5, -180, 240),
        particle(0, -5, 3, 300, 360),
    ];
    for _ in 0..50 {
        step(&mut particles, &params, 0, TIME_STEP);
    }
    assert_eq!((particles[0].vx, particles[0].vy), (60, -120));
    assert_eq!((particles[1].vx, particles[1].vy), (-180, 240));
    assert_eq!((particles[2].vx, particles[2].vy), (300, 360));
    // positions have drifted by one sixtieth of the velocity per step
    assert_eq!(particles[0].x, 50 * (60 / 60));
}

#[test]
fn isolated_particle_keeps_its_velocity() {
    let params = ramp_params(1, 0, SCALE);
    let mut particles = vec![particle(0, 0, 0, 100, 200)];
    for _ in 0..50 {
        step(&mut particles, &params, MAX_INTERACTION_DIST, TIME_STEP);
    }
    assert_eq!((particles[0].vx, particles[0].vy), (100, 200));
}

#[test]
fn one_step_lag_between_force_and_displacement() {
    // the first step computes forces but the displacement appears only in
    // the following step's integration
    let params = ramp_params(2, 0, SCALE);
    let mut particles = vec![
        particle(0, 0, 0, 0, 0),
        particle(1, 10 * SCALE, 0, 0, 0),
    ];
    step(&mut particles, &params, MAX_INTERACTION_DIST, TIME_STEP);
    assert_eq!(particles[0].x, 0);
    assert_eq!(particles[0].vx, SCALE / 10);
    step(&mut particles, &params, MAX_INTERACTION_DIST, TIME_STEP);
    assert_eq!(particles[0].x, 1000);
}

#[test]
fn spawn_lays_out_families_in_blocks() {
    let particles = spawn_particles(3, 4);
    assert_eq!(particles.len(), 12);
    for (k, p) in particles.iter().enumerate() {
        assert_eq!(p.family, k / 4);
        assert_eq!(p.vx, 0);
        assert_eq!(p.vy, 0);
        assert!(p.x.abs() < particle_life::config::POS_GEN_RANGE);
        assert!(p.y.abs() < particle_life::config::POS_GEN_RANGE);
    }
}
