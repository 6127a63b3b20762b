use particle_life::fixed::ONE;
use particle_life::force::{
    axis_displacement, force_magnitude, pair_interaction, DIAMETER, NEAR, RADIUS, REACH, R_SMOOTH,
};

const ATTRACT: i64 = 20_000;
const MIN_R: i64 = 10 * ONE;
const MAX_R: i64 = 30 * ONE;

#[test]
fn constants_of_the_force_law() {
    assert_eq!(RADIUS, 5 * ONE);
    assert_eq!(DIAMETER, 2 * RADIUS);
    assert_eq!(R_SMOOTH, 2 * ONE);
    // a tenth of a unit, squared
    assert_eq!(NEAR, (ONE as i128 / 10) * (ONE as i128 / 10));
    assert_eq!(REACH, 3_000_000 * ONE);
}

#[test]
fn displacement_between_walls_is_the_difference() {
    assert_eq!(axis_displacement(100 * ONE, 700 * ONE, 800 * ONE, false), 600 * ONE);
    assert_eq!(axis_displacement(700 * ONE, 100 * ONE, 800 * ONE, false), -600 * ONE);
    assert_eq!(axis_displacement(5, 5, 800 * ONE, false), 0);
}

#[test]
fn displacement_on_a_torus_takes_the_shorter_way() {
    assert_eq!(axis_displacement(100 * ONE, 700 * ONE, 800 * ONE, true), -200 * ONE);
    assert_eq!(axis_displacement(700 * ONE, 100 * ONE, 800 * ONE, true), 200 * ONE);
    assert_eq!(axis_displacement(100 * ONE, 300 * ONE, 800 * ONE, true), 200 * ONE);
}

#[test]
fn displacement_of_exactly_half_the_torus_is_kept() {
    assert_eq!(axis_displacement(0, 400 * ONE, 800 * ONE, true), 400 * ONE);
    assert_eq!(axis_displacement(400 * ONE, 0, 800 * ONE, true), -400 * ONE);
    assert_eq!(axis_displacement(0, 400 * ONE + 1, 800 * ONE, true), -400 * ONE + 1);
}

#[test]
fn tent_vanishes_at_both_radii() {
    assert_eq!(force_magnitude(ATTRACT, MIN_R, MAX_R, MIN_R, false), 0);
    assert_eq!(force_magnitude(ATTRACT, MIN_R, MAX_R, MAX_R, false), 0);
    assert_eq!(force_magnitude(-ATTRACT, MIN_R, MAX_R, MAX_R, false), 0);
}

#[test]
fn tent_is_the_attraction_halfway() {
    assert_eq!(force_magnitude(ATTRACT, MIN_R, MAX_R, 20 * ONE, false), ATTRACT);
    assert_eq!(force_magnitude(-ATTRACT, MIN_R, MAX_R, 20 * ONE, false), -ATTRACT);
    // a third of the way down from the top, two thirds of the attraction
    assert_eq!(force_magnitude(123_457, 11, 14, 12, false), 82_304);
    assert_eq!(force_magnitude(123_457, 10, 14, 12, false), 123_457);
}

#[test]
fn tent_is_half_the_attraction_at_the_quarters() {
    assert_eq!(force_magnitude(ATTRACT, MIN_R, MAX_R, 15 * ONE, false), 10_000);
    assert_eq!(force_magnitude(ATTRACT, MIN_R, MAX_R, 25 * ONE, false), 10_000);
}

#[test]
fn flat_force_is_the_attraction_wherever_beyond_the_inner_radius() {
    assert_eq!(force_magnitude(ATTRACT, MIN_R, MAX_R, MIN_R + 1, true), ATTRACT);
    assert_eq!(force_magnitude(ATTRACT, MIN_R, MAX_R, 15 * ONE, true), ATTRACT);
    assert_eq!(force_magnitude(ATTRACT, MIN_R, MAX_R, MAX_R, true), ATTRACT);
    assert_eq!(force_magnitude(-ATTRACT, MIN_R, MAX_R, 29 * ONE, true), -ATTRACT);
}

#[test]
fn repulsion_within_the_inner_radius() {
    // 2 * 10 * (1/12 - 1/7) = -1.190476...
    assert_eq!(force_magnitude(ATTRACT, MIN_R, MAX_R, 5 * ONE, false), -1_190_480);
    // 2 * 10 * (1/12 - 1/2) = -8.33...
    assert_eq!(force_magnitude(ATTRACT, MIN_R, MAX_R, 0, false), -8_333_340);
    assert_eq!(force_magnitude(ATTRACT, MIN_R, MAX_R, MIN_R, false), 0);
}

#[test]
fn repulsion_does_not_depend_on_attraction_or_flatness() {
    for attract in [-ATTRACT, 0, ATTRACT, 900_000] {
        assert_eq!(force_magnitude(attract, MIN_R, MAX_R, 5 * ONE, true), -1_190_480);
        assert_eq!(force_magnitude(attract, MIN_R, MAX_R, 5 * ONE, false), -1_190_480);
    }
}

#[test]
fn interaction_pushes_apart_within_the_inner_radius() {
    // distance 5 along (0.6, 0.8)
    assert_eq!(
        pair_interaction(3 * ONE, 4 * ONE, ATTRACT, MIN_R, MAX_R, false),
        (-714_288, -952_384)
    );
}

#[test]
fn interaction_pulls_along_the_line_between_the_particles() {
    // distance 20, where the tent is at its top
    assert_eq!(
        pair_interaction(12 * ONE, 16 * ONE, ATTRACT, MIN_R, MAX_R, false),
        (12_000, 16_000)
    );
    assert_eq!(
        pair_interaction(-12 * ONE, 16 * ONE, ATTRACT, MIN_R, MAX_R, false),
        (-12_000, 16_000)
    );
    assert_eq!(pair_interaction(29 * ONE, 0, ATTRACT, MIN_R, MAX_R, false), (2_000, 0));
}

#[test]
fn interaction_ends_at_the_outer_radius() {
    assert_eq!(pair_interaction(MAX_R + 1, 0, ATTRACT, MIN_R, MAX_R, true), (0, 0));
    assert_eq!(pair_interaction(0, -MAX_R - 1, ATTRACT, MIN_R, MAX_R, true), (0, 0));
    assert_eq!(pair_interaction(MAX_R, 0, ATTRACT, MIN_R, MAX_R, true), (ATTRACT, 0));
    assert_eq!(pair_interaction(REACH, REACH, ATTRACT, MIN_R, MAX_R, true), (0, 0));
}

#[test]
fn two_particles_nearer_than_a_tenth_ignore_each_other() {
    assert_eq!(pair_interaction(90_000, 0, ATTRACT, MIN_R, MAX_R, false), (0, 0));
    assert_eq!(pair_interaction(99_999, 0, ATTRACT, MIN_R, MAX_R, false), (0, 0));
    assert_eq!(pair_interaction(0, 0, ATTRACT, MIN_R, MAX_R, false), (0, 0));
    assert_eq!(pair_interaction(-70_000, 70_000, ATTRACT, MIN_R, MAX_R, true), (0, 0));
}

#[test]
fn two_particles_a_tenth_apart_repel_each_other() {
    assert_eq!(pair_interaction(100_000, 0, ATTRACT, MIN_R, MAX_R, false), (-7_857_140, 0));
    assert_eq!(pair_interaction(-100_000, 0, ATTRACT, MIN_R, MAX_R, false), (7_857_140, 0));
}

#[test]
fn interaction_is_mirrored_with_the_displacement() {
    for (dx, dy) in [(3 * ONE, 4 * ONE), (17 * ONE, -5 * ONE), (123_456, 29 * ONE)] {
        let (fx, fy) = pair_interaction(dx, dy, ATTRACT, MIN_R, MAX_R, false);
        assert_eq!(pair_interaction(-dx, -dy, ATTRACT, MIN_R, MAX_R, false), (-fx, -fy));
    }
}
