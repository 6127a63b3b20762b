use particle_life::fixed::{LIMIT, ONE};
use particle_life::force::DIAMETER;
use particle_life::hsv::Color;
use particle_life::particle::Particle;
use particle_life::particle_types::ParticleTypes;
use particle_life::seeding::{
    color_of_type, place, regenerate, scatter, ParticleVariate, FIFTH, HALF, QUARTER,
};

fn matrix(types: &ParticleTypes, which: usize) -> Vec<i64> {
    let mut cells = Vec::new();
    for i in 0..types.size() {
        for j in 0..types.size() {
            cells.push(match which {
                0 => *types.get_attract(i, j).unwrap(),
                1 => *types.get_min_r(i, j).unwrap(),
                _ => *types.get_max_r(i, j).unwrap(),
            });
        }
    }
    cells
}

fn three_types() -> ParticleTypes {
    let attract = vec![30_000, -20_000, 50_000, 10_000, -40_000, 60_000, -70_000, 80_000, 90_000];
    let min_r: Vec<i64> = [1, 12, 5, 15, 2, 25, 8, 20, 3].iter().map(|r| r * ONE).collect();
    let max_r: Vec<i64> = [40, 50, 9, 14, 5, 70, 60, 22, 11].iter().map(|r| r * ONE).collect();
    let mut types = ParticleTypes::new(3);
    regenerate(&mut types, &attract, &min_r, &max_r);
    types
}

#[test]
fn fractions() {
    assert_eq!(2 * HALF, ONE);
    assert_eq!(4 * QUARTER, ONE);
    assert_eq!(5 * FIFTH, ONE);
}

#[test]
fn attraction_is_what_was_drawn_but_never_towards_the_own_kind() {
    let types = three_types();
    assert_eq!(
        matrix(&types, 0),
        vec![-30_000, -20_000, 50_000, 10_000, -40_000, 60_000, -70_000, 80_000, -90_000]
    );
}

#[test]
fn attraction_is_not_symmetric() {
    let types = three_types();
    assert_eq!(types.get_attract(0, 1), Some(&-20_000));
    assert_eq!(types.get_attract(1, 0), Some(&10_000));
}

#[test]
fn the_cell_below_the_diagonal_decides_the_inner_radius() {
    let types = three_types();
    let units: Vec<i64> = matrix(&types, 1).iter().map(|r| r / ONE).collect();
    assert_eq!(units, vec![10, 15, 10, 15, 10, 20, 10, 20, 10]);
}

#[test]
fn the_cell_below_the_diagonal_decides_the_outer_radius() {
    let types = three_types();
    let units: Vec<i64> = matrix(&types, 2).iter().map(|r| r / ONE).collect();
    assert_eq!(units, vec![40, 15, 60, 15, 10, 22, 60, 22, 11]);
}

#[test]
fn seeded_radii_are_symmetric_and_ordered() {
    let types = three_types();
    for i in 0..3 {
        for j in 0..3 {
            assert_eq!(types.get_min_r(i, j), types.get_min_r(j, i));
            assert_eq!(types.get_max_r(i, j), types.get_max_r(j, i));
            assert!(types.get_min_r(i, j).unwrap() <= types.get_max_r(i, j).unwrap());
            assert!(*types.get_min_r(i, j).unwrap() >= DIAMETER);
        }
    }
}

#[test]
fn seeded_types_repel_their_own_kind_from_a_diameter() {
    let types = three_types();
    for i in 0..3 {
        assert_eq!(types.get_min_r(i, i), Some(&DIAMETER));
        assert!(*types.get_attract(i, i).unwrap() <= 0);
    }
}

#[test]
fn a_single_type() {
    let mut types = ParticleTypes::new(1);
    regenerate(&mut types, &vec![50_000], &vec![99 * ONE], &vec![3 * ONE]);
    assert_eq!(types.get_attract(0, 0), Some(&-50_000));
    assert_eq!(types.get_min_r(0, 0), Some(&DIAMETER));
    assert_eq!(types.get_max_r(0, 0), Some(&DIAMETER));
    regenerate(&mut types, &vec![-50_000], &vec![0], &vec![33 * ONE]);
    assert_eq!(types.get_attract(0, 0), Some(&-50_000));
    assert_eq!(types.get_max_r(0, 0), Some(&(33 * ONE)));
}

#[test]
fn no_types_at_all() {
    let mut types = ParticleTypes::new(0);
    regenerate(&mut types, &vec![], &vec![], &vec![]);
    assert_eq!(types.size(), 0);
}

#[test]
fn variates_beyond_the_range_are_cut_down() {
    let mut types = ParticleTypes::new(2);
    regenerate(
        &mut types,
        &vec![LIMIT + 5, -LIMIT - 5, 7, i64::MIN],
        &vec![i64::MAX, 0, i64::MIN, 0],
        &vec![i64::MAX, 0, 5, i64::MIN],
    );
    assert_eq!(matrix(&types, 0), vec![-LIMIT, -LIMIT, 7, -LIMIT]);
    assert_eq!(matrix(&types, 1), vec![DIAMETER, DIAMETER, DIAMETER, DIAMETER]);
    assert_eq!(matrix(&types, 2), vec![LIMIT, DIAMETER, DIAMETER, DIAMETER]);
}

#[test]
fn regenerating_forgets_what_was_there() {
    let mut types = three_types();
    let zeros = vec![0; 9];
    regenerate(&mut types, &zeros, &zeros, &zeros);
    assert_eq!(matrix(&types, 0), zeros);
    assert_eq!(matrix(&types, 1), vec![DIAMETER; 9]);
    assert_eq!(matrix(&types, 2), vec![DIAMETER; 9]);
}

#[test]
fn colours_of_six_types() {
    let colors: Vec<Color> = (0..6).map(|i| color_of_type(i, 6)).collect();
    assert_eq!(
        colors,
        vec![
            Color { r: 500_000, g: 0, b: 0, a: ONE },
            Color { r: ONE, g: 999_996, b: 0, a: ONE },
            Color { r: 1, g: 500_000, b: 0, a: ONE },
            Color { r: 0, g: ONE, b: ONE, a: ONE },
            Color { r: 0, g: 2, b: 500_000, a: ONE },
            Color { r: 999_998, g: 0, b: ONE, a: ONE },
        ]
    );
}

#[test]
fn colours_of_four_types() {
    let colors: Vec<Color> = (0..4).map(|i| color_of_type(i, 4)).collect();
    assert_eq!(
        colors,
        vec![
            Color { r: 500_000, g: 0, b: 0, a: ONE },
            Color { r: 500_000, g: ONE, b: 0, a: ONE },
            Color { r: 0, g: 500_000, b: 500_000, a: ONE },
            Color { r: 500_000, g: 0, b: ONE, a: ONE },
        ]
    );
}

#[test]
fn every_other_type_is_half_as_bright() {
    assert_eq!(color_of_type(0, 1), Color { r: 500_000, g: 0, b: 0, a: ONE });
    assert_eq!(color_of_type(1, 3), Color { r: 2, g: ONE, b: 0, a: ONE });
    assert_eq!(color_of_type(2, 3), Color { r: 0, g: 2, b: 500_000, a: ONE });
    assert_eq!(color_of_type(0, 2), Color { r: 500_000, g: 0, b: 0, a: ONE });
    assert_eq!(color_of_type(1, 2), Color { r: 0, g: ONE, b: ONE, a: ONE });
}

#[test]
fn the_colours_of_types_are_within_the_gamut() {
    for size in 1..40 {
        for i in 0..size {
            let color = color_of_type(i, size);
            let value = if i % 2 == 0 { ONE / 2 } else { ONE };
            for channel in [color.r, color.g, color.b] {
                assert!(0 <= channel && channel <= value);
            }
            assert_eq!(color.r.max(color.g).max(color.b), value);
            assert_eq!(color.a, ONE);
        }
    }
}

#[test]
fn regenerate_colours_the_types() {
    let types = three_types();
    for i in 0..3 {
        assert_eq!(types.get_color(i), Some(&color_of_type(i, 3)));
    }
}

#[test]
fn a_particle_is_put_in_the_middle_half_of_the_world() {
    let low = ParticleVariate { particle_type: 1, x: 0, y: 999_999, vx: ONE, vy: -2_500_001 };
    assert_eq!(
        place(&low, 800 * ONE, 600 * ONE),
        Particle { x: 200 * ONE, y: 449_999_400, vx: 200_000, vy: -500_000, particle_type: 1 }
    );
    let middle = ParticleVariate { particle_type: 0, x: HALF, y: QUARTER, vx: 0, vy: 7 };
    assert_eq!(
        place(&middle, 400 * ONE, 400 * ONE),
        Particle { x: 200 * ONE, y: 150 * ONE, vx: 0, vy: 1, particle_type: 0 }
    );
}

#[test]
fn velocities_are_a_fifth_of_the_variate_rounded_towards_zero() {
    let small = ParticleVariate { particle_type: 0, x: 1, y: 1, vx: 4, vy: -4 };
    let placed = place(&small, 800 * ONE, 600 * ONE);
    assert_eq!((placed.vx, placed.vy), (0, 0));
    let larger = ParticleVariate { particle_type: 0, x: 1, y: 1, vx: 5, vy: -5 };
    let placed = place(&larger, 800 * ONE, 600 * ONE);
    assert_eq!((placed.vx, placed.vy), (1, -1));
}

#[test]
fn particle_variates_beyond_the_range_are_cut_down() {
    let wild = ParticleVariate { particle_type: 5, x: -7, y: 2 * ONE, vx: i64::MAX, vy: i64::MIN };
    assert_eq!(
        place(&wild, 800 * ONE, 600 * ONE),
        Particle {
            x: 199_997_600,
            y: 750 * ONE,
            vx: LIMIT / 5,
            vy: -LIMIT / 5,
            particle_type: 5
        }
    );
}

#[test]
fn scatter_places_one_particle_per_variate_in_order() {
    let variates = vec![
        ParticleVariate { particle_type: 0, x: 0, y: 0, vx: ONE, vy: -HALF },
        ParticleVariate { particle_type: 1, x: 100_000, y: 50_000, vx: 0, vy: 0 },
        ParticleVariate { particle_type: 0, x: 150_000, y: 200_000, vx: -2 * ONE, vy: 3 * ONE },
    ];
    assert_eq!(
        scatter(&variates, 400 * ONE, 300 * ONE),
        vec![
            Particle { x: 100 * ONE, y: 75 * ONE, vx: 200_000, vy: -100_000, particle_type: 0 },
            Particle { x: 120 * ONE, y: 82_500_000, vx: 0, vy: 0, particle_type: 1 },
            Particle { x: 130 * ONE, y: 105 * ONE, vx: -400_000, vy: 600_000, particle_type: 0 },
        ]
    );
    assert_eq!(scatter(&vec![], 400 * ONE, 300 * ONE), vec![]);
}
