use particle_life::fixed::ONE;
use particle_life::hsv::Color;
use particle_life::particle_types::ParticleTypes;

const RED: Color = Color { r: ONE, g: 0, b: 0, a: ONE };

#[test]
fn a_new_table_is_blank() {
    let types = ParticleTypes::new(3);
    assert_eq!(types.size(), 3);
    assert_eq!(types.pairs(), 9);
    for i in 0..3 {
        assert_eq!(types.get_color(i), Some(&Color::new_white()));
        for j in 0..3 {
            assert_eq!(types.get_attract(i, j), Some(&0));
            assert_eq!(types.get_min_r(i, j), Some(&0));
            assert_eq!(types.get_max_r(i, j), Some(&0));
        }
    }
}

#[test]
fn a_table_of_no_types() {
    let types = ParticleTypes::new(0);
    assert_eq!(types.size(), 0);
    assert_eq!(types.pairs(), 0);
    assert_eq!(types.get_color(0), None);
    assert_eq!(types.get_attract(0, 0), None);
    assert_eq!(types.get_min_r(0, 0), None);
    assert_eq!(types.get_max_r(0, 0), None);
}

#[test]
fn what_is_set_is_got() {
    let mut types = ParticleTypes::new(3);
    types.set_attract(1, 2, -20_000);
    types.set_min_r(1, 2, 12 * ONE);
    types.set_max_r(1, 2, 40 * ONE);
    types.set_color(1, RED);
    assert_eq!(types.get_attract(1, 2), Some(&-20_000));
    assert_eq!(types.get_min_r(1, 2), Some(&(12 * ONE)));
    assert_eq!(types.get_max_r(1, 2), Some(&(40 * ONE)));
    assert_eq!(types.get_color(1), Some(&RED));
}

#[test]
fn setting_a_cell_leaves_the_others_alone() {
    let mut types = ParticleTypes::new(3);
    types.set_attract(1, 2, 7);
    types.set_min_r(2, 0, 8);
    types.set_max_r(0, 1, 9);
    types.set_color(2, RED);
    for i in 0..3 {
        for j in 0..3 {
            assert_eq!(types.get_attract(i, j), Some(&(if (i, j) == (1, 2) { 7 } else { 0 })));
            assert_eq!(types.get_min_r(i, j), Some(&(if (i, j) == (2, 0) { 8 } else { 0 })));
            assert_eq!(types.get_max_r(i, j), Some(&(if (i, j) == (0, 1) { 9 } else { 0 })));
        }
        assert_eq!(types.get_color(i), Some(&(if i == 2 { RED } else { Color::new_white() })));
    }
}

#[test]
fn the_matrices_are_not_symmetric_by_themselves() {
    let mut types = ParticleTypes::new(2);
    types.set_attract(0, 1, 5);
    types.set_min_r(0, 1, 6);
    types.set_max_r(0, 1, 7);
    assert_eq!(types.get_attract(1, 0), Some(&0));
    assert_eq!(types.get_min_r(1, 0), Some(&0));
    assert_eq!(types.get_max_r(1, 0), Some(&0));
}

#[test]
fn there_is_nothing_outside_the_table() {
    let types = ParticleTypes::new(3);
    assert_eq!(types.get_color(3), None);
    assert_eq!(types.get_attract(3, 0), None);
    assert_eq!(types.get_attract(0, 3), None);
    assert_eq!(types.get_min_r(3, 3), None);
    assert_eq!(types.get_max_r(usize::MAX, 0), None);
    assert_eq!(types.get_max_r(0, usize::MAX), None);
}

#[test]
fn a_column_beyond_the_table_is_not_the_next_row() {
    let mut types = ParticleTypes::new(3);
    types.set_attract(1, 0, 99);
    assert_eq!(types.get_attract(0, 3), None);
    assert_eq!(types.get_attract(0, 4), None);
}

#[test]
fn resize_leaves_a_blank_table() {
    let mut types = ParticleTypes::new(2);
    types.set_attract(0, 1, 5);
    types.set_min_r(1, 1, 6);
    types.set_max_r(1, 0, 7);
    types.set_color(0, RED);
    types.resize(3);
    assert_eq!(types.size(), 3);
    for i in 0..3 {
        assert_eq!(types.get_color(i), Some(&Color::new_white()));
        for j in 0..3 {
            assert_eq!(types.get_attract(i, j), Some(&0));
            assert_eq!(types.get_min_r(i, j), Some(&0));
            assert_eq!(types.get_max_r(i, j), Some(&0));
        }
    }
    types.resize(0);
    assert_eq!(types.size(), 0);
    assert_eq!(types.get_attract(0, 0), None);
}

#[test]
fn a_colour_can_be_changed_in_place() {
    let mut types = ParticleTypes::new(2);
    match types.get_color_mut(1) {
        Some(color) => color.a = 250_000,
        None => panic!("there is a type 1"),
    }
    assert_eq!(types.get_color(1), Some(&Color { r: ONE, g: ONE, b: ONE, a: 250_000 }));
    assert_eq!(types.get_color(0), Some(&Color::new_white()));
    assert!(types.get_color_mut(2).is_none());
}
