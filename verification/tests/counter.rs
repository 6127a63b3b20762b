use particle_life::counter::BoundedCounter;

#[test]
fn counter_stops_at_upper_bound() {
    let mut counter = BoundedCounter { current: 0, lower: 0, upper: 2, continious: false };
    assert_eq!(counter.increment(), 1);
    assert_eq!(counter.increment(), 2);
    assert_eq!(counter.increment(), 2);
    assert_eq!(counter.current(), 2);
}

#[test]
fn counter_stops_at_lower_bound() {
    let mut counter = BoundedCounter { current: 4, lower: 3, upper: 9, continious: false };
    assert_eq!(counter.decrement(), 3);
    assert_eq!(counter.decrement(), 3);
    assert_eq!(counter.current(), 3);
}

#[test]
fn counter_starts_again_at_the_other_bound() {
    let mut counter = BoundedCounter { current: 2, lower: 1, upper: 3, continious: true };
    assert_eq!(counter.increment(), 3);
    assert_eq!(counter.increment(), 1);
    assert_eq!(counter.decrement(), 3);
    assert_eq!(counter.decrement(), 2);
}

#[test]
fn counter_beyond_upper_bound_comes_back() {
    let mut stopping = BoundedCounter { current: 10, lower: 1, upper: 3, continious: false };
    assert_eq!(stopping.increment(), 3);
    let mut going_round = BoundedCounter { current: 10, lower: 1, upper: 3, continious: true };
    assert_eq!(going_round.increment(), 1);
}

#[test]
fn counter_below_lower_bound_comes_back() {
    let mut stopping = BoundedCounter { current: 0, lower: 2, upper: 5, continious: false };
    assert_eq!(stopping.decrement(), 2);
    let mut going_round = BoundedCounter { current: 0, lower: 2, upper: 5, continious: true };
    assert_eq!(going_round.decrement(), 5);
}

#[test]
fn counter_keeps_its_bounds() {
    let mut counter = BoundedCounter { current: 5, lower: 2, upper: 7, continious: true };
    counter.increment();
    counter.decrement();
    counter.decrement();
    assert_eq!(counter, BoundedCounter { current: 4, lower: 2, upper: 7, continious: true });
}

#[test]
fn counter_default_is_all_zero() {
    let mut counter = BoundedCounter::default();
    assert_eq!(counter, BoundedCounter { current: 0, lower: 0, upper: 0, continious: false });
    assert_eq!(counter.increment(), 0);
    assert_eq!(counter.decrement(), 0);
}

#[test]
fn counter_walks_through_a_catalogue_and_round() {
    let mut counter = BoundedCounter { current: 0, lower: 0, upper: 7, continious: true };
    let mut seen = vec![counter.current()];
    for _ in 0..8 {
        seen.push(counter.increment());
    }
    assert_eq!(seen, vec![0, 1, 2, 3, 4, 5, 6, 7, 0]);
}

#[test]
fn counter_step_up_undoes_step_down_inside_the_bounds() {
    for current in 3..=6usize {
        let mut counter = BoundedCounter { current, lower: 2, upper: 7, continious: false };
        counter.decrement();
        assert_eq!(counter.increment(), current);
        counter.increment();
        assert_eq!(counter.decrement(), current);
    }
}
