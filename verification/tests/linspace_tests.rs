use linspace::linspace;
use linspace::num::{Numeric, Rat};

#[test]
fn unit_interval_five_values() {
    let mut g = linspace(Rat::new(0, 1), Rat::new(1, 1), 5);
    let expected = [
        Rat::new(0, 1),
        Rat::new(1, 4),
        Rat::new(1, 2),
        Rat::new(3, 4),
        Rat::new(1, 1),
    ];
    for e in expected.iter() {
        let v = g.next().unwrap();
        assert!(v.eq_value(e));
    }
    assert!(g.next().is_none());
}

#[test]
fn single_element_emits_start() {
    let mut g = linspace(Rat::new(0, 1), Rat::new(1, 1), 1);
    let v = g.next().unwrap();
    assert!(v.eq_value(&Rat::new(0, 1)));
    assert!(g.next().is_none());
}

#[test]
fn equal_endpoints_zero_step() {
    let mut g = linspace(Rat::new(5, 1), Rat::new(5, 1), 3);
    for _ in 0..3 {
        let v = g.next().unwrap();
        assert!(v.eq_value(&Rat::new(5, 1)));
    }
    assert!(g.next().is_none());
}

#[test]
fn zero_length_is_immediately_exhausted() {
    let mut g = linspace(Rat::new(0, 1), Rat::new(10, 1), 0);
    assert_eq!(g.remaining_count(), 0);
    assert!(g.next().is_none());
}

#[test]
fn descending_sequence() {
    let mut g = linspace(Rat::new(10, 1), Rat::new(0, 1), 5);
    let expected = [
        Rat::new(10, 1),
        Rat::new(15, 2),
        Rat::new(5, 1),
        Rat::new(5, 2),
        Rat::new(0, 1),
    ];
    for e in expected.iter() {
        let v = g.next().unwrap();
        assert!(v.eq_value(e));
    }
    assert!(g.next().is_none());
}

#[test]
fn remaining_count_tracks_emissions() {
    let mut g = linspace(Rat::new(0, 1), Rat::new(3, 1), 4);
    assert_eq!(g.remaining_count(), 4);
    for left in (0..4).rev() {
        assert!(g.next().is_some());
        assert_eq!(g.remaining_count(), left);
    }
    assert_eq!(g.remaining_count(), 0);
}

#[test]
fn exhaustion_is_idempotent() {
    let mut g = linspace(Rat::new(2, 1), Rat::new(4, 1), 2);
    assert!(g.next().is_some());
    assert!(g.next().is_some());
    for _ in 0..5 {
        assert!(g.next().is_none());
        assert_eq!(g.remaining_count(), 0);
    }
}

#[test]
fn consecutive_differences_equal_step() {
    // step = (1 - 0) / (5 - 1) = 1/4
    let step = Rat::new(1, 4);
    let mut g = linspace(Rat::new(0, 1), Rat::new(1, 1), 5);
    let mut prev = g.next().unwrap();
    while let Some(v) = g.next() {
        assert!(v.minus(prev).eq_value(&step));
        prev = v;
    }
}

#[test]
fn endpoints_with_fractional_bounds() {
    // From 1/2 to 7/2 in 4 elements: step = 1, values 1/2, 3/2, 5/2, 7/2.
    let mut g = linspace(Rat::new(1, 2), Rat::new(7, 2), 4);
    let first = g.next().unwrap();
    assert!(first.eq_value(&Rat::new(1, 2)));
    let mut last = first;
    while let Some(v) = g.next() {
        last = v;
    }
    assert!(last.eq_value(&Rat::new(7, 2)));
}

#[test]
fn rat_value_equality_ignores_representation() {
    assert!(Rat::new(1, 2).eq_value(&Rat::new(2, 4)));
    assert!(Rat::new(1, -2).eq_value(&Rat::new(-1, 2)));
    assert!(!Rat::new(1, 2).eq_value(&Rat::new(2, 3)));
}

#[test]
fn rat_arithmetic_exact_results() {
    let sum = Rat::new(1, 2).plus(Rat::new(1, 3));
    assert_eq!(sum, Rat::new(5, 6));
    let diff = Rat::new(1, 2).minus(Rat::new(1, 3));
    assert_eq!(diff, Rat::new(1, 6));
    let quot = Rat::new(1, 2).divided_by(Rat::new(3, 4));
    assert!(quot.eq_value(&Rat::new(2, 3)));
    assert_eq!(Rat::from_count(7), Rat::new(7, 1));
}

#[test]
fn rat_overflow_falls_back_to_left_operand() {
    let huge = Rat::new(i64::MAX, 1);
    assert_eq!(huge.plus(huge), huge);
    let low = Rat::new(i64::MIN, 1);
    assert_eq!(low.minus(huge), low);
    let wide = Rat::new(i64::MAX, i64::MAX);
    assert_eq!(wide.divided_by(Rat::new(1, i64::MAX)), wide);
}

#[test]
fn division_by_zero_value_marks_denominator() {
    // The undefined step of a single-element generator: den becomes 0,
    // and the value is never applied by the generator itself.
    let q = Rat::new(1, 1).divided_by(Rat::new(0, 1));
    assert_eq!(q.den, 0);
}
