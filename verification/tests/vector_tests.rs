use tilegrid::IVec2;
use tilegrid::Vector;

#[test]
fn ivec_macro() {
    let vec = IVec2::new(2, 2);
    let equiv = IVec2::new(2, 2);
    assert_eq!(vec, equiv);
}

#[test]
fn test_add() {
    assert_eq!(IVec2::new(2, 5), IVec2::new(1, 4) + IVec2::new(1, 1));
    let mut add_eq = IVec2::new(1, 1);
    add_eq.add_assign(IVec2::new(2, 4));
    assert_eq!(IVec2::new(3, 5), add_eq);
    assert_eq!(IVec2::new(2, 2), IVec2::new(1, 1) + 1);
    let mut add_eq_i32 = IVec2::new(1, 1);
    add_eq_i32.add_assign_scalar(1);
    assert_eq!(IVec2::new(2, 2), add_eq_i32);
}

#[test]
fn test_divide() {
    assert_eq!(IVec2::new(3, 2), IVec2::new(9, 8) / IVec2::new(3, 4));
    let mut div_eq = IVec2::new(9, 8);
    div_eq.div_assign(IVec2::new(3, 4));
    assert_eq!(IVec2::new(3, 2), div_eq);
    assert_eq!(IVec2::new(2, 4), IVec2::new(4, 8) / 2);
    let mut div_eq_i32 = IVec2::new(2, 4);
    div_eq_i32.div_assign_scalar(2);
    assert_eq!(IVec2::new(1, 2), div_eq_i32);
}

#[test]
fn test_sub_mul() {
    assert_eq!(IVec2::new(1, 3), IVec2::new(3, 4) - IVec2::new(2, 1));
    assert_eq!(IVec2::new(2, 3), IVec2::new(3, 4) - 1);
    assert_eq!(IVec2::new(6, 4), IVec2::new(3, 4) * IVec2::new(2, 1));
    assert_eq!(IVec2::new(9, 12), IVec2::new(3, 4) * 3);
    let mut v = IVec2::new(5, 7);
    v.sub_assign(IVec2::new(1, 2));
    assert_eq!(IVec2::new(4, 5), v);
    v.sub_assign_scalar(1);
    assert_eq!(IVec2::new(3, 4), v);
    v.mul_assign(IVec2::new(2, 3));
    assert_eq!(IVec2::new(6, 12), v);
    v.mul_assign_scalar(2);
    assert_eq!(IVec2::new(12, 24), v);
}

#[test]
fn test_truncating_division() {
    // quotients round toward zero, as the host language's division does
    assert_eq!(IVec2::new(-3, 3), IVec2::new(-7, 7) / 2);
    assert_eq!(IVec2::new(-3, -3), IVec2::new(7, -7) / IVec2::new(-2, 2));
    assert_eq!(IVec2::new(3, 0), IVec2::new(-7, 1) / IVec2::new(-2, 2));
}

#[test]
fn test_axis_helpers() {
    let mut v = IVec2::new(10, 20);
    v.add_x(&5);
    assert_eq!(IVec2::new(15, 20), v);
    v.add_y(&2);
    assert_eq!(IVec2::new(15, 22), v);
    v.subtract_x(&5);
    v.subtract_y(&2);
    // incremented then decremented, the vector is back at its start
    assert_eq!(IVec2::new(10, 20), v);
    assert_eq!(*v.x(), 10);
    assert_eq!(*v.y(), 20);
    let mut w = IVec2::new(1, 1);
    w.transform(&IVec2::new(3, -4));
    assert_eq!(IVec2::new(4, -3), w);
}

#[test]
fn test_arithmetic_round_trip() {
    // (a + b) - b == a, and (a * b) / b == a when no axis of b is zero
    let a = IVec2::new(12, -34);
    let b = IVec2::new(-5, 9);
    assert_eq!(a, (a + b) - b);
    assert_eq!(a, (a * b) / b);
}

#[test]
fn test_ordering_total() {
    // lexicographic: by x first, then by y; of each distinct pair exactly
    // one direction compares less
    let pairs = [
        (IVec2::new(0, 5), IVec2::new(1, 0)),
        (IVec2::new(2, 1), IVec2::new(2, 3)),
        (IVec2::new(-1, 9), IVec2::new(0, -9)),
    ];
    for (lo, hi) in pairs {
        assert!(lo < hi);
        assert!(!(lo > hi));
        assert!(hi > lo);
        assert!(!(hi < lo));
    }
    assert!(IVec2::new(1, 1) == IVec2::new(1, 1));
    assert!(!(IVec2::new(1, 1) < IVec2::new(1, 1)));
}

#[test]
fn test_in_bounds_lexicographic() {
    // a single composite order comparison, not a per-axis rectangle test:
    // (5, 100) sorts strictly between (0, 0) and (10, 0)
    let min = IVec2::new(0, 0);
    let max = IVec2::new(10, 0);
    assert!(IVec2::new(5, 100).in_bounds(&min, &max));
    assert!(!IVec2::new(10, 0).in_bounds(&min, &max));
    assert!(!IVec2::new(0, 0).in_bounds(&min, &max));
    assert!(IVec2::new(0, 1).in_bounds(&min, &max));
    assert!(!IVec2::new(-1, 50).in_bounds(&min, &max));
}
