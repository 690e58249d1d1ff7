use bloop_vault::fixed::{Ratio, FRAC};

#[test]
fn mul_halves() {
    let half = Ratio { atomics: FRAC / 2 };
    let r = half.checked_mul(half).unwrap();
    assert_eq!(r.atomics, FRAC / 4);
}

#[test]
fn mul_truncates_toward_zero() {
    // 0.0000000000000000015 * 0.5 floors to 0.0000000000000000007.
    let a = Ratio { atomics: 15 };
    let b = Ratio { atomics: FRAC / 2 };
    assert_eq!(a.checked_mul(b).unwrap().atomics, 7);
}

#[test]
fn mul_overflow_is_none() {
    let big = Ratio { atomics: u128::MAX };
    let two = Ratio { atomics: 2 * FRAC };
    assert!(big.checked_mul(two).is_none());
}

#[test]
fn div_thirds() {
    let one = Ratio { atomics: FRAC };
    let three = Ratio { atomics: 3 * FRAC };
    assert_eq!(one.checked_div(three).unwrap().atomics, 333_333_333_333_333_333);
}

#[test]
fn div_by_zero_is_none() {
    let one = Ratio { atomics: FRAC };
    assert!(one.checked_div(Ratio { atomics: 0 }).is_none());
}

#[test]
fn div_overflow_is_none() {
    let big = Ratio { atomics: u128::MAX };
    let tiny = Ratio { atomics: 1 };
    assert!(big.checked_div(tiny).is_none());
}

#[test]
fn uint_round_trip() {
    let r = Ratio::from_uint(75).unwrap();
    assert_eq!(r.atomics, 75 * FRAC);
    assert_eq!(r.to_uint_floor(), 75);
    let almost = Ratio { atomics: 12_999_000_000_000_000_000 };
    assert_eq!(almost.to_uint_floor(), 12);
}

#[test]
fn from_uint_overflow_is_none() {
    let max_whole = u128::MAX / FRAC;
    assert!(Ratio::from_uint(max_whole).is_some());
    assert!(Ratio::from_uint(max_whole + 1).is_none());
}

#[test]
fn add_and_sub() {
    let a = Ratio { atomics: 7 };
    let b = Ratio { atomics: 5 };
    assert_eq!(a.checked_add(b).unwrap().atomics, 12);
    assert_eq!(a.checked_sub(b).unwrap().atomics, 2);
    assert!(b.checked_sub(a).is_none());
    assert!(Ratio { atomics: u128::MAX }.checked_add(Ratio { atomics: 1 }).is_none());
    assert_eq!(Ratio::zero().atomics, 0);
    assert_eq!(Ratio::one().atomics, FRAC);
}
