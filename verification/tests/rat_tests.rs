use shaded_sprite::rat::Rat;

fn r(n: i64, d: i64) -> Rat {
    Rat::new(n, d).unwrap()
}

#[test]
fn add_reduces_to_lowest_form() {
    let a = r(1, 2);
    let b = r(1, 3);
    let s = a.add(b).unwrap();
    assert_eq!(s, r(5, 6));
    assert_eq!(s.num, 5);
    assert_eq!(s.den, 6);
}

#[test]
fn add_cancels_common_factors() {
    let a = r(1, 2);
    let s = a.add(a).unwrap();
    assert_eq!(s.num, 1);
    assert_eq!(s.den, 1);
}

#[test]
fn sub_and_mul_are_exact() {
    let a = r(3, 4);
    let b = r(1, 4);
    assert_eq!(a.sub(b).unwrap(), r(1, 2));
    assert_eq!(a.mul(b).unwrap(), r(3, 16));
}

#[test]
fn negative_denominator_is_normalized() {
    let a = Rat::new(1, -2).unwrap();
    assert_eq!(a.num, -1);
    assert_eq!(a.den, 2);
    assert!(a.eq_val(Rat::new(-1, 2).unwrap()));
}

#[test]
fn zero_denominator_is_rejected() {
    assert!(Rat::new(1, 0).is_none());
}

#[test]
fn recip_or_zero_inverts_and_tolerates_zero() {
    assert_eq!(r(2, 3).recip_or_zero(), r(3, 2));
    assert_eq!(r(-2, 3).recip_or_zero(), r(-3, 2));
    assert_eq!(Rat::zero().recip_or_zero(), Rat::zero());
}

#[test]
fn value_equality_ignores_representation() {
    // `new` reduces, so equal values compare equal either way
    assert!(r(2, 4).eq_val(r(1, 2)));
    assert_eq!(r(2, 4), r(1, 2));
    assert!(!r(1, 3).eq_val(r(1, 2)));
}

#[test]
fn value_order() {
    assert!(r(1, 3).le_val(r(1, 2)));
    assert!(!r(1, 2).le_val(r(1, 3)));
    assert!(r(-1, 2).le_val(r(1, 1000000)));
}

#[test]
fn overflow_is_reported_not_rounded() {
    let big = r(i64::MAX, 1);
    let one = Rat::one();
    // MAX + 1 cannot be represented in the symmetric i64 range
    assert!(big.add(one).is_none());
    // but MAX - 1 can
    assert!(big.sub(one).is_some());
}

#[test]
fn is_neg_reads_the_sign() {
    assert!(r(-1, 5).is_neg());
    assert!(!r(1, 5).is_neg());
    assert!(!Rat::zero().is_neg());
}
