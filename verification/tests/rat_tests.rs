use raytracing::rat::Rat;

#[test]
fn construction_reduces() {
    assert_eq!(Rat::new(2, 4), Rat::new(1, 2));
    assert_eq!(Rat::new(-6, -8), Rat::new(3, 4));
    assert_eq!(Rat::new(5, -10), Rat::new(-1, 2));
    assert_eq!(Rat::new(0, 7), Rat::from_int(0));
    assert_eq!(Rat::from_int(3), Rat::new(3, 1));
}

#[test]
fn add_sub_mul_div_are_exact() {
    let a = Rat::new(1, 3);
    let b = Rat::new(1, 6);
    assert_eq!(a.add(&b), Some(Rat::new(1, 2)));
    assert_eq!(a.sub(&b), Some(Rat::new(1, 6)));
    assert_eq!(a.mul(&b), Some(Rat::new(1, 18)));
    assert_eq!(a.div(&b), Some(Rat::from_int(2)));
    assert_eq!(a.neg(), Rat::new(-1, 3));
    assert_eq!(Rat::new(-1, 3).abs(), Rat::new(1, 3));
}

#[test]
fn comparison_small() {
    let a = Rat::new(1, 3);
    let b = Rat::new(2, 5);
    assert!(a.lt(&b));
    assert!(!b.lt(&a));
    assert!(a.le(&b));
    assert!(a.le(&a));
    assert!(!a.lt(&a));
    assert!(Rat::new(-1, 2).lt(&Rat::new(1, 1000)));
    assert!(Rat::new(-3, 4).lt(&Rat::new(-2, 3)));
    assert!(a.eq_val(&Rat::new(2, 6)));
}

#[test]
fn comparison_survives_huge_values() {
    // cross-multiplying these fractions would leave the 128-bit range,
    // forcing the continued-fraction path of the comparison
    let big = Rat::from_int(i64::MAX);
    let one = Rat::from_int(1);
    let b2 = big.mul(&big).expect("fits");
    let b2m1 = b2.sub(&one).expect("fits");
    let b2m2 = b2m1.sub(&one).expect("fits");
    let p = b2.div(&b2m1).expect("fits");
    let r = b2m1.div(&b2m2).expect("fits");
    // p = 1 + 1/(M^2 - 1) < r = 1 + 1/(M^2 - 2)
    assert!(p.lt(&r));
    assert!(!r.lt(&p));
    assert!(p.le(&r));
    assert!(p.le(&p));
    assert!(p.eq_val(&p));
    assert!(!p.eq_val(&r));
    let pn = p.neg();
    let rn = r.neg();
    assert!(rn.lt(&pn));
    assert!(!pn.lt(&rn));
}

#[test]
fn addition_out_of_range_is_none() {
    let big = Rat::from_int(i64::MAX);
    let b2 = big.mul(&big).expect("fits");
    // (2^63-1)^4 does not fit in an i128 pair
    assert_eq!(b2.mul(&b2), None);
}

#[test]
fn sqrt_exact_of_squares() {
    assert_eq!(Rat::new(9, 4).sqrt_exact(), Some(Rat::new(3, 2)));
    assert_eq!(Rat::from_int(0).sqrt_exact(), Some(Rat::from_int(0)));
    assert_eq!(Rat::from_int(1).sqrt_exact(), Some(Rat::from_int(1)));
    assert_eq!(Rat::new(16, 36).sqrt_exact(), Some(Rat::new(2, 3)));
}

#[test]
fn sqrt_exact_of_non_squares_is_none() {
    assert_eq!(Rat::from_int(2).sqrt_exact(), None);
    assert_eq!(Rat::new(3, 4).sqrt_exact(), None);
    assert_eq!(Rat::new(4, 3).sqrt_exact(), None);
    assert_eq!(Rat::from_int(-4).sqrt_exact(), None);
}

#[test]
fn pow_is_repeated_multiplication() {
    let q = Rat::new(2, 3);
    assert_eq!(q.pow_n(0), Some(Rat::from_int(1)));
    assert_eq!(q.pow_n(1), Some(q));
    assert_eq!(q.pow_n(3), Some(Rat::new(8, 27)));
    assert_eq!(Rat::from_int(-2).pow_n(3), Some(Rat::from_int(-8)));
}

#[test]
fn predicates() {
    assert!(Rat::from_int(0).is_zero());
    assert!(!Rat::new(1, 9).is_zero());
    assert!(Rat::new(-1, 9).is_neg());
    assert!(!Rat::new(1, 9).is_neg());
}
