use boutique_bouquet_api::money::Money;

#[test]
fn money_new_accepts_the_largest_mantissa() {
    let max: i128 = 0x0000_0000_FFFF_FFFF_FFFF_FFFF_FFFF_FFFF;
    let m = Money::new(max, 28).unwrap();
    assert_eq!(m.mantissa(), max);
    assert_eq!(m.scale(), 28);
    let n = Money::new(-max, 0).unwrap();
    assert_eq!(n.mantissa(), -max);
    assert_eq!(n.scale(), 0);
    assert!(Money::new(max + 1, 0).is_none());
    assert!(Money::new(-max - 1, 0).is_none());
    assert!(Money::new(0, 29).is_none());
}

#[test]
fn money_zero_and_whole_have_no_fraction() {
    assert_eq!(Money::zero(), Money::new(0, 0).unwrap());
    assert_eq!(Money::whole(7), Money::new(7, 0).unwrap());
    assert_eq!(Money::whole(-3), Money::new(-3, 0).unwrap());
    assert_eq!(Money::whole(i32::MIN).mantissa(), -2147483648);
}

#[test]
fn money_equality_is_by_representation() {
    assert_ne!(Money::new(10, 1).unwrap(), Money::new(100, 2).unwrap());
    assert_eq!(Money::new(100, 2).unwrap(), Money::new(100, 2).unwrap());
}

#[test]
fn money_matches_the_decimal_it_stands_for() {
    let d = rust_decimal::Decimal::from_i128_with_scale(-12345, 3);
    let m = Money::new(d.mantissa(), d.scale()).unwrap();
    assert_eq!(m.mantissa(), -12345);
    assert_eq!(m.scale(), 3);
    let back = rust_decimal::Decimal::from_i128_with_scale(m.mantissa(), m.scale());
    assert_eq!(back, d);
    assert_eq!(back.to_string(), "-12.345");
}
