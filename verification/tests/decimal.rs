use managed_order_book::decimal::{Decimal, MAX_MANTISSA, MAX_SCALE};
use std::str::FromStr;

fn dec(text: &str) -> Decimal {
    let d = rust_decimal::Decimal::from_str(text).unwrap();
    Decimal::new(d.mantissa(), d.scale()).unwrap()
}

fn text(d: Decimal) -> String {
    rust_decimal::Decimal::from_i128_with_scale(d.mantissa(), d.scale()).to_string()
}

#[test]
fn new_accepts_the_whole_range() {
    assert!(Decimal::new(0, 0).is_some());
    assert!(Decimal::new(MAX_MANTISSA, MAX_SCALE).is_some());
    assert!(Decimal::new(-MAX_MANTISSA, 0).is_some());
    let d = Decimal::new(-12345, 3).unwrap();
    assert_eq!(d.mantissa(), -12345);
    assert_eq!(d.scale(), 3);
    assert_eq!(text(d), "-12.345");
}

#[test]
fn new_refuses_what_is_out_of_range() {
    assert!(Decimal::new(MAX_MANTISSA + 1, 0).is_none());
    assert!(Decimal::new(-MAX_MANTISSA - 1, 0).is_none());
    assert!(Decimal::new(1, MAX_SCALE + 1).is_none());
    assert!(Decimal::new(i128::MAX, 0).is_none());
    assert!(Decimal::new(i128::MIN, 0).is_none());
}

#[test]
fn max_mantissa_is_two_to_the_96_minus_one() {
    assert_eq!(MAX_MANTISSA, (1i128 << 96) - 1);
    assert_eq!(MAX_SCALE, rust_decimal::Decimal::MAX_SCALE);
}

#[test]
fn zero_is_zero() {
    let z = Decimal::zero();
    assert_eq!(z.mantissa(), 0);
    assert_eq!(z.scale(), 0);
    assert!(z.is_zero());
    assert!(!z.is_positive());
    assert!(dec("0.000").is_zero());
    assert!(!dec("0.001").is_zero());
    assert!(dec("0.001").is_positive());
    assert!(!dec("-0.001").is_positive());
}

#[test]
fn less_than_compares_numbers_not_digits() {
    assert!(dec("1.5").less_than(&dec("2")));
    assert!(!dec("2").less_than(&dec("1.5")));
    assert!(dec("9").less_than(&dec("10.00")));
    assert!(dec("0.09").less_than(&dec("0.1")));
    assert!(dec("-3").less_than(&dec("-2.999")));
    assert!(dec("-1").less_than(&dec("0")));
    assert!(!dec("1.0").less_than(&dec("1.00")));
    assert!(!dec("1.00").less_than(&dec("1.0")));
    assert!(!dec("5").less_than(&dec("5")));
}

#[test]
fn less_than_at_the_ends_of_the_range() {
    let top = Decimal::new(MAX_MANTISSA, 0).unwrap();
    let tiny = Decimal::new(1, MAX_SCALE).unwrap();
    let bottom = Decimal::new(-MAX_MANTISSA, 0).unwrap();
    assert!(tiny.less_than(&top));
    assert!(!top.less_than(&tiny));
    assert!(bottom.less_than(&tiny));
    assert!(Decimal::zero().less_than(&tiny));
    let almost = Decimal::new(MAX_MANTISSA, MAX_SCALE).unwrap();
    assert!(almost.less_than(&dec("8")));
    assert!(dec("7.9").less_than(&almost));
}

#[test]
fn min_keeps_the_first_of_two_equal_numbers() {
    let a = dec("5.0");
    let b = dec("5.00");
    assert_eq!(a.min(&b).scale(), 1);
    assert_eq!(b.min(&a).scale(), 2);
    assert_eq!(text(dec("3").min(&dec("4"))), "3");
    assert_eq!(text(dec("4").min(&dec("3"))), "3");
    assert_eq!(text(dec("-4").min(&dec("3"))), "-4");
}

#[test]
fn checked_add_adds() {
    assert_eq!(text(dec("1.5").checked_add(&dec("2.25")).unwrap()), "3.75");
    assert_eq!(text(dec("55").checked_add(&dec("36")).unwrap()), "91");
    assert_eq!(text(dec("-1").checked_add(&dec("1")).unwrap()), "0");
    let top = Decimal::new(MAX_MANTISSA, 0).unwrap();
    assert!(top.checked_add(&dec("1")).is_none());
}

#[test]
fn checked_sub_subtracts() {
    assert_eq!(text(dec("8").checked_sub(&dec("5")).unwrap()), "3");
    assert_eq!(text(dec("1.5").checked_sub(&dec("2.25")).unwrap()), "-0.75");
    assert!(dec("3").checked_sub(&dec("3.0")).unwrap().is_zero());
    let bottom = Decimal::new(-MAX_MANTISSA, 0).unwrap();
    assert!(bottom.checked_sub(&dec("1")).is_none());
}

#[test]
fn checked_mul_multiplies() {
    assert_eq!(text(dec("5").checked_mul(&dec("11")).unwrap()), "55");
    assert_eq!(text(dec("1.5").checked_mul(&dec("-2.5")).unwrap()), "-3.75");
    assert!(dec("0").checked_mul(&dec("7")).unwrap().is_zero());
    let top = Decimal::new(MAX_MANTISSA, 0).unwrap();
    assert!(top.checked_mul(&dec("2")).is_none());
}

#[test]
fn checked_div_divides() {
    assert_eq!(text(dec("91").checked_div(&dec("8")).unwrap()), "11.375");
    assert_eq!(text(dec("115").checked_div(&dec("20")).unwrap()), "5.75");
    assert_eq!(text(dec("-1").checked_div(&dec("4")).unwrap()), "-0.25");
    assert!(dec("1").checked_div(&dec("0")).is_none());
    let top = Decimal::new(MAX_MANTISSA, 0).unwrap();
    let tiny = Decimal::new(1, MAX_SCALE).unwrap();
    assert!(top.checked_div(&tiny).is_none());
}

#[test]
fn arithmetic_agrees_with_rust_decimal() {
    let pairs = [
        ("1.663900", "31.0"),
        ("0.000001", "123456789.123456789"),
        ("-7.5", "0.3"),
        ("79228162514264337593543950335", "0.5"),
        ("0.0000000000000000000000000001", "3"),
    ];
    for (a, b) in pairs {
        let (x, y) = (dec(a), dec(b));
        let (p, q) = (
            rust_decimal::Decimal::from_str(a).unwrap(),
            rust_decimal::Decimal::from_str(b).unwrap(),
        );
        assert_eq!(x.checked_add(&y).map(text), p.checked_add(q).map(|d| d.to_string()));
        assert_eq!(x.checked_sub(&y).map(text), p.checked_sub(q).map(|d| d.to_string()));
        assert_eq!(x.checked_mul(&y).map(text), p.checked_mul(q).map(|d| d.to_string()));
        assert_eq!(x.checked_div(&y).map(text), p.checked_div(q).map(|d| d.to_string()));
        assert_eq!(x.less_than(&y), p < q);
        assert_eq!(y.less_than(&x), q < p);
    }
}
