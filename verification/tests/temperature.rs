//! The fixed-point temperature value: arithmetic, decomposition, rendering.

use onewire::temperature::Temperature;

#[test]
fn from_celsius_composes_sixteenths() {
    assert_eq!(Temperature::from_celsius(25, 1), Temperature::from(401));
    assert_eq!(Temperature::from_celsius(-5, 0), Temperature::from(-80));
    assert_eq!(Temperature::from_celsius(0, 0), Temperature::from(0));
}

#[test]
fn addition_is_plain_fixed_point_addition() {
    let sum = Temperature::from_celsius(-5, 0).add(Temperature::from_celsius(0, 1));
    assert_eq!(sum, Temperature::from(-79));
    assert_eq!(sum, Temperature::from_celsius(-4, -15));
    assert!(sum.is_negative());
    assert_eq!(sum.whole_degrees(), 4);
    assert_eq!(sum.fraction_degrees(), 15);
}

#[test]
fn subtraction_is_plain_fixed_point_subtraction() {
    let diff = Temperature::from_celsius(1, 0).sub(Temperature::from_celsius(0, 1));
    assert_eq!(diff, Temperature::from(15));
    assert!(!diff.is_negative());
    assert_eq!(diff.whole_degrees(), 0);
    assert_eq!(diff.fraction_degrees(), 15);
}

#[test]
fn decomposition_strips_the_sign() {
    let t = Temperature::from(401);
    assert!(!t.is_negative());
    assert_eq!(t.whole_degrees(), 25);
    assert_eq!(t.fraction_degrees(), 1);
    let n = Temperature::from(-401);
    assert!(n.is_negative());
    assert_eq!(n.whole_degrees(), 25);
    assert_eq!(n.fraction_degrees(), 1);
}

#[test]
fn fraction_digit_uses_the_rounding_table() {
    assert_eq!(Temperature::from(1).fraction_digit(), 1);
    assert_eq!(Temperature::from(8).fraction_digit(), 5);
    assert_eq!(Temperature::from(15).fraction_digit(), 9);
    assert_eq!(Temperature::from(0).fraction_digit(), 0);
    assert_eq!(Temperature::from(4).fraction_digit(), 3);
}

#[test]
fn render_shows_sign_digits_and_rounded_fraction() {
    assert_eq!(&Temperature::from(401).render(), b" 25.1");
    assert_eq!(&Temperature::from(-168).render(), b"-10.5");
    assert_eq!(&Temperature::from(0).render(), b" 00.0");
    assert_eq!(&Temperature::from(1599).render(), b" 99.9");
}
