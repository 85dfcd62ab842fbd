use tuploid_parser::Number;
use tuploid_parser::NumberParseError;

#[test]
fn plain_digits_are_untyped() {
    assert_eq!(Number::from_str("3"), Ok(Number::Untyped(3)));
    assert_eq!(Number::from_str("0"), Ok(Number::Untyped(0)));
    assert_eq!(Number::from_str("42"), Ok(Number::Untyped(42)));
    assert_eq!(Number::from_str("007"), Ok(Number::Untyped(7)));
}

#[test]
fn decimal_with_nonzero_fraction_is_a_float() {
    let parsed = Number::from_str("3.14");
    assert_eq!(parsed, Ok(Number::Float("3.14".to_string())));
    match parsed.unwrap() {
        Number::Float(text) => assert_eq!(text.parse::<f64>().unwrap(), 3.14),
        other => panic!("expected a float, got {:?}", other),
    }
}

#[test]
fn decimal_with_zero_fraction_is_untyped() {
    assert_eq!(Number::from_str("3.0"), Ok(Number::Untyped(3)));
    assert_eq!(Number::from_str("3."), Ok(Number::Untyped(3)));
    assert_eq!(Number::from_str("0.000"), Ok(Number::Untyped(0)));
}

#[test]
fn base_markers_select_a_radix() {
    assert_eq!(Number::from_str("0x1F"), Ok(Number::Integer(31)));
    assert_eq!(Number::from_str("0b11"), Ok(Number::Integer(3)));
    assert_eq!(Number::from_str("0o17"), Ok(Number::Integer(15)));
    assert_eq!(Number::from_str("0y13"), Ok(Number::Integer(17)));
    assert_eq!(Number::from_str("0z10"), Ok(Number::Integer(12)));
    assert_eq!(Number::from_str("0s12"), Ok(Number::Integer(15)));
    assert_eq!(Number::from_str("0xff"), Ok(Number::Integer(255)));
}

#[test]
fn unknown_base_marker_is_invalid_base() {
    assert_eq!(
        Number::from_str("0q5"),
        Err(NumberParseError::InvalidBase)
    );
}

#[test]
fn digits_outside_the_radix_are_invalid_integers() {
    assert_eq!(
        Number::from_str("0b12"),
        Err(NumberParseError::InvalidInteger)
    );
    assert_eq!(
        Number::from_str("0x"),
        Err(NumberParseError::InvalidInteger)
    );
    assert_eq!(
        Number::from_str("3x4"),
        Err(NumberParseError::InvalidInteger)
    );
    assert_eq!(
        Number::from_str(""),
        Err(NumberParseError::InvalidInteger)
    );
    assert_eq!(
        Number::from_str("."),
        Err(NumberParseError::InvalidInteger)
    );
}

#[test]
fn overflowing_radix_literals_are_invalid_integers() {
    assert_eq!(
        Number::from_str("0xffffffffffffffff"),
        Ok(Number::Integer(u64::MAX))
    );
    assert_eq!(
        Number::from_str("0x10000000000000000"),
        Err(NumberParseError::InvalidInteger)
    );
}

#[test]
fn overflowing_decimal_literals_saturate() {
    assert_eq!(
        Number::from_str("18446744073709551615"),
        Ok(Number::Untyped(u64::MAX))
    );
    assert_eq!(
        Number::from_str("99999999999999999999"),
        Ok(Number::Untyped(u64::MAX))
    );
}
