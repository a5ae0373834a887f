use ssping::interval::NonNegativeInterval;
use ssping::interval::ParseNonNegativeFloatError;

#[test]
fn whole_seconds_round_trip_to_milliseconds() {
    let v = NonNegativeInterval::from_str("1").unwrap();
    assert_eq!(v.as_millis(), 1000);
    let v = NonNegativeInterval::from_str("0").unwrap();
    assert_eq!(v.as_millis(), 0);
    let v = NonNegativeInterval::from_str("30").unwrap();
    assert_eq!(v.as_millis(), 30000);
}

#[test]
fn fractions_truncate_to_milliseconds() {
    assert_eq!(NonNegativeInterval::from_str("1.5").unwrap().as_millis(), 1500);
    assert_eq!(NonNegativeInterval::from_str("0.25").unwrap().as_millis(), 250);
    assert_eq!(NonNegativeInterval::from_str("0.0009").unwrap().as_millis(), 0);
    assert_eq!(NonNegativeInterval::from_str("2.7182818").unwrap().as_millis(), 2718);
}

#[test]
fn bare_point_forms_parse() {
    assert_eq!(NonNegativeInterval::from_str(".5").unwrap().as_millis(), 500);
    assert_eq!(NonNegativeInterval::from_str("2.").unwrap().as_millis(), 2000);
}

#[test]
fn explicit_plus_sign_is_accepted() {
    assert_eq!(NonNegativeInterval::from_str("+1.5").unwrap().as_millis(), 1500);
}

#[test]
fn negative_zero_counts_as_zero() {
    assert_eq!(NonNegativeInterval::from_str("-0").unwrap().as_millis(), 0);
    assert_eq!(NonNegativeInterval::from_str("-0.000").unwrap().as_millis(), 0);
}

#[test]
fn negative_values_are_classified_negative() {
    assert_eq!(
        NonNegativeInterval::from_str("-1"),
        Err(ParseNonNegativeFloatError::Negative)
    );
    assert_eq!(
        NonNegativeInterval::from_str("-0.001"),
        Err(ParseNonNegativeFloatError::Negative)
    );
}

#[test]
fn malformed_text_is_not_a_number() {
    for bad in ["", "abc", ".", "+", "-", "+.", "1.2.3", "1x", " 1", "1 ", "inf", "NaN"] {
        assert_eq!(
            NonNegativeInterval::from_str(bad),
            Err(ParseNonNegativeFloatError::NotANumber),
            "input {:?}",
            bad
        );
    }
}

#[test]
fn exponent_forms_parse() {
    assert_eq!(NonNegativeInterval::from_str("1e3").unwrap().as_millis(), 1_000_000);
    assert_eq!(NonNegativeInterval::from_str("1.5e1").unwrap().as_millis(), 15_000);
    assert_eq!(NonNegativeInterval::from_str("1E2").unwrap().as_millis(), 100_000);
    assert_eq!(NonNegativeInterval::from_str("2e-3").unwrap().as_millis(), 2);
    assert_eq!(NonNegativeInterval::from_str("1e-5").unwrap().as_millis(), 0);
    assert_eq!(NonNegativeInterval::from_str(".5e1").unwrap().as_millis(), 5_000);
    assert_eq!(NonNegativeInterval::from_str("2.e1").unwrap().as_millis(), 20_000);
    assert_eq!(NonNegativeInterval::from_str("+1e+2").unwrap().as_millis(), 100_000);
    assert_eq!(NonNegativeInterval::from_str("12.345e2").unwrap().as_millis(), 1_234_500);
    assert_eq!(NonNegativeInterval::from_str("1234e-4").unwrap().as_millis(), 123);
}

#[test]
fn huge_exponents_saturate_or_vanish() {
    assert_eq!(NonNegativeInterval::from_str("1e30").unwrap().as_millis(), u64::MAX);
    assert_eq!(
        NonNegativeInterval::from_str("1e99999999999999999999999").unwrap().as_millis(),
        u64::MAX
    );
    assert_eq!(NonNegativeInterval::from_str("1e-30").unwrap().as_millis(), 0);
    assert_eq!(
        NonNegativeInterval::from_str("1e-99999999999999999999999").unwrap().as_millis(),
        0
    );
    assert_eq!(
        NonNegativeInterval::from_str("0e99999999999999999999999").unwrap().as_millis(),
        0
    );
}

#[test]
fn malformed_exponents_are_not_a_number() {
    for bad in ["1e", "1e+", "1e-", "e3", ".e3", "-e3", "1e2.3", "1e5e2", "1ex"] {
        assert_eq!(
            NonNegativeInterval::from_str(bad),
            Err(ParseNonNegativeFloatError::NotANumber),
            "input {:?}",
            bad
        );
    }
}

#[test]
fn negative_exponent_forms_follow_the_mantissa_sign() {
    assert_eq!(
        NonNegativeInterval::from_str("-1e-9"),
        Err(ParseNonNegativeFloatError::Negative)
    );
    assert_eq!(NonNegativeInterval::from_str("-0e7").unwrap().as_millis(), 0);
    assert_eq!(NonNegativeInterval::from_str("-0.0e-2").unwrap().as_millis(), 0);
}

#[test]
fn oversized_values_saturate() {
    let v = NonNegativeInterval::from_str("99999999999999999999999999").unwrap();
    assert_eq!(v.as_millis(), u64::MAX);
}

#[test]
fn from_millis_round_trips() {
    let v = NonNegativeInterval::from_millis(1500);
    assert_eq!(v.as_millis(), 1500);
}

#[test]
fn error_messages() {
    assert_eq!(ParseNonNegativeFloatError::NotANumber.message(), "invalid float literal");
    assert_eq!(ParseNonNegativeFloatError::Negative.message(), "negative value");
}
