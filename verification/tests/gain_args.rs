use soundcheck::gain::linear_gain_validator;

#[test]
fn gains_in_range_are_accepted() {
    for ok in ["0", "1", "0.5", "1.0", "0.0", ".5", "1.", "1.000", "+0.7", "0.999999"] {
        assert!(linear_gain_validator(ok.to_string()).is_ok(), "{ok} should be accepted");
    }
}

#[test]
fn exponent_gains_in_range_are_accepted() {
    for ok in ["1e-1", "1E0", "1e0", "0e5", "10e-1", "2e-1", "5e-2", "0.5e0", "2.5e-1", "1e+0",
        ".5e-1", "25e-3", "1e-1000"]
    {
        assert!(linear_gain_validator(ok.to_string()).is_ok(), "{ok} should be accepted");
    }
}

#[test]
fn negative_zero_is_accepted() {
    for ok in ["-0", "-0.0", "-.0", "-0.000", "-0e3", "-0.0E-2"] {
        assert!(linear_gain_validator(ok.to_string()).is_ok(), "{ok} should be accepted");
    }
}

#[test]
fn gains_out_of_range_are_rejected() {
    for bad in ["1.1", "2", "10", "1.0000001", "-0.1", "-1", "1e1", "2e0", "11e-1", "1.5e0",
        ".5e1", "1e1000", "-1e-1"]
    {
        assert!(linear_gain_validator(bad.to_string()).is_err(), "{bad} should be rejected");
    }
}

#[test]
fn malformed_gains_are_rejected() {
    for bad in ["", ".", "-", "+", "abc", "0..5", "0.5.5", " 0.5", "0.5 ", "0,5", "1e", "1e+",
        "1e-", "e5", ".e5", "1e5e5", "1e1.5", "+-1"]
    {
        assert!(linear_gain_validator(bad.to_string()).is_err(), "{bad} should be rejected");
    }
}

#[test]
fn float_rounding_slack_is_refused() {
    // Validation is by the exact rational value, deliberately: these
    // numerals lie outside [0, 1] and are refused, although rounding to
    // an f32 would pull each of them into range (to -0.0 or to 1.0).
    for slack in ["-1e-60", "1.00000000000000000001", "1.00000005", "10000000.5e-7"] {
        assert!(linear_gain_validator(slack.to_string()).is_err(), "{slack} should be rejected");
    }
}

#[test]
fn rejection_carries_the_range_message() {
    let err = linear_gain_validator("2".to_string()).unwrap_err();
    assert_eq!(err, "Gain must be a float between 0.0 and 1.0");
}
