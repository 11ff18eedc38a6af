use diabot::a1c::{A1cEstimation, EstimationError};
use diabot::decimal::Decimal;
use diabot::glucose::Glucose;

fn assert_approx_eq(a: f64, b: f64) {
    assert_approx_eq_with_epsilon(a, b, 1e-3);
}

fn assert_approx_eq_with_epsilon(a: f64, b: f64, epsilon: f64) {
    assert!(
        (a - b).abs() < epsilon,
        "Assertion failed: {} is not approximately equal to {}",
        a,
        b
    )
}

fn dec(micros: i64) -> Decimal {
    Decimal { micros }
}

fn value_of(d: Decimal) -> f64 {
    d.micros as f64 / 1e6
}

#[test]
fn test_glucose_mgdl_to_dcct() {
    let glucose = Glucose::MgDl(100);
    let expected_dcct = 5.111;

    let mut est = A1cEstimation {
        glucose: Some(glucose),
        ifcc: None,
        dcct: None,
        fructosamine: None,
    };
    let actual_dcct = value_of(est.as_dcct_value().unwrap());

    assert_approx_eq(expected_dcct, actual_dcct);
}

#[test]
fn test_glucose_mmol_to_dcct() {
    let glucose = Glucose::Mmol(dec(5_600_000));
    // without intermediate rounding this would be 5.142
    let expected_dcct = 5.146;

    let mut est = A1cEstimation {
        glucose: Some(glucose),
        ifcc: None,
        dcct: None,
        fructosamine: None,
    };
    let actual_dcct = value_of(est.as_dcct_value().unwrap());

    assert_approx_eq(expected_dcct, actual_dcct);
}

#[test]
fn test_glucose_mgdl_to_ifcc() {
    let glucose = Glucose::MgDl(100);
    let expected = 32.366;

    let mut est = A1cEstimation {
        glucose: Some(glucose),
        ifcc: None,
        dcct: None,
        fructosamine: None,
    };
    let actual = value_of(est.as_ifcc_value().unwrap());

    assert_approx_eq(expected, actual);
}

#[test]
fn test_glucose_mmol_to_ifcc() {
    let glucose = Glucose::Mmol(dec(5_600_000));
    let expected = 32.747;

    let mut est = A1cEstimation {
        glucose: Some(glucose),
        ifcc: None,
        dcct: None,
        fructosamine: None,
    };
    let actual = value_of(est.as_ifcc_value().unwrap());

    assert_approx_eq(expected, actual);
}

#[test]
fn test_dcct_to_ifcc() {
    let dcct = dec(6_700_000);
    let expected = 49.727;

    let mut est = A1cEstimation {
        glucose: None,
        ifcc: None,
        dcct: Some(dcct),
        fructosamine: None,
    };
    let actual = value_of(est.as_ifcc_value().unwrap());

    assert_approx_eq(expected, actual);
}

#[test]
fn test_glucose_mgdl_to_fructosamine() {
    let glucose = Glucose::MgDl(100);
    let expected = 205.9586;

    let mut est = A1cEstimation {
        glucose: Some(glucose),
        ifcc: None,
        dcct: None,
        fructosamine: None,
    };
    let actual = value_of(est.as_fructosamine_value().unwrap());

    assert_approx_eq(expected, actual);
}

#[test]
fn test_glucose_mmol_to_fructosamine() {
    let glucose = Glucose::Mmol(dec(5_600_000));
    let expected = 208.008;

    let mut est = A1cEstimation {
        glucose: Some(glucose),
        ifcc: None,
        dcct: None,
        fructosamine: None,
    };
    let actual = value_of(est.as_fructosamine_value().unwrap());

    assert_approx_eq(expected, actual);
}

#[test]
fn test_calculate_dcct_without_input() {
    let mut est = A1cEstimation {
        glucose: None,
        ifcc: None,
        dcct: None,
        fructosamine: None,
    };
    assert_eq!(
        est.as_dcct_value().unwrap_err(),
        EstimationError::MissingInputValue("dcct".to_string(), "glucose, ifcc".to_string())
    );
}

#[test]
fn test_calculate_ifcc_without_input() {
    let mut est = A1cEstimation {
        glucose: None,
        ifcc: None,
        dcct: None,
        fructosamine: None,
    };
    assert_eq!(
        est.as_ifcc_value().unwrap_err(),
        EstimationError::MissingInputValue("ifcc".to_string(), "glucose, dcct".to_string())
    );
}

#[test]
fn test_calculate_fructosamine_without_input() {
    let mut est = A1cEstimation {
        glucose: None,
        ifcc: None,
        dcct: None,
        fructosamine: None,
    };
    assert_eq!(
        est.as_fructosamine_value().unwrap_err(),
        EstimationError::MissingInputValue("fructosamine".to_string(), "dcct, glucose".to_string())
    );
}

#[test]
fn test_memo_read_returns_cached_value() {
    // A populated field is returned as is, even with every other field
    // absent.
    let mut est = A1cEstimation {
        glucose: None,
        ifcc: None,
        dcct: Some(dec(6_700_000)),
        fructosamine: None,
    };
    assert_eq!(est.as_dcct_value().unwrap(), dec(6_700_000));
}

#[test]
fn test_pivot_is_cached_on_the_way_to_ifcc() {
    let mut est = A1cEstimation {
        glucose: Some(Glucose::MgDl(100)),
        ifcc: None,
        dcct: None,
        fructosamine: None,
    };
    let ifcc = est.as_ifcc_value().unwrap();
    // The pivot was derived once and cached alongside the answer.
    assert_eq!(est.dcct, Some(dec(5_111_498)));
    assert_eq!(est.ifcc, Some(ifcc));
    assert_eq!(ifcc, dec(32_366_212));
}

#[test]
fn test_pivot_order_does_not_change_ifcc() {
    // Asking for the pivot first, then IFCC, yields the same IFCC as
    // asking for IFCC directly.
    let start = A1cEstimation {
        glucose: Some(Glucose::MgDl(100)),
        ifcc: None,
        dcct: None,
        fructosamine: None,
    };
    let mut direct = start;
    let via_pivot_ifcc = {
        let mut e = start;
        e.as_dcct_value().unwrap();
        e.as_ifcc_value().unwrap()
    };
    assert_eq!(direct.as_ifcc_value().unwrap(), via_pivot_ifcc);
}

#[test]
fn test_fructosamine_exact_micros() {
    let mut est = A1cEstimation {
        glucose: Some(Glucose::MgDl(100)),
        ifcc: None,
        dcct: None,
        fructosamine: None,
    };
    assert_eq!(est.as_fructosamine_value().unwrap(), dec(205_958_112));
}

#[test]
fn test_dcct_from_ifcc_inverse() {
    // dcct = ifcc / 10.929 + 2.15: from 49.72695 back to about 6.7.
    let mut est = A1cEstimation {
        glucose: None,
        ifcc: Some(dec(49_726_950)),
        dcct: None,
        fructosamine: None,
    };
    let dcct = value_of(est.as_dcct_value().unwrap());
    assert_approx_eq(dcct, 6.7);
}

#[test]
fn test_fructosamine_needs_pivot_or_glucose() {
    // A lone IFCC does not supply fructosamine directly...
    let mut est = A1cEstimation {
        glucose: None,
        ifcc: Some(dec(49_726_950)),
        dcct: None,
        fructosamine: None,
    };
    assert_eq!(
        est.as_fructosamine_value().unwrap_err(),
        EstimationError::MissingInputValue("fructosamine".to_string(), "dcct, glucose".to_string())
    );
    // ...but once the pivot has been derived from it, it does.
    est.as_dcct_value().unwrap();
    let fructosamine = value_of(est.as_fructosamine_value().unwrap());
    assert_approx_eq(fructosamine, (6.7 - 1.61) * 58.82);
}
