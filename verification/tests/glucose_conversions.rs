use diabot::decimal::Decimal;
use diabot::glucose::{Glucose, GlucoseUnit};

/// A helper function for comparing values with a small tolerance, as the
/// original readings are one-decimal quantities.
fn assert_approx_eq(a: f64, b: f64) {
    let epsilon = 1e-3;
    assert!(
        (a - b).abs() < epsilon,
        "Assertion failed: {} is not approximately equal to {}",
        a,
        b,
    );
}

fn dec(micros: i64) -> Decimal {
    Decimal { micros }
}

#[test]
fn test_mgdl_to_mmol() {
    let mgdl = Glucose::MgDl(100);
    let expected_mmol_val = 5.5507;

    if let Glucose::Mmol(val) = mgdl.to_mmol() {
        assert_approx_eq(val.micros as f64 / 1e6, expected_mmol_val);
    } else {
        panic!("Expected Glucose::Mmol");
    }
}

#[test]
fn test_mmol_to_mgdl() {
    let mmol = Glucose::Mmol(dec(5_500_000));
    let expected_mgdl_val = 99;

    assert_eq!(mmol.to_mgdl(), Glucose::MgDl(99));
    assert_eq!(expected_mgdl_val, 99);
}

#[test]
fn test_rounding_mmol_to_mgdl() {
    // This value (100 / 18.015588) is ~5.5507, which should round up to 100 mg/dL
    let mmol = Glucose::Mmol(dec(5_550_700));
    assert_eq!(mmol.to_mgdl(), Glucose::MgDl(100));
}

#[test]
fn test_idempotent_conversions() {
    // Calling a conversion on a value that is already in the target unit
    // should not change it.
    let mgdl = Glucose::MgDl(120);
    assert_eq!(mgdl.to_mgdl(), mgdl);

    let mmol = Glucose::Mmol(dec(6_700_000));
    assert_eq!(mmol.to_mmol(), mmol);
}

#[test]
fn test_general_convert_toggle() {
    let mgdl = Glucose::MgDl(150);
    let mmol = Glucose::Mmol(dec(8_300_000));

    // Converting from mg/dL should yield mmol/L
    assert!(matches!(mgdl.convert(), Glucose::Mmol(_)));

    // Converting from mmol/L should yield mg/dL
    assert!(matches!(mmol.convert(), Glucose::MgDl(_)));
}

#[test]
fn test_double_conversion_mgdl() {
    // Test if converting back and forth results in the original value.
    let original = Glucose::MgDl(125);
    let converted_back = original.convert().convert(); // MgDl -> Mmol -> MgDl

    assert_eq!(original, converted_back);
}

#[test]
fn test_display_mgdl() {
    let glucose = Glucose::MgDl(120);
    assert_eq!(glucose.display(), "120 mg/dL");
}

#[test]
fn test_display_mmol() {
    let glucose = Glucose::Mmol(dec(6_400_000));
    assert_eq!(glucose.display(), "6.4 mmol/L");
}

#[test]
fn test_display_mmol_rounding() {
    let glucose = Glucose::Mmol(dec(5_678_340));
    // Should round to 1 decimal place
    assert_eq!(glucose.display(), "5.7 mmol/L");
}

#[test]
fn test_display_mmol_trailing_zero() {
    let glucose = Glucose::Mmol(dec(7_000_000));
    // Should include one decimal place
    assert_eq!(glucose.display(), "7.0 mmol/L");
}

#[test]
fn test_round_trip_many_counts() {
    // mg/dL -> mmol/L -> mg/dL reproduces the count exactly.
    for m in [-9999, -125, -1, 0, 1, 40, 55, 99, 100, 125, 180, 9999, 180156] {
        let original = Glucose::MgDl(m);
        assert_eq!(original.convert().convert(), original, "failed for {}", m);
    }
}

#[test]
fn test_display_negative_values() {
    assert_eq!(Glucose::MgDl(-5).display(), "-5 mg/dL");
    assert_eq!(Glucose::Mmol(dec(-5_500_000)).display(), "-5.5 mmol/L");
    assert_eq!(Glucose::Mmol(dec(0)).display(), "0.0 mmol/L");
}

#[test]
fn test_display_tie_rounds_away_from_zero() {
    // 5.75 sits exactly between 5.7 and 5.8: the display rounds away
    // from zero.
    assert_eq!(Glucose::Mmol(dec(5_750_000)).display(), "5.8 mmol/L");
    assert_eq!(Glucose::Mmol(dec(-5_750_000)).display(), "-5.8 mmol/L");
}

#[test]
fn test_as_mgdl_value() {
    assert_eq!(Glucose::MgDl(100).as_mgdl_value(), 100);
    assert_eq!(Glucose::Mmol(dec(5_600_000)).as_mgdl_value(), 101);
}

#[test]
fn test_unit_names() {
    assert_eq!(GlucoseUnit::Mgdl.name(), "mg/dL");
    assert_eq!(GlucoseUnit::Mmol.name(), "mmol/L");
}
