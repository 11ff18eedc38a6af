use std::str::FromStr;

use diabot::decimal::Decimal;
use diabot::glucose::{parse_glucose_input, Glucose, GlucoseUnit, ParseGlucoseError, ParsedGlucoseResult};

fn dec(micros: i64) -> Decimal {
    Decimal { micros }
}

fn assert_known_parsed(input: &str, expected: Glucose) {
    let parsed = ParsedGlucoseResult::from_str(input).unwrap();
    match parsed {
        ParsedGlucoseResult::Known(bs) => {
            assert_eq!(bs, expected);
        }
        _ => panic!("Expected Known variant for input: {}", input),
    }
}

fn assert_ambiguous_parsed(
    input: &str,
    expected_original: &str,
    expected_mmol: Glucose,
    expected_mgdl: Glucose,
) {
    let parsed = ParsedGlucoseResult::from_str(input).unwrap();
    match parsed {
        ParsedGlucoseResult::Ambiguous {
            original,
            as_mmol,
            as_mgdl,
        } => {
            assert_eq!(original, expected_original);
            assert_eq!(as_mmol, expected_mmol);
            assert_eq!(as_mgdl, expected_mgdl);
        }
        _ => panic!("Expected Ambiguous variant for input: {}", input),
    }
}

#[test]
fn parse_known_mmol() {
    assert_known_parsed("5.2 mmol", Glucose::Mmol(dec(5_200_000)));
}

#[test]
fn parse_known_mgdl() {
    assert_known_parsed("100 mg/dl", Glucose::MgDl(100));
}

#[test]
fn parse_unambiguous_mmol_no_unit() {
    assert_known_parsed("4.8", Glucose::Mmol(dec(4_800_000)));
}

#[test]
fn parse_unambiguous_mgdl_no_unit() {
    assert_known_parsed("180", Glucose::MgDl(180));
}

#[test]
fn parse_ambiguous_no_unit() {
    assert_ambiguous_parsed("35", "35", Glucose::Mmol(dec(35_000_000)), Glucose::MgDl(35));
}

#[test]
fn parse_unknown_unit() {
    let err = ParsedGlucoseResult::from_str("5.5 tests").unwrap_err();
    assert_eq!(err, ParseGlucoseError::UnknownUnit("tests".into()));
}

#[test]
fn test_case_insensitive_and_alias_units() {
    let test_cases = [
        ("6.3 MMOL/L", Glucose::Mmol(dec(6_300_000))),
        ("6.3 mmol", Glucose::Mmol(dec(6_300_000))),
        ("6.3MMOL", Glucose::Mmol(dec(6_300_000))),
        ("115 MG/dl", Glucose::MgDl(115)),
        ("115 mgdl", Glucose::MgDl(115)),
        ("115 mg", Glucose::MgDl(115)),
        ("115mgdl", Glucose::MgDl(115)),
    ];

    for (input, expected) in test_cases {
        let parsed = ParsedGlucoseResult::from_str(input).unwrap();
        match parsed {
            ParsedGlucoseResult::Known(bs) => {
                assert_eq!(bs, expected, "Failed on input: {}", input);
            }
            _ => panic!("Expected Known variant for input: {}", input),
        }
    }
}

#[test]
fn parse_negative_and_zero_inputs() {
    assert_known_parsed("0 mmol", Glucose::Mmol(dec(0)));
    assert_known_parsed("-5 mg/dl", Glucose::MgDl(-5));
    assert_known_parsed("-5.5 mmol", Glucose::Mmol(dec(-5_500_000)));
}

#[test]
fn parse_large_value_input() {
    assert_known_parsed("9999 mgdl", Glucose::MgDl(9999));
    assert_known_parsed("-9999 mmol", Glucose::Mmol(dec(-9_999_000_000)));

    let err = ParsedGlucoseResult::from_str("10000 mgdl").unwrap_err();
    assert_eq!(err, ParseGlucoseError::OutOfRange("10000 mgdl".into()));

    let err = ParsedGlucoseResult::from_str("-10000 mmol").unwrap_err();
    assert_eq!(err, ParseGlucoseError::OutOfRange("-10000 mmol".into()));
}

#[test]
fn parse_input_with_typos_or_spacing_errors() {
    let err = ParsedGlucoseResult::from_str("5.5 mmoll").unwrap_err();
    assert_eq!(err, ParseGlucoseError::UnknownUnit("mmoll".into()));

    let err = ParsedGlucoseResult::from_str("5.5 mmol / L ").unwrap_err();
    assert_eq!(err, ParseGlucoseError::UnknownUnit("mmol / l".into()));
}

#[test]
fn test_parse_glucose_input() {
    let cases = [
        ("5.5 mmol", (5_500_000, Some("mmol"))),
        ("5.5mmol/l", (5_500_000, Some("mmol/l"))),
        ("5.5mmol/L", (5_500_000, Some("mmol/l"))),
        ("5.5 mmol/L", (5_500_000, Some("mmol/l"))),
        ("180mg/dl", (180_000_000, Some("mg/dl"))),
        ("180 mg/dl", (180_000_000, Some("mg/dl"))),
        ("180mgdl", (180_000_000, Some("mgdl"))),
        ("180 mg", (180_000_000, Some("mg"))),
        ("180 MG/DL", (180_000_000, Some("mg/dl"))),
        ("180 randomunit", (180_000_000, Some("randomunit"))),
        ("180 Random Unit", (180_000_000, Some("random unit"))),
        ("5.5", (5_500_000, None)),
        ("180", (180_000_000, None)),
    ];

    for (input, expected) in cases {
        let parsed = parse_glucose_input(input, None).unwrap();
        assert_eq!(
            parsed,
            (dec(expected.0), expected.1.map(|s| s.to_string())),
            "Failed on input: {}",
            input
        );
    }
}

#[test]
fn test_parse_with_extra_spaces() {
    assert_eq!(
        parse_glucose_input("  7.1   mmol/L ", None).unwrap(),
        (dec(7_100_000), Some("mmol/l".to_string()))
    );
}

#[test]
fn test_parse_invalid_number() {
    assert_eq!(
        parse_glucose_input("abc mg/dl", None).unwrap_err(),
        ParseGlucoseError::InvalidNumber("abc mg/dl".into())
    );

    assert_eq!(
        parse_glucose_input("abc", None).unwrap_err(),
        ParseGlucoseError::InvalidNumber("abc".into())
    );
}

#[test]
fn test_parse_empty_input() {
    assert_eq!(
        parse_glucose_input("", None).unwrap_err(),
        ParseGlucoseError::EmptyInput
    );
}

#[test]
fn test_ambiguity_band_boundaries() {
    // Strictly below 25: a mmol/L reading; 25 and 50 inclusive:
    // ambiguous; strictly above 50: an mg/dL reading.
    assert_known_parsed("24.999", Glucose::Mmol(dec(24_999_000)));
    assert_ambiguous_parsed("25.0", "25.0", Glucose::Mmol(dec(25_000_000)), Glucose::MgDl(25));
    assert_ambiguous_parsed("50.0", "50.0", Glucose::Mmol(dec(50_000_000)), Glucose::MgDl(50));
    assert_known_parsed("50.001", Glucose::MgDl(50));
}

#[test]
fn test_bare_mg_alias() {
    assert_known_parsed("100 mg", Glucose::MgDl(100));
}

#[test]
fn test_bare_forty_is_ambiguous() {
    // 40 lies inside the 25..=50 band, so a bare "40" is reported in
    // both units rather than guessed.
    assert_ambiguous_parsed("40", "40", Glucose::Mmol(dec(40_000_000)), Glucose::MgDl(40));
}

#[test]
fn test_comma_decimal_separator() {
    // "5,5 mmol" parses identically to "5.5 mmol".
    assert_eq!(
        ParsedGlucoseResult::from_str("5,5 mmol").unwrap(),
        ParsedGlucoseResult::from_str("5.5 mmol").unwrap()
    );
    assert_known_parsed("5,5 mmol", Glucose::Mmol(dec(5_500_000)));
}

#[test]
fn test_explicit_unit_overrides_embedded() {
    // The unit parameter wins over a unit embedded in the string.
    let parsed = ParsedGlucoseResult::parse("100 mmol", Some("mg/dL")).unwrap();
    assert_eq!(parsed, ParsedGlucoseResult::Known(Glucose::MgDl(100)));

    let name = GlucoseUnit::Mmol.name();
    let parsed = ParsedGlucoseResult::parse("100 mgdl", Some(&name)).unwrap();
    assert_eq!(parsed, ParsedGlucoseResult::Known(Glucose::Mmol(dec(100_000_000))));
}

#[test]
fn test_empty_unit_parameter_means_no_unit() {
    let parsed = ParsedGlucoseResult::parse("40", Some("")).unwrap();
    assert!(matches!(parsed, ParsedGlucoseResult::Ambiguous { .. }));
}

#[test]
fn test_end_to_end_mmol_reading() {
    // "5.7mmol" is 5.7 mmol/L, which converts to 103 mg/dL.
    let parsed = ParsedGlucoseResult::from_str("5.7mmol").unwrap();
    let reading = match parsed {
        ParsedGlucoseResult::Known(g) => g,
        _ => panic!("Expected Known variant"),
    };
    assert_eq!(reading, Glucose::Mmol(dec(5_700_000)));
    assert_eq!(reading.convert(), Glucose::MgDl(103));
}

#[test]
fn test_bare_point_number_forms() {
    // The same forms the numeric grammar accepts for a float: a bare
    // leading or trailing decimal point is fine, a lone sign is not.
    assert_known_parsed(".5", Glucose::Mmol(dec(500_000)));
    assert_known_parsed("5.", Glucose::Mmol(dec(5_000_000)));
    assert_known_parsed("-.5", Glucose::Mmol(dec(-500_000)));
    assert_eq!(
        parse_glucose_input("-", None).unwrap_err(),
        ParseGlucoseError::InvalidNumber("-".into())
    );
    assert_eq!(
        parse_glucose_input("5-5", None).unwrap_err(),
        ParseGlucoseError::InvalidNumber("5-5".into())
    );
    assert_eq!(
        parse_glucose_input("1.2.3", None).unwrap_err(),
        ParseGlucoseError::InvalidNumber("1.2.3".into())
    );
}

#[test]
fn test_whitespace_only_is_empty() {
    assert_eq!(
        parse_glucose_input("   ", None).unwrap_err(),
        ParseGlucoseError::EmptyInput
    );
    assert_eq!(
        parse_glucose_input("\t\n", None).unwrap_err(),
        ParseGlucoseError::EmptyInput
    );
}

#[test]
fn test_unicode_whitespace_trimmed() {
    // No-break space and ideographic space count as white space.
    assert_known_parsed("\u{A0}5.5 mmol\u{3000}", Glucose::Mmol(dec(5_500_000)));
}

#[test]
fn test_invalid_number_payload_is_normalised() {
    // The reported text is the trimmed input with commas already
    // replaced by points.
    assert_eq!(
        parse_glucose_input(" abc,def ", None).unwrap_err(),
        ParseGlucoseError::InvalidNumber("abc.def".into())
    );
}

#[test]
fn test_fraction_rounds_to_millionths() {
    // The seventh fractional digit rounds the sixth.
    let (d, _) = parse_glucose_input("5.5555555", None).unwrap();
    assert_eq!(d, dec(5_555_556));
    let (d, _) = parse_glucose_input("5.5555554", None).unwrap();
    assert_eq!(d, dec(5_555_555));
}
