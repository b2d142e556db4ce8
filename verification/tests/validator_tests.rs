use mock_service::config::ParamConfig;
use mock_service::errors::{MockError, ValidationError};
use mock_service::params::Params;
use mock_service::validator::{is_valid_date, is_valid_number, validate_parameters};

fn rule(param_type: &str, pattern: Option<&str>, required: Option<bool>) -> ParamConfig {
    ParamConfig {
        param_type: param_type.to_string(),
        pattern: pattern.map(|p| p.to_string()),
        required,
        default: None,
        description: None,
    }
}

fn params_of(pairs: &[(&str, &str)]) -> Params {
    let mut p = Params::new();
    for (k, v) in pairs {
        p.insert(k.to_string(), v.to_string());
    }
    p
}

#[test]
fn missing_required_param_is_reported() {
    let params = params_of(&[]);
    let rules = vec![("id".to_string(), rule("string", None, None))];
    match validate_parameters(&params, &rules) {
        Err(MockError::Validation(ValidationError::MissingParameter(name))) => {
            assert_eq!(name, "id");
        },
        other => panic!("expected a missing-parameter error, got {:?}", other),
    }
}

#[test]
fn optional_param_may_be_absent() {
    let params = params_of(&[]);
    let rules = vec![("note".to_string(), rule("string", None, Some(false)))];
    assert!(validate_parameters(&params, &rules).is_ok());
}

#[test]
fn regex_mismatch_is_reported() {
    let params = params_of(&[("id", "abc")]);
    let rules = vec![("id".to_string(), rule("string", Some("^[0-9]+$"), None))];
    match validate_parameters(&params, &rules) {
        Err(MockError::Validation(ValidationError::PatternMismatch(name))) => {
            assert_eq!(name, "id");
        },
        other => panic!("expected a pattern-mismatch error, got {:?}", other),
    }
}

#[test]
fn regex_match_passes() {
    let params = params_of(&[("id", "123")]);
    let rules = vec![("id".to_string(), rule("string", Some("^[0-9]+$"), None))];
    assert!(validate_parameters(&params, &rules).is_ok());
}

#[test]
fn uncompilable_rule_regex_is_invalid_input() {
    let params = params_of(&[("id", "123")]);
    let rules = vec![("id".to_string(), rule("string", Some("("), None))];
    match validate_parameters(&params, &rules) {
        Err(MockError::InvalidInput(_)) => {},
        other => panic!("expected an invalid-input error, got {:?}", other),
    }
}

#[test]
fn impossible_calendar_date_is_wrong_type() {
    let params = params_of(&[("day", "2024-02-30")]);
    let rules = vec![("day".to_string(), rule("date", None, None))];
    match validate_parameters(&params, &rules) {
        Err(MockError::Validation(ValidationError::InvalidType(name))) => {
            assert_eq!(name, "day");
        },
        other => panic!("expected a wrong-type error, got {:?}", other),
    }
}

#[test]
fn valid_dates_pass() {
    let params = params_of(&[("day", "2024-02-29")]);
    let rules = vec![("day".to_string(), rule("date", None, None))];
    assert!(validate_parameters(&params, &rules).is_ok());
}

#[test]
fn number_values_are_checked() {
    let ok = params_of(&[("n", "12.5")]);
    let bad = params_of(&[("n", "abc")]);
    let rules = vec![("n".to_string(), rule("number", None, None))];
    assert!(validate_parameters(&ok, &rules).is_ok());
    match validate_parameters(&bad, &rules) {
        Err(MockError::Validation(ValidationError::InvalidType(name))) => {
            assert_eq!(name, "n");
        },
        other => panic!("expected a wrong-type error, got {:?}", other),
    }
}

#[test]
fn unknown_type_tags_are_accepted() {
    let params = params_of(&[("x", "anything")]);
    let rules = vec![("x".to_string(), rule("uuid", None, None))];
    assert!(validate_parameters(&params, &rules).is_ok());
}

#[test]
fn validation_is_fail_fast_in_declaration_order() {
    let params = params_of(&[("b", "abc")]);
    let rules = vec![
        ("a".to_string(), rule("string", None, None)),
        ("b".to_string(), rule("number", None, None)),
    ];
    match validate_parameters(&params, &rules) {
        Err(MockError::Validation(ValidationError::MissingParameter(name))) => {
            assert_eq!(name, "a");
        },
        other => panic!("expected the first rule's error, got {:?}", other),
    }
}

#[test]
fn date_form_is_fixed_ten_characters() {
    assert!(is_valid_date("2024-05-01"));
    assert!(is_valid_date("2000-02-29"));
    assert!(!is_valid_date("2100-02-29"));
    assert!(!is_valid_date("2024-13-01"));
    assert!(!is_valid_date("2024-00-01"));
    assert!(!is_valid_date("2024-04-31"));
    assert!(!is_valid_date("2024-5-1"));
    assert!(!is_valid_date("24-05-01"));
    assert!(!is_valid_date("2024/05/01"));
    assert!(!is_valid_date(""));
}

#[test]
fn number_grammar_follows_float_parsing() {
    assert!(is_valid_number("12.5"));
    assert!(is_valid_number("-3"));
    assert!(is_valid_number("+0.5"));
    assert!(is_valid_number(".5"));
    assert!(is_valid_number("5."));
    assert!(is_valid_number("1e10"));
    assert!(is_valid_number("2.5E-3"));
    assert!(is_valid_number("inf"));
    assert!(is_valid_number("-Infinity"));
    assert!(is_valid_number("NaN"));
    assert!(!is_valid_number("abc"));
    assert!(!is_valid_number(""));
    assert!(!is_valid_number("."));
    assert!(!is_valid_number("1e"));
    assert!(!is_valid_number("1e+"));
    assert!(!is_valid_number("1.2.3"));
    assert!(!is_valid_number("12a"));
    // agreement with the standard library's parser on every case above
    for s in ["12.5", "-3", "+0.5", ".5", "5.", "1e10", "2.5E-3", "inf", "-Infinity", "NaN",
        "abc", "", ".", "1e", "1e+", "1.2.3", "12a"] {
        assert_eq!(is_valid_number(s), s.parse::<f64>().is_ok(), "disagreement on {:?}", s);
    }
}
