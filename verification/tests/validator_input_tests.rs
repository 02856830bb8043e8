use mdbook_validator::assertions::AssertionRunner;
use mdbook_validator::host_validator;

const SQLITE_VALIDATOR: &str = "validators/validate-sqlite.sh";

/// Run the validator with given JSON input and assertions.
/// Returns (`exit_code`, stdout, stderr).
fn run_validator_with_input(json_input: &str, assertions: Option<&str>) -> (i32, String, String) {
    let runner = AssertionRunner;
    let result = host_validator::run_validator(
        &runner,
        SQLITE_VALIDATOR,
        json_input,
        assertions,
        None,
        None,
    )
    .expect("validator should run");
    (result.exit_code, result.stdout, result.stderr)
}

// =============================================================================
// Invalid assertion syntax tests
// =============================================================================

#[test]
fn test_rows_non_numeric_value_rejected() {
    // rows = abc should fail with "invalid integer" error
    let (exit_code, _stdout, stderr) = run_validator_with_input("[]", Some("rows = abc"));

    assert_eq!(exit_code, 1, "should exit with code 1 for invalid integer");
    assert!(
        stderr.contains("invalid integer"),
        "stderr should contain 'invalid integer': {stderr}"
    );
}

#[test]
fn test_rows_empty_value_treated_as_unknown_syntax() {
    // "rows = " (with trailing space, no value) gets trimmed to "rows ="
    let (exit_code, _stdout, stderr) = run_validator_with_input("[]", Some("rows = "));

    assert_eq!(
        exit_code, 1,
        "should exit with code 1 for malformed assertion"
    );
    assert!(
        stderr.contains("Unknown assertion syntax"),
        "stderr should contain 'Unknown assertion syntax': {stderr}"
    );
}

#[test]
fn test_unknown_assertion_rejected() {
    // Completely unknown assertion type should be rejected
    let (exit_code, _stdout, stderr) = run_validator_with_input("[]", Some("foobar = 123"));

    assert_eq!(
        exit_code, 1,
        "should exit with code 1 for unknown assertion"
    );
    assert!(
        stderr.contains("Unknown assertion syntax"),
        "stderr should contain 'Unknown assertion syntax': {stderr}"
    );
}

// =============================================================================
// Empty/malformed JSON tests
// =============================================================================

#[test]
fn test_empty_string_json_passes_without_assertions() {
    let (exit_code, _stdout, _stderr) = run_validator_with_input("", None);

    assert_eq!(
        exit_code, 0,
        "empty input with no assertions should pass"
    );
}

#[test]
fn test_null_json_row_count_works() {
    // null is treated as an empty array for row counting
    let (exit_code, _stdout, _stderr) = run_validator_with_input("null", Some("rows = 0"));

    assert_eq!(exit_code, 0, "null JSON with rows = 0 should pass");
}

// =============================================================================
// Edge case tests
// =============================================================================

#[test]
fn test_negative_row_count_fails_comparison() {
    // negative numbers are integers, but no output has a negative number of rows
    let (exit_code, _stdout, stderr) = run_validator_with_input("[]", Some("rows = -5"));

    assert_eq!(
        exit_code, 1,
        "should exit with code 1 (0 rows != -5 expected)"
    );
    assert!(
        stderr.contains("got 0"),
        "stderr should show actual count: {stderr}"
    );
}

#[test]
fn test_contains_empty_string_always_matches() {
    // Every string contains the empty string, so this should pass
    let (exit_code, _stdout, _stderr) =
        run_validator_with_input(r#"[{"x": "test"}]"#, Some(r#"contains """#));

    assert_eq!(exit_code, 0, "contains empty string should always match");
}

#[test]
fn test_contains_with_quotes_in_value() {
    let (exit_code, _stdout, _stderr) = run_validator_with_input(
        r#"[{"msg": "say \"hello\" to the world"}]"#,
        Some(r#"contains "hello""#),
    );

    assert_eq!(
        exit_code, 0,
        "should find substring even with quotes in value"
    );
}

#[test]
fn test_multiple_assertions_first_fails() {
    // When multiple assertions are provided and the first one fails,
    // the check fails fast with the first error
    let assertions = "rows = abc\ncontains \"test\"";
    let (exit_code, _stdout, stderr) = run_validator_with_input("[]", Some(assertions));

    assert_eq!(exit_code, 1, "should fail on first bad assertion");
    assert!(
        stderr.contains("invalid integer"),
        "stderr should show first assertion failure: {stderr}"
    );
}
