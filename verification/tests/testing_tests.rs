use hemmer_provider_sdk::schema::Diagnostic;
use hemmer_provider_sdk::testing::{
    assert_error_contains, assert_has_errors, assert_no_errors, assert_plan_changes_attribute,
    assert_plan_creates, assert_plan_does_not_change_attribute, assert_plan_has_changes,
    assert_plan_no_changes, assert_plan_replaces, assert_plan_updates_in_place,
    check_diagnostics, find_error_with, plan_changes_path, unexpected_errors_message, TestError,
};
use hemmer_provider_sdk::{AttributeChange, JsonValue, PlanResult, ProviderError};

#[test]
fn test_assert_no_errors() {
    let diagnostics = vec![Diagnostic::warning("Just a warning")];
    assert_no_errors(&diagnostics);
}

#[test]
#[should_panic(expected = "Expected no errors")]
fn test_assert_no_errors_fails() {
    let diagnostics = vec![Diagnostic::error("An error")];
    assert_no_errors(&diagnostics);
}

#[test]
fn test_assert_has_errors() {
    let diagnostics = vec![Diagnostic::error("An error")];
    assert_has_errors(&diagnostics);
}

#[test]
fn test_assert_error_contains() {
    let diagnostics = vec![Diagnostic::error("Invalid configuration value")];
    assert_error_contains(&diagnostics, "Invalid");
    assert_error_contains(&diagnostics, "configuration");
}

#[test]
fn test_test_error_display() {
    let err = TestError::Diagnostics(vec![
        Diagnostic::error("First error").with_attribute("field1"),
        Diagnostic::error("Second error").with_detail("More info"),
    ]);

    let display = format!("{}", err.to_string());
    assert!(display.contains("First error"));
    assert!(display.contains("Second error"));
    assert!(display.contains("field1"));
    assert!(display.contains("More info"));
}

#[test]
fn test_error_text_is_exact() {
    let err = TestError::Diagnostics(vec![
        Diagnostic::error("First error").with_attribute("field1"),
        Diagnostic::warning("Second").with_detail("More info").with_attribute("f2"),
        Diagnostic::error("Third"),
    ]);
    assert_eq!(
        err.to_string(),
        "Operation failed with 3 diagnostic(s):\n  [Error] First error (at field1)\n  [Warning] Second: More info (at f2)\n  [Error] Third\n"
    );
    let err: TestError = ProviderError::NotFound("x".to_string()).into();
    assert_eq!(err.to_string(), "Provider error: Resource not found: x");
}

#[test]
fn check_diagnostics_keeps_the_errors() {
    assert!(check_diagnostics(vec![]).is_ok());
    assert!(check_diagnostics(vec![Diagnostic::warning("w")]).is_ok());
    let result = check_diagnostics(vec![
        Diagnostic::warning("w"),
        Diagnostic::error("e1").with_detail("d"),
        Diagnostic::warning("w2"),
        Diagnostic::error("e2"),
    ]);
    match result {
        Err(TestError::Diagnostics(errors)) => {
            assert_eq!(
                errors,
                vec![Diagnostic::error("e1").with_detail("d"), Diagnostic::error("e2")]
            );
        }
        _ => panic!("the errors were lost"),
    }
}

#[test]
fn plan_assertions_hold_on_fitting_plans() {
    let created = PlanResult::with_changes(
        JsonValue::Null,
        vec![AttributeChange::added("id", JsonValue::text("generated-id"))],
        false,
    );
    assert_plan_creates(&created);
    assert_plan_has_changes(&created);
    assert_plan_updates_in_place(&created);
    assert_plan_changes_attribute(&created, "id");
    assert_plan_does_not_change_attribute(&created, "name");
    assert!(plan_changes_path(&created, "id"));
    assert!(!plan_changes_path(&created, "i"));

    assert_plan_no_changes(&PlanResult::no_change(JsonValue::Null));
    assert_plan_replaces(&PlanResult::with_changes(JsonValue::Null, vec![], true));
}

#[test]
fn errors_are_found_by_a_part_of_their_summary() {
    let diagnostics = vec![
        Diagnostic::warning("Invalid but only a warning"),
        Diagnostic::error("Missing value"),
    ];
    assert!(find_error_with(&diagnostics, "Missing"));
    assert!(find_error_with(&diagnostics, "value"));
    assert!(find_error_with(&diagnostics, ""));
    assert!(!find_error_with(&diagnostics, "Invalid"));
    assert!(!find_error_with(&diagnostics, "missing"));
    assert!(!find_error_with(&[], ""));
}

#[test]
fn unexpected_errors_are_listed_by_their_summaries() {
    let diagnostics = vec![
        Diagnostic::error("An error"),
        Diagnostic::warning("A warning"),
        Diagnostic::error("An \"other\" one"),
    ];
    assert_eq!(
        unexpected_errors_message(&diagnostics),
        "Expected no errors, but got 2 error(s): [\"An error\", \"An \\\"other\\\" one\"]"
    );
}
