//! Helpers for the tests of a provider: the check that diagnostics hold no
//! error, and assertions about plans and diagnostics.
//!
//! An assertion panics where it does not hold. Verified code may call one
//! only where it holds: that is its `requires`.

use vstd::prelude::*;
use vstd::std_specs::convert::FromSpecImpl;
use vstd::string::StringExecFns;
use crate::error::ProviderError;
use crate::schema::{diagnostic_views, Diagnostic, DiagnosticSeverity, DiagnosticView};
use crate::text::{concat3, decimal, decimal_text};
use crate::types::{change_views, ChangeView, PlanResult};

verus! {

/// `Option::expect`: returns on `Some`, and panics with `message` on `None`,
/// which the `requires` leaves out.
#[verifier::external_body]
fn expect_some(reached: Option<()>, message: &str)
    requires
        reached is Some,
{
    reached.expect(message)
}

/// What `format!` writes for `items` under `{:?}`: the list in square
/// brackets, each string in double quotes and escaped.
pub uninterp spec fn debug_text(items: Seq<Seq<char>>) -> Seq<char>;

/// `format!` of a list of strings under `{:?}`.
#[verifier::external_body]
fn debug_list(items: &Vec<String>) -> (text: String)
    ensures
        text@ == debug_text(Seq::new(items@.len(), |i: int| items@[i]@)),
{
    format!("{:?}", items)
}

/// Whether `pattern` occurs in `text`: at some place the characters of
/// `text` are those of `pattern`.
pub open spec fn occurs_in(pattern: Seq<char>, text: Seq<char>) -> bool {
    exists|at: int|
        0 <= at && at + pattern.len() <= text.len() && #[trigger] text.subrange(
            at,
            at + pattern.len(),
        ) == pattern
}

/// `str::contains` with a string as the pattern: whether the pattern
/// matches a part of the string.
#[verifier::external_body]
fn str_contains(text: &str, pattern: &str) -> (found: bool)
    ensures
        found == occurs_in(pattern@, text@),
{
    text.contains(pattern)
}

/// Why an operation on a provider under test failed.
#[derive(Debug)]
pub enum TestError {
    /// The operation gave these error diagnostics.
    Diagnostics(Vec<Diagnostic>),
    /// The provider failed.
    Provider(ProviderError),
}

/// The name of a severity, as `{:?}` writes it.
pub open spec fn severity_name(severity: DiagnosticSeverity) -> Seq<char> {
    match severity {
        DiagnosticSeverity::Error => "Error"@,
        DiagnosticSeverity::Warning => "Warning"@,
    }
}

/// The line that reports `diagnostic`: its severity in square brackets and
/// its summary, then its detail after a colon and its attribute in round
/// brackets where it has them, and the end of the line.
pub open spec fn diagnostic_line(diagnostic: DiagnosticView) -> Seq<char> {
    "  ["@ + severity_name(diagnostic.severity) + "] "@ + diagnostic.summary + (match diagnostic.detail {
        Some(detail) => ": "@ + detail,
        None => Seq::empty(),
    }) + (match diagnostic.attribute {
        Some(attribute) => " (at "@ + attribute + ")"@,
        None => Seq::empty(),
    }) + "\n"@
}

/// The lines that report the first `count` of `diagnostics`.
pub open spec fn diagnostic_lines(diagnostics: Seq<DiagnosticView>, count: nat) -> Seq<char>
    decreases count,
{
    if count == 0 || count > diagnostics.len() {
        Seq::empty()
    } else {
        diagnostic_lines(diagnostics, (count - 1) as nat) + diagnostic_line(
            diagnostics[count - 1],
        )
    }
}

impl TestError {
    /// The text of the failure: the number of the diagnostics and a line
    /// for each, or the text of the provider's failure.
    pub open spec fn text(self) -> Seq<char> {
        match self {
            TestError::Diagnostics(diagnostics) => "Operation failed with "@ + decimal(
                diagnostics@.len(),
            ) + " diagnostic(s):\n"@ + diagnostic_lines(
                diagnostic_views(diagnostics@),
                diagnostics@.len(),
            ),
            TestError::Provider(failure) => "Provider error: "@ + failure.text(),
        }
    }

    /// The text of the failure.
    pub fn to_string(&self) -> (text: String)
        ensures
            text@ == self.text(),
    {
        match self {
            TestError::Diagnostics(diagnostics) => {
                let mut text = concat3(
                    "Operation failed with ",
                    decimal_text(diagnostics.len() as u64).as_str(),
                    " diagnostic(s):\n",
                );
                let ghost head = text@;
                let mut i: usize = 0;
                while i < diagnostics.len()
                    invariant
                        i <= diagnostics.len(),
                        text@ == head + diagnostic_lines(diagnostic_views(diagnostics@), i as nat),
                    decreases diagnostics.len() - i,
                {
                    let diagnostic = &diagnostics[i];
                    let ghost before = text@;
                    text.append("  [");
                    match diagnostic.severity {
                        DiagnosticSeverity::Error => text.append("Error"),
                        DiagnosticSeverity::Warning => text.append("Warning"),
                    }
                    text.append("] ");
                    text.append(diagnostic.summary.as_str());
                    match &diagnostic.detail {
                        Some(detail) => {
                            text.append(": ");
                            text.append(detail.as_str());
                        },
                        None => {},
                    }
                    match &diagnostic.attribute {
                        Some(attribute) => {
                            text.append(" (at ");
                            text.append(attribute.as_str());
                            text.append(")");
                        },
                        None => {},
                    }
                    text.append("\n");
                    assert(text@ =~= before + diagnostic_line(diagnostic@));
                    i += 1;
                    assert(text@ =~= head + diagnostic_lines(
                        diagnostic_views(diagnostics@),
                        i as nat,
                    ));
                }
                text
            },
            TestError::Provider(failure) => {
                let mut text = String::from_str("Provider error: ");
                text.append(failure.to_string().as_str());
                text
            },
        }
    }
}

impl From<ProviderError> for TestError {
    fn from(failure: ProviderError) -> (error: TestError) {
        TestError::Provider(failure)
    }
}

impl FromSpecImpl<ProviderError> for TestError {
    open spec fn obeys_from_spec() -> bool {
        true
    }

    open spec fn from_spec(failure: ProviderError) -> TestError {
        TestError::Provider(failure)
    }
}

/// The errors among the first `count` of `diagnostics`, in their order.
pub open spec fn errors_among(diagnostics: Seq<DiagnosticView>, count: nat) -> Seq<DiagnosticView>
    decreases count,
{
    if count == 0 || count > diagnostics.len() {
        Seq::empty()
    } else {
        let rest = errors_among(diagnostics, (count - 1) as nat);
        if diagnostics[count - 1].severity == DiagnosticSeverity::Error {
            rest.push(diagnostics[count - 1])
        } else {
            rest
        }
    }
}

/// The errors among `diagnostics`, in their order.
pub open spec fn errors_of(diagnostics: Seq<Diagnostic>) -> Seq<DiagnosticView> {
    errors_among(diagnostic_views(diagnostics), diagnostics.len())
}

/// Copies of the errors among `diagnostics`.
fn collect_errors(diagnostics: &[Diagnostic]) -> (errors: Vec<Diagnostic>)
    ensures
        diagnostic_views(errors@) == errors_of(diagnostics@),
{
    let mut errors: Vec<Diagnostic> = Vec::new();
    let mut i: usize = 0;
    assert(diagnostic_views(errors@) =~= Seq::<DiagnosticView>::empty());
    while i < diagnostics.len()
        invariant
            i <= diagnostics.len(),
            diagnostic_views(errors@) == errors_among(diagnostic_views(diagnostics@), i as nat),
        decreases diagnostics.len() - i,
    {
        let ghost before = diagnostic_views(errors@);
        if diagnostics[i].is_error() {
            errors.push(diagnostics[i].clone());
            assert(diagnostic_views(errors@) =~= before.push(diagnostics@[i as int]@));
        }
        i += 1;
    }
    errors
}

/// `Ok` where `diagnostics` hold no error, else the errors among them.
/// Warnings do not fail a check.
pub fn check_diagnostics(diagnostics: Vec<Diagnostic>) -> (result: Result<(), TestError>)
    ensures
        match result {
            Ok(_) => errors_of(diagnostics@).len() == 0,
            Err(error) => error matches TestError::Diagnostics(errors) && errors@.len() > 0
                && diagnostic_views(errors@) == errors_of(diagnostics@),
        },
{
    let errors = collect_errors(diagnostics.as_slice());
    if errors.len() == 0 {
        Ok(())
    } else {
        Err(TestError::Diagnostics(errors))
    }
}

/// The summaries of `diagnostics`.
fn summaries_of(diagnostics: &Vec<Diagnostic>) -> (summaries: Vec<String>)
    ensures
        summaries@.len() == diagnostics@.len(),
        forall|i: int| 0 <= i < diagnostics@.len() ==> (#[trigger] summaries@[i])@ == diagnostics@[i].summary@,
{
    let mut summaries: Vec<String> = Vec::new();
    let mut i: usize = 0;
    while i < diagnostics.len()
        invariant
            i <= diagnostics.len(),
            summaries.len() == i,
            forall|k: int| 0 <= k < i ==> (#[trigger] summaries@[k])@ == diagnostics@[k].summary@,
        decreases diagnostics.len() - i,
    {
        summaries.push(diagnostics[i].summary.clone());
        i += 1;
    }
    summaries
}

/// The paths of the changes of `plan`.
fn changed_paths(plan: &PlanResult) -> (paths: Vec<String>)
    ensures
        paths@.len() == plan.changes@.len(),
        forall|i: int| 0 <= i < plan.changes@.len() ==> (#[trigger] paths@[i])@ == plan.changes@[i].path@,
{
    let mut paths: Vec<String> = Vec::new();
    let mut i: usize = 0;
    while i < plan.changes.len()
        invariant
            i <= plan.changes.len(),
            paths.len() == i,
            forall|k: int| 0 <= k < i ==> (#[trigger] paths@[k])@ == plan.changes@[k].path@,
        decreases plan.changes.len() - i,
    {
        paths.push(plan.changes[i].path.clone());
        i += 1;
    }
    paths
}

/// Whether `plan` has a change at `path`.
pub open spec fn changes_path(plan: PlanResult, path: Seq<char>) -> bool {
    exists|i: int| 0 <= i < plan.changes@.len() && (#[trigger] plan.changes@[i]).path@ == path
}

/// Whether `plan` has a change at `path`.
pub fn plan_changes_path(plan: &PlanResult, path: &str) -> (found: bool)
    ensures
        found == changes_path(*plan, path@),
{
    let mut i: usize = 0;
    while i < plan.changes.len()
        invariant
            i <= plan.changes.len(),
            forall|k: int| 0 <= k < i ==> (#[trigger] plan.changes@[k]).path@ != path@,
        decreases plan.changes.len() - i,
    {
        if crate::name_map::str_same(plan.changes[i].path.as_str(), path) {
            return true;
        }
        i += 1;
    }
    false
}

/// Whether one of `diagnostics` is an error whose summary holds `pattern`.
pub open spec fn has_error_with(diagnostics: Seq<Diagnostic>, pattern: Seq<char>) -> bool {
    exists|i: int|
        0 <= i < diagnostics.len() && (#[trigger] diagnostics[i]).severity
            == DiagnosticSeverity::Error && occurs_in(pattern, diagnostics[i].summary@)
}

/// Whether one of `diagnostics` is an error whose summary holds `pattern`.
pub fn find_error_with(diagnostics: &[Diagnostic], pattern: &str) -> (found: bool)
    ensures
        found == has_error_with(diagnostics@, pattern@),
{
    let mut i: usize = 0;
    while i < diagnostics.len()
        invariant
            i <= diagnostics.len(),
            forall|k: int|
                0 <= k < i ==> !((#[trigger] diagnostics@[k]).severity == DiagnosticSeverity::Error
                    && occurs_in(pattern@, diagnostics@[k].summary@)),
        decreases diagnostics.len() - i,
    {
        if diagnostics[i].is_error() && str_contains(diagnostics[i].summary.as_str(), pattern) {
            return true;
        }
        i += 1;
    }
    false
}

/// Asserts that `plan` makes a resource: it has changes and asks for no
/// replacement.
pub fn assert_plan_creates(plan: &PlanResult)
    requires
        plan.changes@.len() > 0,
        !plan.requires_replace,
{
    if plan.changes.len() == 0 {
        expect_some(None, "Expected plan to have changes for create, but got no changes");
    }
    if plan.requires_replace {
        expect_some(None, "Expected plan to create, not replace");
    }
}

/// Asserts that `plan` has no change.
pub fn assert_plan_no_changes(plan: &PlanResult)
    requires
        plan.changes@.len() == 0,
{
    if plan.changes.len() != 0 {
        let mut message = concat3(
            "Expected no changes, but got ",
            decimal_text(plan.changes.len() as u64).as_str(),
            " change(s): ",
        );
        message.append(debug_list(&changed_paths(plan)).as_str());
        expect_some(None, message.as_str());
    }
}

/// Asserts that `plan` has changes.
pub fn assert_plan_has_changes(plan: &PlanResult)
    requires
        plan.changes@.len() > 0,
{
    if plan.changes.len() == 0 {
        expect_some(None, "Expected plan to have changes, but got no changes");
    }
}

/// Asserts that `plan` asks for a replacement.
pub fn assert_plan_replaces(plan: &PlanResult)
    requires
        plan.requires_replace,
{
    if !plan.requires_replace {
        expect_some(None, "Expected plan to require replacement, but it does not");
    }
}

/// Asserts that `plan` asks for no replacement.
pub fn assert_plan_updates_in_place(plan: &PlanResult)
    requires
        !plan.requires_replace,
{
    if plan.requires_replace {
        expect_some(None, "Expected plan to update in place, but it requires replacement");
    }
}

/// Asserts that `plan` has a change at `path`.
pub fn assert_plan_changes_attribute(plan: &PlanResult, path: &str)
    requires
        changes_path(*plan, path@),
{
    if !plan_changes_path(plan, path) {
        let mut message = concat3(
            "Expected plan to change attribute '",
            path,
            "', but it was not changed. Changed attributes: ",
        );
        message.append(debug_list(&changed_paths(plan)).as_str());
        expect_some(None, message.as_str());
    }
}

/// Asserts that `plan` has no change at `path`.
pub fn assert_plan_does_not_change_attribute(plan: &PlanResult, path: &str)
    requires
        !changes_path(*plan, path@),
{
    if plan_changes_path(plan, path) {
        let message = concat3(
            "Expected plan to not change attribute '",
            path,
            "', but it was changed",
        );
        expect_some(None, message.as_str());
    }
}

/// The summaries of `diagnostics`, by their characters.
pub open spec fn summary_views(diagnostics: Seq<DiagnosticView>) -> Seq<Seq<char>> {
    Seq::new(diagnostics.len(), |i: int| diagnostics[i].summary)
}

/// What is said of diagnostics that hold errors where none was looked for:
/// the number of the errors and the list of their summaries.
pub fn unexpected_errors_message(diagnostics: &[Diagnostic]) -> (message: String)
    ensures
        message@ == "Expected no errors, but got "@ + decimal(errors_of(diagnostics@).len())
            + " error(s): "@ + debug_text(summary_views(errors_of(diagnostics@))),
{
    let errors = collect_errors(diagnostics);
    let summaries = summaries_of(&errors);
    assert(Seq::new(summaries@.len(), |i: int| summaries@[i]@) =~= summary_views(
        errors_of(diagnostics@),
    ));
    let mut message = concat3(
        "Expected no errors, but got ",
        decimal_text(errors.len() as u64).as_str(),
        " error(s): ",
    );
    message.append(debug_list(&summaries).as_str());
    message
}

/// Asserts that `diagnostics` hold no error.
pub fn assert_no_errors(diagnostics: &[Diagnostic])
    requires
        errors_of(diagnostics@).len() == 0,
{
    let errors = collect_errors(diagnostics);
    if errors.len() != 0 {
        expect_some(None, unexpected_errors_message(diagnostics).as_str());
    }
}

/// Asserts that `diagnostics` hold an error.
pub fn assert_has_errors(diagnostics: &[Diagnostic])
    requires
        errors_of(diagnostics@).len() > 0,
{
    let errors = collect_errors(diagnostics);
    if errors.len() == 0 {
        expect_some(None, "Expected at least one error, but got none");
    }
}

/// Asserts that `diagnostics` hold an error whose summary holds `substring`.
pub fn assert_error_contains(diagnostics: &[Diagnostic], substring: &str)
    requires
        has_error_with(diagnostics@, substring@),
{
    if !find_error_with(diagnostics, substring) {
        let errors = collect_errors(diagnostics);
        let mut message = concat3(
            "Expected an error containing '",
            substring,
            "', but no matching error found. Errors: ",
        );
        message.append(debug_list(&summaries_of(&errors)).as_str());
        expect_some(None, message.as_str());
    }
}

} // verus!
