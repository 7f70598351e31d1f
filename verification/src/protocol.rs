//! The dispatch adapter's part that decides: the messages that cross the
//! wire, as plain values, and how the results and failures of a provider
//! become responses.
//!
//! A call always ends in a response. A failure of the provider is carried in
//! the response as a single error diagnostic, with nothing else in it.

use vstd::prelude::*;
use vstd::string::StringExecFns;
use crate::codec::{
    decode_optional_value, decode_payload, decode_prior_state, encode_payload, encoded, parsed,
    payload_content, payload_value,
};
use crate::error::ProviderError;
use crate::json::{Json, JsonValue};
use crate::schema::{
    diagnostic_views, BlockNestingMode, Diagnostic, DiagnosticSeverity, DiagnosticView,
    ProviderSchema,
};
use crate::types::{
    AttributeChange, ChangeView, ImportedResource, PlanResult, ProviderMetadata, ServerCapabilities,
};

verus! {

/// A diagnostic on the wire: what is absent in a `Diagnostic` is empty here.
#[derive(Debug, Clone, PartialEq, Eq)]
pub struct DiagnosticMessage {
    /// How grave it is.
    pub severity: DiagnosticSeverity,
    /// What is wrong, in short.
    pub summary: String,
    /// What is wrong, at length; empty where nothing is said.
    pub detail: String,
    /// The path of the attribute it is about; empty where there is none.
    pub attribute: String,
}

/// What a `DiagnosticMessage` says: its view.
pub struct DiagnosticMessageView {
    /// How grave it is.
    pub severity: DiagnosticSeverity,
    /// What is wrong, in short.
    pub summary: Seq<char>,
    /// What is wrong, at length.
    pub detail: Seq<char>,
    /// The path of the attribute it is about.
    pub attribute: Seq<char>,
}

impl View for DiagnosticMessage {
    type V = DiagnosticMessageView;

    open spec fn view(&self) -> DiagnosticMessageView {
        DiagnosticMessageView {
            severity: self.severity,
            summary: self.summary@,
            detail: self.detail@,
            attribute: self.attribute@,
        }
    }
}

/// The views of `messages`, in their order.
pub open spec fn message_views(messages: Seq<DiagnosticMessage>) -> Seq<DiagnosticMessageView> {
    Seq::new(messages.len(), |i: int| messages[i]@)
}

/// A text that may be absent, as it goes on the wire: empty where absent.
pub open spec fn text_or_empty(text: Option<Seq<char>>) -> Seq<char> {
    match text {
        Some(text) => text,
        None => Seq::empty(),
    }
}

/// The message that carries `diagnostic`.
pub open spec fn diagnostic_message(diagnostic: DiagnosticView) -> DiagnosticMessageView {
    DiagnosticMessageView {
        severity: diagnostic.severity,
        summary: diagnostic.summary,
        detail: text_or_empty(diagnostic.detail),
        attribute: text_or_empty(diagnostic.attribute),
    }
}

/// The messages that carry `diagnostics`, in their order.
pub open spec fn diagnostic_messages(diagnostics: Seq<DiagnosticView>) -> Seq<DiagnosticMessageView> {
    Seq::new(diagnostics.len(), |i: int| diagnostic_message(diagnostics[i]))
}

/// The one message that carries a failure: an error whose summary is the
/// failure's text.
pub open spec fn failure_messages(failure: ProviderError) -> Seq<DiagnosticMessageView> {
    seq![
        DiagnosticMessageView {
            severity: DiagnosticSeverity::Error,
            summary: failure.text(),
            detail: Seq::empty(),
            attribute: Seq::empty(),
        },
    ]
}

/// The messages of an outcome that gives diagnostics: those of the
/// diagnostics, or the one of the failure.
pub open spec fn outcome_messages(outcome: Result<Vec<Diagnostic>, ProviderError>) -> Seq<
    DiagnosticMessageView,
> {
    match outcome {
        Ok(diagnostics) => diagnostic_messages(diagnostic_views(diagnostics@)),
        Err(failure) => failure_messages(failure),
    }
}

/// A copy of a text that may be absent; empty where it is.
fn owned_or_empty(text: &Option<String>) -> (copy: String)
    ensures
        copy@ == text_or_empty(crate::schema::optional_text(*text)),
{
    match text {
        Some(text) => text.clone(),
        None => String::new(),
    }
}

/// The messages that carry `diagnostics`.
pub fn diagnostics_to_proto(diagnostics: Vec<Diagnostic>) -> (messages: Vec<DiagnosticMessage>)
    ensures
        message_views(messages@) == diagnostic_messages(diagnostic_views(diagnostics@)),
{
    let mut messages: Vec<DiagnosticMessage> = Vec::new();
    let mut i: usize = 0;
    while i < diagnostics.len()
        invariant
            i <= diagnostics.len(),
            messages.len() == i,
            forall|k: int| 0 <= k < i ==> (#[trigger] messages@[k])@ == diagnostic_message(diagnostics@[k]@),
        decreases diagnostics.len() - i,
    {
        let diagnostic = &diagnostics[i];
        messages.push(
            DiagnosticMessage {
                severity: diagnostic.severity,
                summary: diagnostic.summary.clone(),
                detail: owned_or_empty(&diagnostic.detail),
                attribute: owned_or_empty(&diagnostic.attribute),
            },
        );
        i += 1;
    }
    assert(message_views(messages@) =~= diagnostic_messages(diagnostic_views(diagnostics@)));
    messages
}

/// The one message that carries `failure`.
pub fn error_to_diagnostics(failure: &ProviderError) -> (messages: Vec<DiagnosticMessage>)
    ensures
        message_views(messages@) == failure_messages(*failure),
{
    let mut messages: Vec<DiagnosticMessage> = Vec::new();
    messages.push(
        DiagnosticMessage {
            severity: DiagnosticSeverity::Error,
            summary: failure.to_string(),
            detail: String::new(),
            attribute: String::new(),
        },
    );
    assert(message_views(messages@) =~= failure_messages(*failure));
    messages
}

/// The response to a call that gives diagnostics: validating or setting a
/// configuration.
pub fn diagnostics_response(outcome: Result<Vec<Diagnostic>, ProviderError>) -> (messages: Vec<
    DiagnosticMessage,
>)
    ensures
        message_views(messages@) == outcome_messages(outcome),
{
    match outcome {
        Ok(diagnostics) => diagnostics_to_proto(diagnostics),
        Err(failure) => error_to_diagnostics(&failure),
    }
}

/// The response to a call that gives nothing: deleting a resource. No
/// message on success, the failure's message else.
pub fn delete_response(outcome: Result<(), ProviderError>) -> (messages: Vec<DiagnosticMessage>)
    ensures
        message_views(messages@) == match outcome {
            Ok(_) => Seq::<DiagnosticMessageView>::empty(),
            Err(failure) => failure_messages(failure),
        },
{
    match outcome {
        Ok(_) => {
            let messages: Vec<DiagnosticMessage> = Vec::new();
            assert(message_views(messages@) =~= Seq::<DiagnosticMessageView>::empty());
            messages
        },
        Err(failure) => error_to_diagnostics(&failure),
    }
}

/// The response to the call that stops the provider: the text of the
/// failure, or no text.
pub fn stop_response(outcome: Result<(), ProviderError>) -> (error: String)
    ensures
        error@ == match outcome {
            Ok(_) => Seq::<char>::empty(),
            Err(failure) => failure.text(),
        },
{
    match outcome {
        Ok(_) => String::new(),
        Err(failure) => failure.to_string(),
    }
}

/// The response to a call that gives a state.
#[derive(Debug, Clone, PartialEq, Eq)]
pub struct StateResponse {
    /// The state, written as JSON; empty on failure.
    pub state: Vec<u8>,
    /// The failure's message, if any.
    pub diagnostics: Vec<DiagnosticMessage>,
}

/// Whether `response` answers `outcome`: the state written and no message,
/// or no state and the failure's message.
pub open spec fn answers_state(outcome: Result<JsonValue, ProviderError>, response: StateResponse) -> bool {
    match outcome {
        Ok(state) => response.state@ == encoded(state@) && response.diagnostics@.len() == 0,
        Err(failure) => response.state@.len() == 0 && message_views(response.diagnostics@)
            == failure_messages(failure),
    }
}

/// The response to a call that gives a state: creating, reading or updating
/// a resource, upgrading its state, reading a data source.
pub fn state_response(outcome: Result<JsonValue, ProviderError>) -> (response: StateResponse)
    ensures
        answers_state(outcome, response),
{
    match outcome {
        Ok(state) => StateResponse { state: encode_payload(&state), diagnostics: Vec::new() },
        Err(failure) => StateResponse {
            state: Vec::new(),
            diagnostics: error_to_diagnostics(&failure),
        },
    }
}

/// A change of an attribute on the wire.
#[derive(Debug, Clone, PartialEq, Eq)]
pub struct AttributeChangeMessage {
    /// The path of the attribute.
    pub path: String,
    /// The value before, written as JSON; empty where there was none.
    pub before: Vec<u8>,
    /// The value after, written as JSON; empty where there is none.
    pub after: Vec<u8>,
}

/// The payload that carries a value that may be absent: the value written,
/// or no bytes where it is absent.
pub open spec fn optional_payload(value: Option<Json>) -> Seq<u8> {
    match value {
        Some(value) => encoded(value),
        None => Seq::empty(),
    }
}

/// Whether `message` carries `change`.
pub open spec fn carries_change(change: ChangeView, message: AttributeChangeMessage) -> bool {
    &&& message.path@ == change.path
    &&& message.before@ == optional_payload(change.before)
    &&& message.after@ == optional_payload(change.after)
}

/// Writes a value that may be absent.
fn encode_optional(value: &Option<JsonValue>) -> (bytes: Vec<u8>)
    ensures
        bytes@ == optional_payload(crate::types::optional_view(*value)),
{
    match value {
        Some(value) => encode_payload(value),
        None => Vec::new(),
    }
}

impl AttributeChangeMessage {
    /// The message that carries `change`.
    pub fn from_change(change: &AttributeChange) -> (message: AttributeChangeMessage)
        ensures
            carries_change(change@, message),
    {
        AttributeChangeMessage {
            path: change.path.clone(),
            before: encode_optional(&change.before),
            after: encode_optional(&change.after),
        }
    }

    /// The change that the message carries: a value is absent where its
    /// bytes are empty, and absent too where they do not hold one.
    pub fn to_change(&self) -> (change: AttributeChange)
        ensures
            change@ == (ChangeView {
                path: self.path@,
                before: payload_content(self.before@, parsed(self.before@)),
                after: payload_content(self.after@, parsed(self.after@)),
            }),
    {
        AttributeChange {
            path: self.path.clone(),
            before: decode_optional_value(self.before.as_slice()),
            after: decode_optional_value(self.after.as_slice()),
        }
    }
}

/// The response to a plan.
#[derive(Debug, Clone, PartialEq, Eq)]
pub struct PlanResponse {
    /// The planned state, written as JSON; empty on failure.
    pub planned_state: Vec<u8>,
    /// The changes; none on failure.
    pub changes: Vec<AttributeChangeMessage>,
    /// Whether the resource has to be made anew; not so on failure.
    pub requires_replace: bool,
    /// The failure's message, if any.
    pub diagnostics: Vec<DiagnosticMessage>,
}

/// Whether `response` answers `outcome`: the plan written and no message,
/// or an empty plan and the failure's message.
pub open spec fn answers_plan(outcome: Result<PlanResult, ProviderError>, response: PlanResponse) -> bool {
    match outcome {
        Ok(plan) => {
            &&& response.planned_state@ == encoded(plan.planned_state@)
            &&& response.changes@.len() == plan.changes@.len()
            &&& forall|i: int|
                0 <= i < plan.changes@.len() ==> carries_change(
                    plan.changes@[i]@,
                    #[trigger] response.changes@[i],
                )
            &&& response.requires_replace == plan.requires_replace
            &&& response.diagnostics@.len() == 0
        },
        Err(failure) => {
            &&& response.planned_state@.len() == 0
            &&& response.changes@.len() == 0
            &&& !response.requires_replace
            &&& message_views(response.diagnostics@) == failure_messages(failure)
        },
    }
}

/// The response to a plan.
pub fn plan_response(outcome: Result<PlanResult, ProviderError>) -> (response: PlanResponse)
    ensures
        answers_plan(outcome, response),
{
    match outcome {
        Ok(plan) => {
            let mut changes: Vec<AttributeChangeMessage> = Vec::new();
            let mut i: usize = 0;
            while i < plan.changes.len()
                invariant
                    i <= plan.changes.len(),
                    changes.len() == i,
                    forall|k: int|
                        0 <= k < i ==> carries_change(plan.changes@[k]@, #[trigger] changes@[k]),
                decreases plan.changes.len() - i,
            {
                changes.push(AttributeChangeMessage::from_change(&plan.changes[i]));
                i += 1;
            }
            PlanResponse {
                planned_state: encode_payload(&plan.planned_state),
                changes,
                requires_replace: plan.requires_replace,
                diagnostics: Vec::new(),
            }
        },
        Err(failure) => PlanResponse {
            planned_state: Vec::new(),
            changes: Vec::new(),
            requires_replace: false,
            diagnostics: error_to_diagnostics(&failure),
        },
    }
}

/// What a plan is asked for, as it comes over the wire.
#[derive(Debug, Clone, PartialEq, Eq)]
pub struct PlanRequest {
    /// The type of the resource.
    pub resource_type: String,
    /// The prior state, written as JSON; empty where there is none.
    pub prior_state: Vec<u8>,
    /// The proposed state, written as JSON.
    pub proposed_state: Vec<u8>,
    /// The configuration, written as JSON.
    pub config: Vec<u8>,
}

/// What a plan is asked for, read.
#[derive(Debug, Clone, PartialEq)]
pub struct PlanArguments {
    /// The prior state; none for a creation, which is asked for by an empty
    /// payload and by nothing else.
    pub prior_state: Option<JsonValue>,
    /// The proposed state.
    pub proposed_state: JsonValue,
    /// The configuration.
    pub config: JsonValue,
}

/// Reads what a plan is asked for. An empty prior state, and it alone, asks
/// for a creation. Every payload that is not empty is read leniently: bytes
/// that do not hold a value give `null`, the prior state included.
pub fn decode_plan_request(request: &PlanRequest) -> (arguments: PlanArguments)
    ensures
        crate::types::optional_view(arguments.prior_state) == if request.prior_state@.len() == 0 {
            None
        } else {
            Some(payload_value(parsed(request.prior_state@)))
        },
        arguments.proposed_state@ == payload_value(
            payload_content(request.proposed_state@, parsed(request.proposed_state@)),
        ),
        arguments.config@ == payload_value(
            payload_content(request.config@, parsed(request.config@)),
        ),
{
    PlanArguments {
        prior_state: decode_prior_state(request.prior_state.as_slice()),
        proposed_state: decode_payload(request.proposed_state.as_slice()),
        config: decode_payload(request.config.as_slice()),
    }
}

/// An imported resource on the wire.
#[derive(Debug, Clone, PartialEq, Eq)]
pub struct ImportedResourceMessage {
    /// The type of the resource.
    pub resource_type: String,
    /// The state it was found in, written as JSON.
    pub state: Vec<u8>,
}

/// The response to an import.
#[derive(Debug, Clone, PartialEq, Eq)]
pub struct ImportResponse {
    /// The imported resources; none on failure.
    pub imported: Vec<ImportedResourceMessage>,
    /// The failure's message, if any.
    pub diagnostics: Vec<DiagnosticMessage>,
}

/// Whether `response` answers `outcome`: each resource with its state
/// written and no message, or no resource and the failure's message.
pub open spec fn answers_import(
    outcome: Result<Vec<ImportedResource>, ProviderError>,
    response: ImportResponse,
) -> bool {
    match outcome {
        Ok(imported) => {
            &&& response.imported@.len() == imported@.len()
            &&& forall|i: int|
                0 <= i < imported@.len() ==> {
                    &&& (#[trigger] response.imported@[i]).resource_type@
                        == imported@[i].resource_type@
                    &&& response.imported@[i].state@ == encoded(imported@[i].state@)
                }
            &&& response.diagnostics@.len() == 0
        },
        Err(failure) => {
            &&& response.imported@.len() == 0
            &&& message_views(response.diagnostics@) == failure_messages(failure)
        },
    }
}

/// The response to an import.
pub fn import_response(outcome: Result<Vec<ImportedResource>, ProviderError>) -> (response:
    ImportResponse)
    ensures
        answers_import(outcome, response),
{
    match outcome {
        Ok(imported) => {
            let mut messages: Vec<ImportedResourceMessage> = Vec::new();
            let mut i: usize = 0;
            while i < imported.len()
                invariant
                    i <= imported.len(),
                    messages.len() == i,
                    forall|k: int|
                        0 <= k < i ==> (#[trigger] messages@[k]).resource_type@
                            == imported@[k].resource_type@ && messages@[k].state@ == encoded(
                            imported@[k].state@,
                        ),
                decreases imported.len() - i,
            {
                messages.push(
                    ImportedResourceMessage {
                        resource_type: imported[i].resource_type.clone(),
                        state: encode_payload(&imported[i].state),
                    },
                );
                i += 1;
            }
            ImportResponse { imported: messages, diagnostics: Vec::new() }
        },
        Err(failure) => ImportResponse {
            imported: Vec::new(),
            diagnostics: error_to_diagnostics(&failure),
        },
    }
}

/// The response to the call for metadata.
#[derive(Debug, Clone, PartialEq, Eq)]
pub struct MetadataResponse {
    /// What the server can do.
    pub server_capabilities: ServerCapabilities,
    /// The names of the resource types.
    pub resources: Vec<String>,
    /// The names of the data source types.
    pub data_sources: Vec<String>,
}

/// The response that carries `metadata`.
pub fn get_metadata_response(metadata: ProviderMetadata) -> (response: MetadataResponse)
    ensures
        response.server_capabilities == metadata.capabilities,
        response.resources == metadata.resources,
        response.data_sources == metadata.data_sources,
{
    MetadataResponse {
        server_capabilities: metadata.capabilities,
        resources: metadata.resources,
        data_sources: metadata.data_sources,
    }
}

/// The characters of each of `names`.
pub open spec fn name_views(names: Seq<String>) -> Seq<Seq<char>> {
    Seq::new(names.len(), |i: int| names[i]@)
}

/// The names of `entries`, in their order.
pub open spec fn entry_names<V>(entries: Seq<(Seq<char>, V)>) -> Seq<Seq<char>> {
    Seq::new(entries.len(), |i: int| entries[i].0)
}

/// The names of the entries of a map, in ascending order.
fn names_of<V>(map: &crate::name_map::NameMap<V>) -> (names: Vec<String>)
    ensures
        name_views(names@) == entry_names(map@),
{
    let mut names: Vec<String> = Vec::new();
    let mut i: usize = 0;
    while i < map.len()
        invariant
            i <= map@.len(),
            names.len() == i,
            forall|k: int| 0 <= k < i ==> (#[trigger] names@[k])@ == map@[k].0,
        decreases map@.len() - i,
    {
        names.push(map.name_at(i).clone());
        i += 1;
    }
    assert(name_views(names@) =~= entry_names(map@));
    names
}

/// The metadata that a provider has where it states none: the names of the
/// resource types and data source types of its schemas, and nothing beyond
/// the ordinary.
pub fn default_metadata(schemas: &ProviderSchema) -> (metadata: ProviderMetadata)
    ensures
        name_views(metadata.resources@) == entry_names(schemas.resources@),
        name_views(metadata.data_sources@) == entry_names(schemas.data_sources@),
        metadata.capabilities == (ServerCapabilities { plan_destroy: false }),
{
    ProviderMetadata {
        resources: names_of(&schemas.resources),
        data_sources: names_of(&schemas.data_sources),
        capabilities: ServerCapabilities { plan_destroy: false },
    }
}

/// The failure of an import by a provider that offers none.
pub fn import_not_supported(resource_type: &str) -> (failure: ProviderError)
    ensures
        failure matches ProviderError::Sdk(text) && text@
            == "Import not supported for resource type: "@ + resource_type@,
{
    let mut text = String::from_str("Import not supported for resource type: ");
    text.append(resource_type);
    ProviderError::Sdk(text)
}

/// The failure of reading a data source by a provider that offers none.
pub fn unknown_data_source(data_source_type: &str) -> (failure: ProviderError)
    ensures
        failure matches ProviderError::UnknownResource(text) && text@
            == "Unknown data source type: "@ + data_source_type@,
{
    let mut text = String::from_str("Unknown data source type: ");
    text.append(data_source_type);
    ProviderError::UnknownResource(text)
}

} // verus!
