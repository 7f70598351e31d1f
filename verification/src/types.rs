//! The values that a provider hands back: changes, plans, imported
//! resources and metadata.

use vstd::prelude::*;
use vstd::string::StringExecFns;
use crate::json::{Json, JsonValue};

verus! {

/// The protocol version announced in the handshake.
pub const PROTOCOL_VERSION: u32 = 1;

/// The word that opens the handshake line.
pub const HANDSHAKE_PREFIX: &'static str = "HEMMER_PROVIDER";

/// The change of one attribute in a plan.
#[derive(Debug, Clone, PartialEq)]
pub struct AttributeChange {
    /// The path of the attribute.
    pub path: String,
    /// The value before the change; none where the attribute is new.
    pub before: Option<JsonValue>,
    /// The value after the change; none where the attribute goes away.
    pub after: Option<JsonValue>,
}

/// What an `AttributeChange` stands for: its view.
pub struct ChangeView {
    /// The path of the attribute.
    pub path: Seq<char>,
    /// The value before the change.
    pub before: Option<Json>,
    /// The value after the change.
    pub after: Option<Json>,
}

/// The view of a value that may be absent.
pub open spec fn optional_view(value: Option<JsonValue>) -> Option<Json> {
    match value {
        Some(value) => Some(value@),
        None => None,
    }
}

impl View for AttributeChange {
    type V = ChangeView;

    open spec fn view(&self) -> ChangeView {
        ChangeView {
            path: self.path@,
            before: optional_view(self.before),
            after: optional_view(self.after),
        }
    }
}

/// The views of `changes`, in their order.
pub open spec fn change_views(changes: Seq<AttributeChange>) -> Seq<ChangeView> {
    Seq::new(changes.len(), |i: int| changes[i]@)
}

impl ChangeView {
    /// The attribute at `path` is new, with `value`.
    pub open spec fn added(path: Seq<char>, value: Json) -> ChangeView {
        ChangeView { path, before: None, after: Some(value) }
    }

    /// The attribute at `path`, which held `value`, goes away.
    pub open spec fn removed(path: Seq<char>, value: Json) -> ChangeView {
        ChangeView { path, before: Some(value), after: None }
    }

    /// The attribute at `path` goes from `before` to `after`.
    pub open spec fn modified(path: Seq<char>, before: Json, after: Json) -> ChangeView {
        ChangeView { path, before: Some(before), after: Some(after) }
    }

    /// The same change read backwards: what was before comes after.
    pub open spec fn reversed(self) -> ChangeView {
        ChangeView { path: self.path, before: self.after, after: self.before }
    }
}

impl AttributeChange {
    /// The change of the attribute at `path` from `before` to `after`.
    pub fn new(path: &str, before: Option<JsonValue>, after: Option<JsonValue>) -> (change: Self)
        ensures
            change@ == (ChangeView {
                path: path@,
                before: optional_view(before),
                after: optional_view(after),
            }),
    {
        AttributeChange { path: String::from_str(path), before, after }
    }

    /// The attribute at `path` is new, with `value`.
    pub fn added(path: &str, value: JsonValue) -> (change: Self)
        ensures
            change@ == ChangeView::added(path@, value@),
    {
        AttributeChange::new(path, None, Some(value))
    }

    /// The attribute at `path`, which held `value`, goes away.
    pub fn removed(path: &str, value: JsonValue) -> (change: Self)
        ensures
            change@ == ChangeView::removed(path@, value@),
    {
        AttributeChange::new(path, Some(value), None)
    }

    /// The attribute at `path` goes from `before` to `after`.
    pub fn modified(path: &str, before: JsonValue, after: JsonValue) -> (change: Self)
        ensures
            change@ == ChangeView::modified(path@, before@, after@),
    {
        AttributeChange::new(path, Some(before), Some(after))
    }
}

/// What a plan comes to.
#[derive(Debug, Clone, PartialEq)]
pub struct PlanResult {
    /// The state that the resource is to have.
    pub planned_state: JsonValue,
    /// The changes that lead there.
    pub changes: Vec<AttributeChange>,
    /// Whether the resource has to be made anew.
    pub requires_replace: bool,
}

/// What a `PlanResult` stands for: its view.
pub struct PlanView {
    /// The state that the resource is to have.
    pub planned_state: Json,
    /// The changes that lead there.
    pub changes: Seq<ChangeView>,
    /// Whether the resource has to be made anew.
    pub requires_replace: bool,
}

impl View for PlanResult {
    type V = PlanView;

    open spec fn view(&self) -> PlanView {
        PlanView {
            planned_state: self.planned_state@,
            changes: change_views(self.changes@),
            requires_replace: self.requires_replace,
        }
    }
}

impl PlanResult {
    /// The plan that leaves `state` as it is.
    pub fn no_change(state: JsonValue) -> (plan: Self)
        ensures
            plan@ == (PlanView {
                planned_state: state@,
                changes: Seq::empty(),
                requires_replace: false,
            }),
    {
        let plan = PlanResult { planned_state: state, changes: Vec::new(), requires_replace: false };
        assert(plan@.changes =~= Seq::empty());
        plan
    }

    /// The plan that reaches `planned_state` by `changes`.
    pub fn with_changes(
        planned_state: JsonValue,
        changes: Vec<AttributeChange>,
        requires_replace: bool,
    ) -> (plan: Self)
        ensures
            plan@ == (PlanView {
                planned_state: planned_state@,
                changes: change_views(changes@),
                requires_replace,
            }),
    {
        PlanResult { planned_state, changes, requires_replace }
    }
}

/// A resource taken under management as it was found.
#[derive(Debug, Clone, PartialEq)]
pub struct ImportedResource {
    /// The type of the resource.
    pub resource_type: String,
    /// The state it was found in.
    pub state: JsonValue,
}

impl ImportedResource {
    /// The resource of `resource_type` in `state`.
    pub fn new(resource_type: &str, state: JsonValue) -> (imported: Self)
        ensures
            imported.resource_type@ == resource_type@,
            imported.state == state,
    {
        ImportedResource { resource_type: String::from_str(resource_type), state }
    }
}

/// What a server can do beyond the ordinary.
#[derive(Debug, Clone, Copy, PartialEq, Eq, Structural)]
pub struct ServerCapabilities {
    /// Whether the provider plans the destruction of a resource.
    pub plan_destroy: bool,
}

impl Default for ServerCapabilities {
    /// Nothing beyond the ordinary.
    fn default() -> (capabilities: Self)
        ensures
            capabilities == (ServerCapabilities { plan_destroy: false }),
    {
        ServerCapabilities { plan_destroy: false }
    }
}

/// The names of what a provider offers, and what its server can do.
#[derive(Debug, Clone, PartialEq, Eq)]
pub struct ProviderMetadata {
    /// The names of the resource types.
    pub resources: Vec<String>,
    /// The names of the data source types.
    pub data_sources: Vec<String>,
    /// What the server can do.
    pub capabilities: ServerCapabilities,
}

impl Default for ProviderMetadata {
    /// No types, and nothing beyond the ordinary.
    fn default() -> (metadata: Self)
        ensures
            metadata.resources@.len() == 0,
            metadata.data_sources@.len() == 0,
            metadata.capabilities == (ServerCapabilities { plan_destroy: false }),
    {
        ProviderMetadata {
            resources: Vec::new(),
            data_sources: Vec::new(),
            capabilities: ServerCapabilities { plan_destroy: false },
        }
    }
}

} // verus!
