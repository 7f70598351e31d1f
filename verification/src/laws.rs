//! What holds of validation and of plans, whatever the schema and the
//! values.

use vstd::prelude::*;
use crate::diff::{
    ROOT_PATH, comparison_changes, item_changes, creation_changes, item_leaf_changes, leaf_changes, member_leaf_changes,
    new_member_changes, planned, prior_member_changes,
};
use crate::json::Json;
use crate::name_map::{has_name, lemma_value_decreases, lookup, NameMap};
use crate::schema::{
    lemma_block_decreases, Attribute, AttributeType, Block, BlockMap, DiagnosticSeverity,
    DiagnosticView, NestedBlock, Schema,
};
use crate::text::decimal;
use crate::types::{ChangeView, PlanView};
use crate::validation::{
    attribute_diagnostics, attributes_diagnostics, block_diagnostics, block_items_diagnostics,
    block_members_diagnostics, fields_diagnostics, int64_value, items_diagnostics,
    members_diagnostics, nested_blocks_diagnostics, nested_diagnostics, type_diagnostics,
    validation_diagnostics,
};

verus! {

/// Whether `value` is of the kind that the type `t` asks for, `t` being one
/// of the types without parts: string, 64-bit integer, number, boolean.
pub open spec fn fits_leaf_type(t: AttributeType, value: Json) -> bool {
    match t {
        AttributeType::String => value is String,
        AttributeType::Int64 => int64_value(value),
        AttributeType::Float64 => value is Number,
        AttributeType::Bool => value is Bool,
        _ => false,
    }
}

/// Whether an object with `members` gives every attribute of `schema` a
/// value of the attribute's type, the schema having only required
/// attributes of types without parts, and no nested block.
pub open spec fn fills_required_leaves(schema: Schema, members: Seq<(Seq<char>, Json)>) -> bool {
    &&& schema.block.blocks@.len() == 0
    &&& forall|i: int|
        0 <= i < schema.block.attributes@.len() ==> {
            let (name, attr) = #[trigger] schema.block.attributes@[i];
            &&& attr.flags.required
            &&& lookup(members, name) matches Some(value) && fits_leaf_type(attr.attr_type, value)
        }
}

/// A value of the kind that a type without parts asks for has no
/// diagnostic.
pub proof fn lemma_fitting_leaf_is_valid(t: AttributeType, value: Json, path: Seq<char>)
    requires
        fits_leaf_type(t, value),
    ensures
        type_diagnostics(t, value, path) == Seq::<DiagnosticView>::empty(),
{
}

/// Where a schema has only required attributes of types without parts, an
/// object that gives each of them a value of its type is valid.
pub proof fn lemma_filled_value_is_valid(schema: Schema, members: Seq<(Seq<char>, Json)>)
    requires
        fills_required_leaves(schema, members),
    ensures
        validation_diagnostics(schema, Json::Object(members)) == Seq::<DiagnosticView>::empty(),
{
    let attributes = schema.block.attributes@;
    let path = Seq::<char>::empty();
    lemma_filled_attributes(schema, members, attributes.len());
    assert(validation_diagnostics(schema, Json::Object(members)) =~= Seq::<
        DiagnosticView,
    >::empty());
}

proof fn lemma_filled_attributes(schema: Schema, members: Seq<(Seq<char>, Json)>, count: nat)
    requires
        fills_required_leaves(schema, members),
        count <= schema.block.attributes@.len(),
    ensures
        attributes_diagnostics(schema.block.attributes@, members, Seq::empty(), count) == Seq::<
            DiagnosticView,
        >::empty(),
    decreases count,
{
    if count > 0 {
        let i = (count - 1) as int;
        lemma_filled_attributes(schema, members, i as nat);
        let (name, attr) = schema.block.attributes@[i];
        let value = lookup(members, name)->0;
        lemma_fitting_leaf_is_valid(
            attr.attr_type,
            value,
            crate::text::joined_path(Seq::empty(), name),
        );
        assert(attribute_diagnostics(
            attr,
            lookup(members, name),
            crate::text::joined_path(Seq::empty(), name),
        ) =~= Seq::<DiagnosticView>::empty());
        assert(attributes_diagnostics(schema.block.attributes@, members, Seq::empty(), count)
            =~= Seq::<DiagnosticView>::empty());
    }
}

/// The plan from a state to itself keeps the state and has no change.
pub proof fn lemma_same_state_plans_nothing(state: Json)
    ensures
        planned(Some(state), state) == (PlanView {
            planned_state: state,
            changes: Seq::empty(),
            requires_replace: false,
        }),
{
    state.lemma_same_reflexive();
}

/// The plan from a state to one that is the same, be it written with
/// another sign of a zero, has no change.
pub proof fn lemma_same_states_plan_nothing(prior: Json, proposed: Json)
    requires
        prior.same(proposed),
    ensures
        planned(Some(prior), proposed).changes == Seq::<ChangeView>::empty(),
{
}

/// Every plan keeps the proposed state and asks for no replacement.
pub proof fn lemma_plan_keeps_proposed(prior: Option<Json>, proposed: Json)
    ensures
        planned(prior, proposed).planned_state == proposed,
        !planned(prior, proposed).requires_replace,
{
}

/// `changes`, each read backwards.
pub open spec fn reversed_changes(changes: Seq<ChangeView>) -> Seq<ChangeView> {
    Seq::new(changes.len(), |i: int| changes[i].reversed())
}

/// The leaves of a value as gone are its leaves as new, read backwards.
pub proof fn lemma_leaves_mirror(value: Json, path: Seq<char>)
    ensures
        leaf_changes(value, path, false) == reversed_changes(leaf_changes(value, path, true)),
    decreases value, 0nat,
{
    match value {
        Json::Object(members) => {
            lemma_member_leaves_mirror(members, path, members.len());
        },
        Json::Array(items) => {
            lemma_item_leaves_mirror(items, path, items.len());
        },
        _ => {
            assert(leaf_changes(value, path, false) =~= reversed_changes(
                leaf_changes(value, path, true),
            ));
        },
    }
}

proof fn lemma_member_leaves_mirror(members: Seq<(Seq<char>, Json)>, path: Seq<char>, count: nat)
    requires
        count <= members.len(),
    ensures
        member_leaf_changes(members, path, false, count) == reversed_changes(
            member_leaf_changes(members, path, true, count),
        ),
    decreases members, count,
{
    if count > 0 {
        let i = (count - 1) as int;
        lemma_member_leaves_mirror(members, path, i as nat);
        lemma_leaves_mirror(members[i].1, crate::text::joined_path(path, members[i].0));
    }
    assert(member_leaf_changes(members, path, false, count) =~= reversed_changes(
        member_leaf_changes(members, path, true, count),
    ));
}

proof fn lemma_item_leaves_mirror(items: Seq<Json>, path: Seq<char>, count: nat)
    requires
        count <= items.len(),
    ensures
        item_leaf_changes(items, path, false, count) == reversed_changes(
            item_leaf_changes(items, path, true, count),
        ),
    decreases items, count,
{
    if count > 0 {
        let i = (count - 1) as int;
        lemma_item_leaves_mirror(items, path, i as nat);
        lemma_leaves_mirror(items[i], crate::text::bracketed(path, i as nat));
    }
    assert(item_leaf_changes(items, path, false, count) =~= reversed_changes(
        item_leaf_changes(items, path, true, count),
    ));
}

proof fn lemma_all_members_gone(members: Seq<(Seq<char>, Json)>, path: Seq<char>, count: nat)
    requires
        count <= members.len(),
    ensures
        prior_member_changes(members, Seq::empty(), path, count) == member_leaf_changes(
            members,
            path,
            false,
            count,
        ),
    decreases count,
{
    if count > 0 {
        let i = (count - 1) as int;
        lemma_all_members_gone(members, path, i as nat);
        assert(!has_name(Seq::<(Seq<char>, Json)>::empty(), members[i].0));
    }
}

/// The changes that take an object away, down to the empty object, are the
/// changes that make it out of nothing, read backwards: the same paths in
/// the same order, what was after now before.
pub proof fn lemma_removal_mirrors_creation(members: Seq<(Seq<char>, Json)>)
    ensures
        planned(Some(Json::Object(members)), Json::Object(Seq::empty())).changes
            == reversed_changes(planned(None, Json::Object(members)).changes),
{
    let whole = Json::Object(members);
    let nothing = Json::Object(Seq::<(Seq<char>, Json)>::empty());
    let path = Seq::<char>::empty();
    lemma_leaves_mirror(whole, path);
    if whole == nothing {
        assert(members =~= Seq::<(Seq<char>, Json)>::empty());
        assert(reversed_changes(creation_changes(whole)) =~= Seq::<ChangeView>::empty());
    } else {
        lemma_all_members_gone(members, path, members.len());
        assert(new_member_changes(members, Seq::empty(), path, 0) =~= Seq::<ChangeView>::empty());
        assert(comparison_changes(whole, nothing, path, ROOT_PATH@) =~= member_leaf_changes(
            members,
            path,
            false,
            members.len(),
        ));
    }
}

proof fn lemma_all_items_gone(items: Seq<Json>, path: Seq<char>, count: nat)
    requires
        count <= items.len(),
    ensures
        item_changes(items, Seq::empty(), path, count) == item_leaf_changes(
            items,
            path,
            false,
            count,
        ),
    decreases count,
{
    if count > 0 {
        lemma_all_items_gone(items, path, (count - 1) as nat);
    }
}

/// The same of arrays: the changes that take an array away, down to the
/// empty array, are the changes that make it out of nothing, read backwards.
pub proof fn lemma_array_removal_mirrors_creation(items: Seq<Json>)
    ensures
        planned(Some(Json::Array(items)), Json::Array(Seq::empty())).changes == reversed_changes(
            planned(None, Json::Array(items)).changes,
        ),
{
    let whole = Json::Array(items);
    let nothing = Json::Array(Seq::<Json>::empty());
    let path = Seq::<char>::empty();
    lemma_leaves_mirror(whole, path);
    if whole == nothing {
        assert(items =~= Seq::<Json>::empty());
        assert(reversed_changes(creation_changes(whole)) =~= Seq::<ChangeView>::empty());
    } else {
        lemma_all_items_gone(items, path, items.len());
    }
}

/// Every change of a creation is an addition: nothing stood before, and
/// something stands after.
pub proof fn lemma_creation_only_adds(proposed: Json, i: int)
    requires
        0 <= i < creation_changes(proposed).len(),
    ensures
        creation_changes(proposed)[i].before is None,
        creation_changes(proposed)[i].after is Some,
{
    lemma_leaves_are_one_sided(proposed, Seq::empty(), true, i);
}

/// Every leaf of a value is reported as new, or every leaf as gone.
pub proof fn lemma_leaves_are_one_sided(value: Json, path: Seq<char>, added: bool, i: int)
    requires
        0 <= i < leaf_changes(value, path, added).len(),
    ensures
        leaf_changes(value, path, added)[i].before is None == added,
        leaf_changes(value, path, added)[i].after is Some == added,
    decreases value, 0nat,
{
    match value {
        Json::Object(members) => {
            lemma_member_leaves_are_one_sided(members, path, added, members.len(), i);
        },
        Json::Array(items) => {
            lemma_item_leaves_are_one_sided(items, path, added, items.len(), i);
        },
        _ => {},
    }
}

proof fn lemma_member_leaves_are_one_sided(
    members: Seq<(Seq<char>, Json)>,
    path: Seq<char>,
    added: bool,
    count: nat,
    i: int,
)
    requires
        count <= members.len(),
        0 <= i < member_leaf_changes(members, path, added, count).len(),
    ensures
        member_leaf_changes(members, path, added, count)[i].before is None == added,
        member_leaf_changes(members, path, added, count)[i].after is Some == added,
    decreases members, count,
{
    let last = (count - 1) as int;
    let earlier = member_leaf_changes(members, path, added, last as nat);
    if i < earlier.len() {
        lemma_member_leaves_are_one_sided(members, path, added, last as nat, i);
    } else {
        lemma_leaves_are_one_sided(
            members[last].1,
            crate::text::joined_path(path, members[last].0),
            added,
            i - earlier.len(),
        );
    }
}

proof fn lemma_item_leaves_are_one_sided(
    items: Seq<Json>,
    path: Seq<char>,
    added: bool,
    count: nat,
    i: int,
)
    requires
        count <= items.len(),
        0 <= i < item_leaf_changes(items, path, added, count).len(),
    ensures
        item_leaf_changes(items, path, added, count)[i].before is None == added,
        item_leaf_changes(items, path, added, count)[i].after is Some == added,
    decreases items, count,
{
    let last = (count - 1) as int;
    let earlier = item_leaf_changes(items, path, added, last as nat);
    if i < earlier.len() {
        lemma_item_leaves_are_one_sided(items, path, added, last as nat, i);
    } else {
        lemma_leaves_are_one_sided(
            items[last],
            crate::text::bracketed(path, last as nat),
            added,
            i - earlier.len(),
        );
    }
}

/// Whether each of `diagnostics` is an error.
pub open spec fn all_errors(diagnostics: Seq<DiagnosticView>) -> bool {
    forall|i: int|
        0 <= i < diagnostics.len() ==> (#[trigger] diagnostics[i]).severity
            == DiagnosticSeverity::Error
}

/// Validation reports errors and nothing else: a value is valid exactly
/// when validation finds no error.
pub proof fn lemma_validation_reports_errors(schema: Schema, value: Json)
    ensures
        all_errors(validation_diagnostics(schema, value)),
{
    lemma_block_errors(schema.block, value, Seq::empty());
}

proof fn lemma_type_errors(t: AttributeType, value: Json, path: Seq<char>)
    ensures
        all_errors(type_diagnostics(t, value, path)),
    decreases t, 0nat,
{
    match t {
        AttributeType::List(element) => {
            if let Json::Array(items) = value {
                lemma_items_errors(*element, items, path, items.len());
            }
        },
        AttributeType::SetOf(element) => {
            if let Json::Array(items) = value {
                lemma_items_errors(*element, items, path, items.len());
            }
        },
        AttributeType::MapOf(element) => {
            if let Json::Object(members) = value {
                lemma_members_errors(*element, members, path, members.len());
            }
        },
        AttributeType::Object(fields) => {
            if let Json::Object(members) = value {
                lemma_fields_errors(fields, members, path, fields@.len());
            }
        },
        _ => {},
    }
}

proof fn lemma_items_errors(element: AttributeType, items: Seq<Json>, path: Seq<char>, count: nat)
    ensures
        all_errors(items_diagnostics(element, items, path, count)),
    decreases element, count,
{
    if count > 0 {
        let i = (count - 1) as nat;
        lemma_items_errors(element, items, path, i);
        lemma_type_errors(element, items[i as int], crate::text::dotted(path, decimal(i)));
    }
}

proof fn lemma_members_errors(
    element: AttributeType,
    members: Seq<(Seq<char>, Json)>,
    path: Seq<char>,
    count: nat,
)
    ensures
        all_errors(members_diagnostics(element, members, path, count)),
    decreases element, count,
{
    if count > 0 {
        let i = (count - 1) as nat;
        lemma_members_errors(element, members, path, i);
        lemma_type_errors(
            element,
            members[i as int].1,
            crate::text::dotted(path, members[i as int].0),
        );
    }
}

proof fn lemma_fields_errors(
    fields: NameMap<AttributeType>,
    members: Seq<(Seq<char>, Json)>,
    path: Seq<char>,
    count: nat,
)
    ensures
        all_errors(fields_diagnostics(fields, members, path, count)),
    decreases fields, count,
{
    if count > 0 && count <= fields@.len() {
        let i = (count - 1) as nat;
        lemma_fields_errors(fields, members, path, i);
        if let Some(value) = lookup(members, fields@[i as int].0) {
            lemma_value_decreases(fields, i as int);
            lemma_type_errors(
                fields@[i as int].1,
                value,
                crate::text::joined_path(path, fields@[i as int].0),
            );
        }
    }
}

proof fn lemma_attributes_errors(
    attributes: Seq<(Seq<char>, Attribute)>,
    members: Seq<(Seq<char>, Json)>,
    path: Seq<char>,
    count: nat,
)
    ensures
        all_errors(attributes_diagnostics(attributes, members, path, count)),
    decreases count,
{
    if count > 0 {
        let i = (count - 1) as nat;
        lemma_attributes_errors(attributes, members, path, i);
        if let Some(present) = lookup(members, attributes[i as int].0) {
            lemma_type_errors(
                attributes[i as int].1.attr_type,
                present,
                crate::text::joined_path(path, attributes[i as int].0),
            );
        }
    }
}

proof fn lemma_block_errors(block: Block, value: Json, path: Seq<char>)
    ensures
        all_errors(block_diagnostics(block, value, path)),
    decreases block, 0nat,
{
    if let Json::Object(members) = value {
        lemma_attributes_errors(block.attributes@, members, path, block.attributes@.len());
        lemma_nested_blocks_errors(block.blocks, members, path, block.blocks@.len());
    }
}

proof fn lemma_nested_blocks_errors(
    blocks: BlockMap,
    members: Seq<(Seq<char>, Json)>,
    path: Seq<char>,
    count: nat,
)
    ensures
        all_errors(nested_blocks_diagnostics(blocks, members, path, count)),
    decreases blocks, count,
{
    if count > 0 && count <= blocks@.len() {
        let i = (count - 1) as nat;
        lemma_nested_blocks_errors(blocks, members, path, i);
        lemma_block_decreases(blocks, i as int);
        lemma_nested_errors(
            blocks@[i as int].1,
            lookup(members, blocks@[i as int].0),
            crate::text::joined_path(path, blocks@[i as int].0),
        );
    }
}

proof fn lemma_nested_errors(nested: NestedBlock, value: Option<Json>, path: Seq<char>)
    ensures
        all_errors(nested_diagnostics(nested, value, path)),
    decreases nested, 0nat,
{
    match value {
        Some(Json::Array(items)) => {
            lemma_block_errors(nested.block, Json::Array(items), path);
            lemma_block_items_errors(nested.block, items, path, items.len());
        },
        Some(Json::Object(members)) => {
            lemma_block_errors(nested.block, Json::Object(members), path);
            lemma_block_members_errors(nested.block, members, path, members.len());
        },
        Some(present) => {
            lemma_block_errors(nested.block, present, path);
        },
        None => {},
    }
}

proof fn lemma_block_items_errors(block: Block, items: Seq<Json>, path: Seq<char>, count: nat)
    ensures
        all_errors(block_items_diagnostics(block, items, path, count)),
    decreases block, count,
{
    if count > 0 {
        let i = (count - 1) as nat;
        lemma_block_items_errors(block, items, path, i);
        lemma_block_errors(block, items[i as int], crate::text::dotted(path, decimal(i)));
    }
}

proof fn lemma_block_members_errors(
    block: Block,
    members: Seq<(Seq<char>, Json)>,
    path: Seq<char>,
    count: nat,
)
    ensures
        all_errors(block_members_diagnostics(block, members, path, count)),
    decreases block, count,
{
    if count > 0 {
        let i = (count - 1) as nat;
        lemma_block_members_errors(block, members, path, i);
        lemma_block_errors(
            block,
            members[i as int].1,
            crate::text::dotted(path, members[i as int].0),
        );
    }
}

} // verus!
