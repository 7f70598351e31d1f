//! Validation of a value against a schema.
//!
//! The engine walks the schema and the value together and reports every
//! departure it finds, each as a diagnostic with the path of the place.

use vstd::prelude::*;
use vstd::string::StringExecFns;
use crate::json::{
    item_views, kind_name, lemma_array_view, lemma_member_views, lemma_object_view, member_views,
    Json, JsonValue,
};
use crate::name_map::{lemma_value_decreases, lookup, NameMap};
use crate::schema::{diagnostic_views, lemma_block_decreases, Attribute, AttributeType, Block, BlockMap, BlockNestingMode, Diagnostic, DiagnosticSeverity, DiagnosticView, NestedBlock, Schema};
use crate::text::{
    concat3, decimal, decimal_text, dotted, dotted_index_path, dotted_path, join_path, joined_path,
};

verus! {

/// A value of the wrong kind stands at `path`.
pub open spec fn type_mismatch(path: Seq<char>, expected: Seq<char>, got: Json) -> DiagnosticView {
    DiagnosticView {
        severity: DiagnosticSeverity::Error,
        summary: "Invalid type for attribute '"@ + path + "'"@,
        detail: Some("Expected "@ + expected + ", got "@ + kind_name(got)),
        attribute: Some(path),
    }
}

/// The required attribute at `path` is absent or `null`.
pub open spec fn missing_attribute(path: Seq<char>) -> DiagnosticView {
    DiagnosticView {
        severity: DiagnosticSeverity::Error,
        summary: "Missing required attribute '"@ + path + "'"@,
        detail: Some("This attribute is required and must be provided"@),
        attribute: Some(path),
    }
}

/// What stands at `path` in place of a block is neither an object nor
/// `null`. At the root no path is given.
pub open spec fn expected_object(path: Seq<char>, got: Json) -> DiagnosticView {
    DiagnosticView {
        severity: DiagnosticSeverity::Error,
        summary: "Expected object"@,
        detail: Some("Got "@ + kind_name(got)),
        attribute: if path.len() == 0 {
            None
        } else {
            Some(path)
        },
    }
}

/// The single block at `path`, of which one is asked for, is absent.
pub open spec fn missing_block(path: Seq<char>) -> DiagnosticView {
    DiagnosticView {
        severity: DiagnosticSeverity::Error,
        summary: "Missing required block '"@ + path + "'"@,
        detail: Some("At least one block is required"@),
        attribute: Some(path),
    }
}

/// The blocks at `path`, of which `min` are asked for, are absent.
pub open spec fn absent_blocks(path: Seq<char>, min: nat) -> DiagnosticView {
    DiagnosticView {
        severity: DiagnosticSeverity::Error,
        summary: "Block '"@ + path + "' requires at least "@ + decimal(min) + " item(s)"@,
        detail: None,
        attribute: Some(path),
    }
}

/// There are `count` blocks at `path`, fewer than the `min` asked for.
pub open spec fn too_few_blocks(path: Seq<char>, min: nat, count: nat) -> DiagnosticView {
    DiagnosticView {
        severity: DiagnosticSeverity::Error,
        summary: "Block '"@ + path + "' requires at least "@ + decimal(min) + " item(s), got "@
            + decimal(count),
        detail: None,
        attribute: Some(path),
    }
}

/// There are `count` blocks at `path`, more than the `max` allowed.
pub open spec fn too_many_blocks(path: Seq<char>, max: nat, count: nat) -> DiagnosticView {
    DiagnosticView {
        severity: DiagnosticSeverity::Error,
        summary: "Block '"@ + path + "' allows at most "@ + decimal(max) + " item(s), got "@
            + decimal(count),
        detail: None,
        attribute: Some(path),
    }
}

/// What stands at `path` in place of a list of blocks is no array.
pub open spec fn expected_list(path: Seq<char>, got: Json) -> DiagnosticView {
    DiagnosticView {
        severity: DiagnosticSeverity::Error,
        summary: "Expected list for block '"@ + path + "'"@,
        detail: Some("Got "@ + kind_name(got)),
        attribute: Some(path),
    }
}

/// What stands at `path` in place of a map of blocks is no object.
pub open spec fn expected_map(path: Seq<char>, got: Json) -> DiagnosticView {
    DiagnosticView {
        severity: DiagnosticSeverity::Error,
        summary: "Expected map for block '"@ + path + "'"@,
        detail: Some("Got "@ + kind_name(got)),
        attribute: Some(path),
    }
}

/// Whether `value` is a number that counts as a 64-bit integer.
pub open spec fn int64_value(value: Json) -> bool {
    value matches Json::Number(n) && n.counts_as_int64()
}

/// No diagnostic where `fits`, else that a value of the kind `expected` was
/// looked for at `path`.
pub open spec fn kind_diagnostics(fits: bool, path: Seq<char>, expected: Seq<char>, got: Json) -> Seq<
    DiagnosticView,
> {
    if fits {
        Seq::empty()
    } else {
        seq![type_mismatch(path, expected, got)]
    }
}

/// The diagnostics of `value`, which stands at `path`, against the type `t`.
///
/// A string, a boolean and a number are told by their kind, a 64-bit integer
/// by `int64_value`. A list or a set asks for an array and checks each item at
/// `path.index`; a map asks for an object and checks each member at
/// `path.key`; an object type asks for an object and checks each of its
/// fields that the object has. `Dynamic` takes every value.
pub open spec fn type_diagnostics(t: AttributeType, value: Json, path: Seq<char>) -> Seq<
    DiagnosticView,
>
    decreases t, 0nat,
{
    match t {
        AttributeType::String => kind_diagnostics(value is String, path, "string"@, value),
        AttributeType::Int64 => kind_diagnostics(int64_value(value), path, "int64"@, value),
        AttributeType::Float64 => kind_diagnostics(value is Number, path, "float64"@, value),
        AttributeType::Bool => kind_diagnostics(value is Bool, path, "bool"@, value),
        AttributeType::List(element) => match value {
            Json::Array(items) => items_diagnostics(*element, items, path, items.len()),
            _ => seq![type_mismatch(path, "list"@, value)],
        },
        AttributeType::SetOf(element) => match value {
            Json::Array(items) => items_diagnostics(*element, items, path, items.len()),
            _ => seq![type_mismatch(path, "set"@, value)],
        },
        AttributeType::MapOf(element) => match value {
            Json::Object(members) => members_diagnostics(*element, members, path, members.len()),
            _ => seq![type_mismatch(path, "map"@, value)],
        },
        AttributeType::Object(fields) => match value {
            Json::Object(members) => fields_diagnostics(fields, members, path, fields@.len()),
            _ => seq![type_mismatch(path, "object"@, value)],
        },
        AttributeType::Dynamic => Seq::empty(),
    }
}

/// The diagnostics of the first `count` of `items` against `element`, each
/// item at `path.index`.
pub open spec fn items_diagnostics(
    element: AttributeType,
    items: Seq<Json>,
    path: Seq<char>,
    count: nat,
) -> Seq<DiagnosticView>
    decreases element, count,
{
    if count == 0 {
        Seq::empty()
    } else {
        let i = (count - 1) as nat;
        items_diagnostics(element, items, path, i) + type_diagnostics(
            element,
            items[i as int],
            dotted(path, decimal(i)),
        )
    }
}

/// The diagnostics of the first `count` of `members` against `element`, each
/// member at `path.key`.
pub open spec fn members_diagnostics(
    element: AttributeType,
    members: Seq<(Seq<char>, Json)>,
    path: Seq<char>,
    count: nat,
) -> Seq<DiagnosticView>
    decreases element, count,
{
    if count == 0 {
        Seq::empty()
    } else {
        let i = (count - 1) as nat;
        members_diagnostics(element, members, path, i) + type_diagnostics(
            element,
            members[i as int].1,
            dotted(path, members[i as int].0),
        )
    }
}

/// The diagnostics of an object's `members` against the first `count` of
/// `fields`: each field that the object has, at the field's path, against
/// the field's type.
pub open spec fn fields_diagnostics(
    fields: NameMap<AttributeType>,
    members: Seq<(Seq<char>, Json)>,
    path: Seq<char>,
    count: nat,
) -> Seq<DiagnosticView>
    decreases fields, count,
{
    if count == 0 || count > fields@.len() {
        Seq::empty()
    } else {
        let i = (count - 1) as nat;
        fields_diagnostics(fields, members, path, i) + match lookup(members, fields@[i as int].0) {
            Some(value) => type_diagnostics(
                fields@[i as int].1,
                value,
                joined_path(path, fields@[i as int].0),
            ),
            None => Seq::empty(),
        }
    }
}

/// Appends `diagnostic` to `diagnostics`.
pub fn push_diagnostic(diagnostics: &mut Vec<Diagnostic>, diagnostic: Diagnostic)
    ensures
        diagnostic_views(final(diagnostics)@) == diagnostic_views(old(diagnostics)@).push(
            diagnostic@,
        ),
{
    diagnostics.push(diagnostic);
    assert(diagnostic_views(diagnostics@) =~= diagnostic_views(old(diagnostics)@).push(
        diagnostic@,
    ));
}

/// The name of a value's kind, as the messages give it.
pub fn value_type_name(value: &JsonValue) -> (name: &'static str)
    ensures
        name@ == kind_name(value@),
{
    value.kind_name()
}

/// Whether `value` is a number that counts as a 64-bit integer.
pub fn is_int64(value: &JsonValue) -> (yes: bool)
    ensures
        yes == int64_value(value@),
{
    match value {
        JsonValue::Number(n) => n.is_int64(),
        _ => false,
    }
}

/// The diagnostic for a value of the wrong kind at `path`.
pub fn type_error(path: &str, expected: &str, got: &JsonValue) -> (diagnostic: Diagnostic)
    ensures
        diagnostic@ == type_mismatch(path@, expected@, got@),
{
    let summary = concat3("Invalid type for attribute '", path, "'");
    let mut detail = concat3("Expected ", expected, ", got ");
    detail.append(value_type_name(got));
    Diagnostic {
        severity: DiagnosticSeverity::Error,
        summary,
        detail: Some(detail),
        attribute: Some(String::from_str(path)),
    }
}

/// Checks `value`, which stands at `path`, against `attr_type` and appends
/// what it finds to `diagnostics`.
pub fn validate_attribute_type(
    attr_type: &AttributeType,
    value: &JsonValue,
    path: &str,
    diagnostics: &mut Vec<Diagnostic>,
)
    ensures
        diagnostic_views(final(diagnostics)@) == diagnostic_views(old(diagnostics)@)
            + type_diagnostics(*attr_type, value@, path@),
    decreases attr_type,
{
    let ghost before = diagnostic_views(diagnostics@);
    match attr_type {
        AttributeType::String => {
            if !value.is_string() {
                push_diagnostic(diagnostics, type_error(path, "string", value));
            }
        },
        AttributeType::Int64 => {
            if !is_int64(value) {
                push_diagnostic(diagnostics, type_error(path, "int64", value));
            }
        },
        AttributeType::Float64 => {
            if !value.is_number() {
                push_diagnostic(diagnostics, type_error(path, "float64", value));
            }
        },
        AttributeType::Bool => {
            if !value.is_boolean() {
                push_diagnostic(diagnostics, type_error(path, "bool", value));
            }
        },
        AttributeType::List(element_type) => {
            match value {
                JsonValue::Array(items) => {
                    proof {
                        lemma_array_view(*items);
                    }
                    let mut i: usize = 0;
                    while i < items.len()
                        invariant
                            i <= items.len(),
                            *attr_type == AttributeType::List(*element_type),
                            diagnostic_views(diagnostics@) == before + items_diagnostics(
                                **element_type,
                                item_views(items@),
                                path@,
                                i as nat,
                            ),
                        decreases items.len() - i,
                    {
                        let item_path = dotted_index_path(path, i);
                        proof {
                            assert(decreases_to!(attr_type => attr_type->List_0));
                        }
                        validate_attribute_type(
                            element_type,
                            &items[i],
                            item_path.as_str(),
                            diagnostics,
                        );
                        i += 1;
                        assert(diagnostic_views(diagnostics@) =~= before + items_diagnostics(
                            **element_type,
                            item_views(items@),
                            path@,
                            i as nat,
                        ));
                    }
                },
                _ => {
                    push_diagnostic(diagnostics, type_error(path, "list", value));
                },
            }
        },
        AttributeType::SetOf(element_type) => {
            match value {
                JsonValue::Array(items) => {
                    proof {
                        lemma_array_view(*items);
                    }
                    let mut i: usize = 0;
                    while i < items.len()
                        invariant
                            i <= items.len(),
                            *attr_type == AttributeType::SetOf(*element_type),
                            diagnostic_views(diagnostics@) == before + items_diagnostics(
                                **element_type,
                                item_views(items@),
                                path@,
                                i as nat,
                            ),
                        decreases items.len() - i,
                    {
                        let item_path = dotted_index_path(path, i);
                        proof {
                            assert(decreases_to!(attr_type => attr_type->SetOf_0));
                        }
                        validate_attribute_type(
                            element_type,
                            &items[i],
                            item_path.as_str(),
                            diagnostics,
                        );
                        i += 1;
                        assert(diagnostic_views(diagnostics@) =~= before + items_diagnostics(
                            **element_type,
                            item_views(items@),
                            path@,
                            i as nat,
                        ));
                    }
                },
                _ => {
                    push_diagnostic(diagnostics, type_error(path, "set", value));
                },
            }
        },
        AttributeType::MapOf(value_type) => {
            match value {
                JsonValue::Object(members) => {
                    proof {
                        lemma_object_view(*members);
                    }
                    let mut i: usize = 0;
                    while i < members.len()
                        invariant
                            i <= members@.len(),
                            *attr_type == AttributeType::MapOf(*value_type),
                            diagnostic_views(diagnostics@) == before + members_diagnostics(
                                **value_type,
                                member_views(members@),
                                path@,
                                i as nat,
                            ),
                        decreases members@.len() - i,
                    {
                        let member_path = dotted_path(path, members.name_at(i).as_str());
                        proof {
                            assert(decreases_to!(attr_type => attr_type->MapOf_0));
                        }
                        validate_attribute_type(
                            value_type,
                            members.value_at(i),
                            member_path.as_str(),
                            diagnostics,
                        );
                        i += 1;
                        assert(diagnostic_views(diagnostics@) =~= before + members_diagnostics(
                            **value_type,
                            member_views(members@),
                            path@,
                            i as nat,
                        ));
                    }
                },
                _ => {
                    push_diagnostic(diagnostics, type_error(path, "map", value));
                },
            }
        },
        AttributeType::Object(fields) => {
            match value {
                JsonValue::Object(members) => {
                    validate_object_type(fields, members, path, diagnostics, Ghost(*attr_type));
                    proof {
                        lemma_object_view(*members);
                    }
                },
                _ => {
                    push_diagnostic(diagnostics, type_error(path, "object", value));
                },
            }
        },
        AttributeType::Dynamic => {},
    }
    assert(diagnostic_views(diagnostics@) =~= before + type_diagnostics(*attr_type, value@, path@));
}

/// Checks the members of an object against the fields of an object type:
/// each field that the object has, against the field's type.
fn validate_object_type(
    fields: &NameMap<AttributeType>,
    members: &NameMap<JsonValue>,
    path: &str,
    diagnostics: &mut Vec<Diagnostic>,
    Ghost(whole): Ghost<AttributeType>,
)
    requires
        whole == AttributeType::Object(*fields),
    ensures
        diagnostic_views(final(diagnostics)@) == diagnostic_views(old(diagnostics)@)
            + fields_diagnostics(*fields, member_views(members@), path@, fields@.len()),
    decreases whole, 0nat,
{
    let ghost before = diagnostic_views(diagnostics@);
    let mut i: usize = 0;
    while i < fields.len()
        invariant
            i <= fields@.len(),
            whole == AttributeType::Object(*fields),
            diagnostic_views(diagnostics@) == before + fields_diagnostics(
                *fields,
                member_views(members@),
                path@,
                i as nat,
            ),
        decreases fields@.len() - i,
    {
        let name = fields.name_at(i);
        let field_path = join_path(path, name.as_str());
        proof {
            use_type_invariant(members);
            lemma_member_views(members@, name@);
        }
        match members.get(name.as_str()) {
            Some(member) => {
                proof {
                    assert(decreases_to!(whole => whole->Object_0));
                    lemma_value_decreases(*fields, i as int);
                }
                validate_attribute_type(
                    fields.value_at(i),
                    member,
                    field_path.as_str(),
                    diagnostics,
                );
            },
            None => {},
        }
        i += 1;
        assert(diagnostic_views(diagnostics@) =~= before + fields_diagnostics(
            *fields,
            member_views(members@),
            path@,
            i as nat,
        ));
    }
}

/// The value under `name` among `members`, by its view.
pub open spec fn member_view(found: Option<&JsonValue>) -> Option<Json> {
    match found {
        Some(value) => Some(value@),
        None => None,
    }
}

/// The diagnostics of what an object holds for the attribute `attr`, whose
/// path is `path`.
///
/// An attribute that the provider alone sets is passed over. Else an absent
/// or `null` value is reported where the attribute is required, and a
/// present one is checked against the attribute's type.
pub open spec fn attribute_diagnostics(attr: Attribute, value: Option<Json>, path: Seq<char>) -> Seq<
    DiagnosticView,
> {
    if attr.flags.computed_only() {
        Seq::empty()
    } else {
        match value {
            None | Some(Json::Null) => if attr.flags.required {
                seq![missing_attribute(path)]
            } else {
                Seq::empty()
            },
            Some(present) => type_diagnostics(attr.attr_type, present, path),
        }
    }
}

/// The diagnostics of an object's `members` against the first `count` of
/// `attributes`.
pub open spec fn attributes_diagnostics(
    attributes: Seq<(Seq<char>, Attribute)>,
    members: Seq<(Seq<char>, Json)>,
    path: Seq<char>,
    count: nat,
) -> Seq<DiagnosticView>
    decreases count,
{
    if count == 0 {
        Seq::empty()
    } else {
        let i = (count - 1) as nat;
        attributes_diagnostics(attributes, members, path, i) + attribute_diagnostics(
            attributes[i as int].1,
            lookup(members, attributes[i as int].0),
            joined_path(path, attributes[i as int].0),
        )
    }
}

/// The diagnostics on the number of blocks at `path`: fewer than `min`, and
/// more than `max` where `max` is not 0, each by itself.
pub open spec fn count_diagnostics(path: Seq<char>, min: nat, max: nat, count: nat) -> Seq<
    DiagnosticView,
> {
    (if count < min {
        seq![too_few_blocks(path, min, count)]
    } else {
        Seq::empty()
    }) + (if max > 0 && count > max {
        seq![too_many_blocks(path, max, count)]
    } else {
        Seq::empty()
    })
}

/// The diagnostics of `value`, which stands at `path`, against `block`.
///
/// `null` passes. A value that is no object is reported, and nothing more
/// is looked at. Of an object, first each attribute of the block is checked,
/// then each nested block, in the order of their names.
pub open spec fn block_diagnostics(block: Block, value: Json, path: Seq<char>) -> Seq<
    DiagnosticView,
>
    decreases block, 0nat,
{
    match value {
        Json::Object(members) => attributes_diagnostics(
            block.attributes@,
            members,
            path,
            block.attributes@.len(),
        ) + nested_blocks_diagnostics(block.blocks, members, path, block.blocks@.len()),
        Json::Null => Seq::empty(),
        _ => seq![expected_object(path, value)],
    }
}

/// The diagnostics of an object's `members` against the first `count` of the
/// nested blocks `blocks`.
pub open spec fn nested_blocks_diagnostics(
    blocks: BlockMap,
    members: Seq<(Seq<char>, Json)>,
    path: Seq<char>,
    count: nat,
) -> Seq<DiagnosticView>
    decreases blocks, count,
{
    if count == 0 || count > blocks@.len() {
        Seq::empty()
    } else {
        let i = (count - 1) as nat;
        nested_blocks_diagnostics(blocks, members, path, i) + nested_diagnostics(
            blocks@[i as int].1,
            lookup(members, blocks@[i as int].0),
            joined_path(path, blocks@[i as int].0),
        )
    }
}

/// The diagnostics of what an object holds for the nested block `nested`,
/// whose path is `path`.
///
/// Absent or `null` passes unless `min_items` asks for a block. A single
/// block is checked at `path`. A list or a set asks for an array: its length
/// is held against the limits, and each item is checked at `path.index`. A
/// map asks for an object: the number of its members is held against the
/// limits, and each member is checked at `path.key`.
pub open spec fn nested_diagnostics(nested: NestedBlock, value: Option<Json>, path: Seq<char>) -> Seq<
    DiagnosticView,
>
    decreases nested, 0nat,
{
    match nested.nesting_mode {
        BlockNestingMode::Single => match value {
            None | Some(Json::Null) => if nested.min_items > 0 {
                seq![missing_block(path)]
            } else {
                Seq::empty()
            },
            Some(present) => block_diagnostics(nested.block, present, path),
        },
        BlockNestingMode::List | BlockNestingMode::SetOf => match value {
            None | Some(Json::Null) => if nested.min_items > 0 {
                seq![absent_blocks(path, nested.min_items as nat)]
            } else {
                Seq::empty()
            },
            Some(Json::Array(items)) => count_diagnostics(
                path,
                nested.min_items as nat,
                nested.max_items as nat,
                items.len(),
            ) + block_items_diagnostics(nested.block, items, path, items.len()),
            Some(other) => seq![expected_list(path, other)],
        },
        BlockNestingMode::MapOf => match value {
            None | Some(Json::Null) => if nested.min_items > 0 {
                seq![absent_blocks(path, nested.min_items as nat)]
            } else {
                Seq::empty()
            },
            Some(Json::Object(members)) => count_diagnostics(
                path,
                nested.min_items as nat,
                nested.max_items as nat,
                members.len(),
            ) + block_members_diagnostics(nested.block, members, path, members.len()),
            Some(other) => seq![expected_map(path, other)],
        },
    }
}

/// The diagnostics of the first `count` of `items` against `block`, each
/// item at `path.index`.
pub open spec fn block_items_diagnostics(
    block: Block,
    items: Seq<Json>,
    path: Seq<char>,
    count: nat,
) -> Seq<DiagnosticView>
    decreases block, count,
{
    if count == 0 {
        Seq::empty()
    } else {
        let i = (count - 1) as nat;
        block_items_diagnostics(block, items, path, i) + block_diagnostics(
            block,
            items[i as int],
            dotted(path, decimal(i)),
        )
    }
}

/// The diagnostics of the first `count` of `members` against `block`, each
/// member at `path.key`.
pub open spec fn block_members_diagnostics(
    block: Block,
    members: Seq<(Seq<char>, Json)>,
    path: Seq<char>,
    count: nat,
) -> Seq<DiagnosticView>
    decreases block, count,
{
    if count == 0 {
        Seq::empty()
    } else {
        let i = (count - 1) as nat;
        block_members_diagnostics(block, members, path, i) + block_diagnostics(
            block,
            members[i as int].1,
            dotted(path, members[i as int].0),
        )
    }
}

/// The diagnostics of `value` against `schema`: those of its root block,
/// with the empty path for the root.
pub open spec fn validation_diagnostics(schema: Schema, value: Json) -> Seq<DiagnosticView> {
    block_diagnostics(schema.block, value, Seq::empty())
}

/// An error that says `summary`, about the attribute at `path`.
fn error_at(summary: String, path: &str) -> (diagnostic: Diagnostic)
    ensures
        diagnostic@ == (DiagnosticView {
            severity: DiagnosticSeverity::Error,
            summary: summary@,
            detail: None,
            attribute: Some(path@),
        }),
{
    Diagnostic {
        severity: DiagnosticSeverity::Error,
        summary,
        detail: None,
        attribute: Some(String::from_str(path)),
    }
}

/// `"Got "` and the kind of `got`.
fn got_kind(got: &JsonValue) -> (text: String)
    ensures
        text@ == "Got "@ + kind_name(got@),
{
    let mut text = String::from_str("Got ");
    text.append(value_type_name(got));
    text
}

/// The texts that hold a number of blocks against a limit: what stands
/// before the limit in `head`, and the limit and the number in decimal.
fn limit_summary(head: &str, path: &str, limit: u32, count: usize) -> (text: String)
    ensures
        text@ == "Block '"@ + path@ + head@ + decimal(limit as nat) + " item(s), got "@ + decimal(
            count as nat,
        ),
{
    let mut text = concat3("Block '", path, head);
    text.append(decimal_text(limit as u64).as_str());
    text.append(" item(s), got ");
    text.append(decimal_text(count as u64).as_str());
    text
}

/// Holds `count` blocks at `path` against the limits of `nested`.
fn validate_count(nested: &NestedBlock, count: usize, path: &str, diagnostics: &mut Vec<Diagnostic>)
    ensures
        diagnostic_views(final(diagnostics)@) == diagnostic_views(old(diagnostics)@)
            + count_diagnostics(
            path@,
            nested.min_items as nat,
            nested.max_items as nat,
            count as nat,
        ),
{
    let ghost before = diagnostic_views(diagnostics@);
    if count < nested.min_items as usize {
        let summary = limit_summary("' requires at least ", path, nested.min_items, count);
        push_diagnostic(diagnostics, error_at(summary, path));
    }
    if nested.max_items > 0 && count > nested.max_items as usize {
        let summary = limit_summary("' allows at most ", path, nested.max_items, count);
        push_diagnostic(diagnostics, error_at(summary, path));
    }
    assert(diagnostic_views(diagnostics@) =~= before + count_diagnostics(
        path@,
        nested.min_items as nat,
        nested.max_items as nat,
        count as nat,
    ));
}

/// Reports that the blocks at `path`, of which `nested` asks for some, are
/// absent.
fn validate_absent(nested: &NestedBlock, path: &str, diagnostics: &mut Vec<Diagnostic>)
    ensures
        diagnostic_views(final(diagnostics)@) == diagnostic_views(old(diagnostics)@) + (if nested.min_items
            > 0 {
            seq![absent_blocks(path@, nested.min_items as nat)]
        } else {
            Seq::empty()
        }),
{
    let ghost before = diagnostic_views(diagnostics@);
    if nested.min_items > 0 {
        let mut summary = concat3("Block '", path, "' requires at least ");
        summary.append(decimal_text(nested.min_items as u64).as_str());
        summary.append(" item(s)");
        push_diagnostic(diagnostics, error_at(summary, path));
        assert(diagnostic_views(diagnostics@) =~= before + seq![
            absent_blocks(path@, nested.min_items as nat),
        ]);
    } else {
        assert(diagnostic_views(diagnostics@) =~= before + Seq::empty());
    }
}

/// Checks what an object holds for the attribute `attr`, whose path is
/// `path`.
pub fn validate_attribute(
    attr: &Attribute,
    value: Option<&JsonValue>,
    path: &str,
    diagnostics: &mut Vec<Diagnostic>,
)
    ensures
        diagnostic_views(final(diagnostics)@) == diagnostic_views(old(diagnostics)@)
            + attribute_diagnostics(*attr, member_view(value), path@),
{
    let ghost before = diagnostic_views(diagnostics@);
    if attr.flags.computed && !attr.flags.optional && !attr.flags.required {
        assert(diagnostic_views(diagnostics@) =~= before + Seq::empty());
        return ;
    }
    let absent = match value {
        None => true,
        Some(present) => present.is_null(),
    };
    if absent {
        if attr.flags.required {
            let summary = concat3("Missing required attribute '", path, "'");
            push_diagnostic(
                diagnostics,
                Diagnostic {
                    severity: DiagnosticSeverity::Error,
                    summary,
                    detail: Some(String::from_str("This attribute is required and must be provided")),
                    attribute: Some(String::from_str(path)),
                },
            );
            assert(diagnostic_views(diagnostics@) =~= before + seq![missing_attribute(path@)]);
        } else {
            assert(diagnostic_views(diagnostics@) =~= before + Seq::empty());
        }
    } else {
        match value {
            Some(present) => {
                validate_attribute_type(&attr.attr_type, present, path, diagnostics);
            },
            None => {},
        }
    }
}

/// Checks `value`, which stands at `path`, against `block`.
pub fn validate_block(
    block: &Block,
    value: &JsonValue,
    path: &str,
    diagnostics: &mut Vec<Diagnostic>,
)
    ensures
        diagnostic_views(final(diagnostics)@) == diagnostic_views(old(diagnostics)@)
            + block_diagnostics(*block, value@, path@),
    decreases block, 0nat,
{
    let ghost before = diagnostic_views(diagnostics@);
    match value {
        JsonValue::Object(members) => {
            proof {
                lemma_object_view(*members);
            }
            let mut i: usize = 0;
            while i < block.attributes.len()
                invariant
                    i <= block.attributes@.len(),
                    diagnostic_views(diagnostics@) == before + attributes_diagnostics(
                        block.attributes@,
                        member_views(members@),
                        path@,
                        i as nat,
                    ),
                decreases block.attributes@.len() - i,
            {
                let name = block.attributes.name_at(i);
                let attr_path = join_path(path, name.as_str());
                proof {
                    use_type_invariant(members);
                    lemma_member_views(members@, name@);
                }
                validate_attribute(
                    block.attributes.value_at(i),
                    members.get(name.as_str()),
                    attr_path.as_str(),
                    diagnostics,
                );
                i += 1;
                assert(diagnostic_views(diagnostics@) =~= before + attributes_diagnostics(
                    block.attributes@,
                    member_views(members@),
                    path@,
                    i as nat,
                ));
            }
            let ghost after_attributes = diagnostic_views(diagnostics@);
            let mut j: usize = 0;
            while j < block.blocks.len()
                invariant
                    j <= block.blocks@.len(),
                    diagnostic_views(diagnostics@) == after_attributes + nested_blocks_diagnostics(
                        block.blocks,
                        member_views(members@),
                        path@,
                        j as nat,
                    ),
                decreases block.blocks@.len() - j,
            {
                let name = block.blocks.name_at(j);
                let block_path = join_path(path, name.as_str());
                proof {
                    use_type_invariant(members);
                    lemma_member_views(members@, name@);
                    assert(decreases_to!(block => block.blocks));
                    lemma_block_decreases(block.blocks, j as int);
                }
                validate_nested_block(
                    block.blocks.value_at(j),
                    members.get(name.as_str()),
                    block_path.as_str(),
                    diagnostics,
                );
                j += 1;
                assert(diagnostic_views(diagnostics@) =~= after_attributes
                    + nested_blocks_diagnostics(
                    block.blocks,
                    member_views(members@),
                    path@,
                    j as nat,
                ));
            }
            assert(diagnostic_views(diagnostics@) =~= before + block_diagnostics(
                *block,
                value@,
                path@,
            ));
        },
        JsonValue::Null => {
            assert(diagnostic_views(diagnostics@) =~= before + Seq::empty());
        },
        _ => {
            let diagnostic = Diagnostic {
                severity: DiagnosticSeverity::Error,
                summary: String::from_str("Expected object"),
                detail: Some(got_kind(value)),
                attribute: if path.is_empty() {
                    None
                } else {
                    Some(String::from_str(path))
                },
            };
            push_diagnostic(diagnostics, diagnostic);
            assert(diagnostic_views(diagnostics@) =~= before + seq![
                expected_object(path@, value@),
            ]);
        },
    }
}

/// Checks what an object holds for the nested block `nested`, whose path is
/// `path`.
pub fn validate_nested_block(
    nested: &NestedBlock,
    value: Option<&JsonValue>,
    path: &str,
    diagnostics: &mut Vec<Diagnostic>,
)
    ensures
        diagnostic_views(final(diagnostics)@) == diagnostic_views(old(diagnostics)@)
            + nested_diagnostics(*nested, member_view(value), path@),
    decreases nested, 1nat,
{
    match nested.nesting_mode {
        BlockNestingMode::Single => {
            validate_single_block(nested, value, path, diagnostics);
        },
        BlockNestingMode::List => {
            validate_list_block(nested, value, path, diagnostics);
        },
        BlockNestingMode::SetOf => {
            validate_list_block(nested, value, path, diagnostics);
        },
        BlockNestingMode::MapOf => {
            validate_map_block(nested, value, path, diagnostics);
        },
    }
}

/// Whether a member is absent or `null`.
fn absent_or_null(value: Option<&JsonValue>) -> (absent: bool)
    ensures
        absent == (member_view(value) is None || member_view(value) == Some(Json::Null)),
{
    match value {
        None => true,
        Some(present) => present.is_null(),
    }
}

/// Checks what an object holds for a block that occurs at most once.
fn validate_single_block(
    nested: &NestedBlock,
    value: Option<&JsonValue>,
    path: &str,
    diagnostics: &mut Vec<Diagnostic>,
)
    requires
        nested.nesting_mode == BlockNestingMode::Single,
    ensures
        diagnostic_views(final(diagnostics)@) == diagnostic_views(old(diagnostics)@)
            + nested_diagnostics(*nested, member_view(value), path@),
    decreases nested, 0nat,
{
    let ghost before = diagnostic_views(diagnostics@);
    if absent_or_null(value) {
        if nested.min_items > 0 {
            let summary = concat3("Missing required block '", path, "'");
            push_diagnostic(
                diagnostics,
                Diagnostic {
                    severity: DiagnosticSeverity::Error,
                    summary,
                    detail: Some(String::from_str("At least one block is required")),
                    attribute: Some(String::from_str(path)),
                },
            );
            assert(diagnostic_views(diagnostics@) =~= before + seq![missing_block(path@)]);
        } else {
            assert(diagnostic_views(diagnostics@) =~= before + Seq::empty());
        }
    } else {
        match value {
            Some(present) => {
                validate_block(&nested.block, present, path, diagnostics);
            },
            None => {},
        }
    }
}

/// Checks what an object holds for a list or a set of blocks.
fn validate_list_block(
    nested: &NestedBlock,
    value: Option<&JsonValue>,
    path: &str,
    diagnostics: &mut Vec<Diagnostic>,
)
    requires
        nested.nesting_mode == BlockNestingMode::List || nested.nesting_mode
            == BlockNestingMode::SetOf,
    ensures
        diagnostic_views(final(diagnostics)@) == diagnostic_views(old(diagnostics)@)
            + nested_diagnostics(*nested, member_view(value), path@),
    decreases nested, 0nat,
{
    let ghost before = diagnostic_views(diagnostics@);
    if absent_or_null(value) {
        validate_absent(nested, path, diagnostics);
        return ;
    }
    match value {
        Some(JsonValue::Array(items)) => {
            proof {
                lemma_array_view(*items);
            }
            validate_count(nested, items.len(), path, diagnostics);
            let ghost after_count = diagnostic_views(diagnostics@);
            let mut i: usize = 0;
            while i < items.len()
                invariant
                    i <= items.len(),
                    diagnostic_views(diagnostics@) == after_count + block_items_diagnostics(
                        nested.block,
                        item_views(items@),
                        path@,
                        i as nat,
                    ),
                decreases items.len() - i,
            {
                let item_path = dotted_index_path(path, i);
                validate_block(&nested.block, &items[i], item_path.as_str(), diagnostics);
                i += 1;
                assert(diagnostic_views(diagnostics@) =~= after_count + block_items_diagnostics(
                    nested.block,
                    item_views(items@),
                    path@,
                    i as nat,
                ));
            }
            assert(diagnostic_views(diagnostics@) =~= before + nested_diagnostics(
                *nested,
                member_view(value),
                path@,
            ));
        },
        Some(other) => {
            let summary = concat3("Expected list for block '", path, "'");
            push_diagnostic(
                diagnostics,
                Diagnostic {
                    severity: DiagnosticSeverity::Error,
                    summary,
                    detail: Some(got_kind(other)),
                    attribute: Some(String::from_str(path)),
                },
            );
            assert(diagnostic_views(diagnostics@) =~= before + seq![
                expected_list(path@, other@),
            ]);
        },
        None => {},
    }
}

/// Checks what an object holds for a map of blocks.
fn validate_map_block(
    nested: &NestedBlock,
    value: Option<&JsonValue>,
    path: &str,
    diagnostics: &mut Vec<Diagnostic>,
)
    requires
        nested.nesting_mode == BlockNestingMode::MapOf,
    ensures
        diagnostic_views(final(diagnostics)@) == diagnostic_views(old(diagnostics)@)
            + nested_diagnostics(*nested, member_view(value), path@),
    decreases nested, 0nat,
{
    let ghost before = diagnostic_views(diagnostics@);
    if absent_or_null(value) {
        validate_absent(nested, path, diagnostics);
        return ;
    }
    match value {
        Some(JsonValue::Object(members)) => {
            proof {
                lemma_object_view(*members);
            }
            validate_count(nested, members.len(), path, diagnostics);
            let ghost after_count = diagnostic_views(diagnostics@);
            let mut i: usize = 0;
            while i < members.len()
                invariant
                    i <= members@.len(),
                    diagnostic_views(diagnostics@) == after_count + block_members_diagnostics(
                        nested.block,
                        member_views(members@),
                        path@,
                        i as nat,
                    ),
                decreases members@.len() - i,
            {
                let member_path = dotted_path(path, members.name_at(i).as_str());
                validate_block(
                    &nested.block,
                    members.value_at(i),
                    member_path.as_str(),
                    diagnostics,
                );
                i += 1;
                assert(diagnostic_views(diagnostics@) =~= after_count + block_members_diagnostics(
                    nested.block,
                    member_views(members@),
                    path@,
                    i as nat,
                ));
            }
            assert(diagnostic_views(diagnostics@) =~= before + nested_diagnostics(
                *nested,
                member_view(value),
                path@,
            ));
        },
        Some(other) => {
            let summary = concat3("Expected map for block '", path, "'");
            push_diagnostic(
                diagnostics,
                Diagnostic {
                    severity: DiagnosticSeverity::Error,
                    summary,
                    detail: Some(got_kind(other)),
                    attribute: Some(String::from_str(path)),
                },
            );
            assert(diagnostic_views(diagnostics@) =~= before + seq![
                expected_map(path@, other@),
            ]);
        },
        None => {},
    }
}

/// Checks `value` against `schema` and returns every departure found, in
/// the order in which the schema is walked. No diagnostic means that the
/// value is valid.
pub fn validate(schema: &Schema, value: &JsonValue) -> (diagnostics: Vec<Diagnostic>)
    ensures
        diagnostic_views(diagnostics@) == validation_diagnostics(*schema, value@),
{
    let mut diagnostics: Vec<Diagnostic> = Vec::new();
    validate_block(&schema.block, value, "", &mut diagnostics);
    proof {
        reveal_strlit("");
        assert(""@ =~= Seq::<char>::empty());
        assert(diagnostic_views(diagnostics@) =~= validation_diagnostics(*schema, value@));
    }
    diagnostics
}

/// `Ok` where `value` is valid against `schema`, else the diagnostics.
pub fn validate_result(schema: &Schema, value: &JsonValue) -> (result: Result<(), Vec<Diagnostic>>)
    ensures
        match result {
            Ok(_) => validation_diagnostics(*schema, value@).len() == 0,
            Err(diagnostics) => diagnostics@.len() > 0 && diagnostic_views(diagnostics@)
                == validation_diagnostics(*schema, value@),
        },
{
    let diagnostics = validate(schema, value);
    if diagnostics.len() == 0 {
        Ok(())
    } else {
        Err(diagnostics)
    }
}

/// Whether `value` is valid against `schema`.
pub fn is_valid(schema: &Schema, value: &JsonValue) -> (valid: bool)
    ensures
        valid == (validation_diagnostics(*schema, value@).len() == 0),
{
    validate(schema, value).len() == 0
}

} // verus!
