//! Schemas as they go over the wire: a block as the list of its attributes
//! and the list of its nested blocks, the type of an attribute as JSON.
//!
//! The JSON of a type is its name as a string for a type without parts, and
//! an object with one member, named after the kind, for the others:
//! `{"list": element}`, `{"set": element}`, `{"map": element}`,
//! `{"object": {field: type, ..}}`.

use vstd::prelude::*;
use crate::codec::{encode_payload, encoded};
use crate::json::{lemma_object_view, member_views, Json, JsonValue};
use crate::name_map::{lemma_value_decreases, named, text_less, NameMap};
use crate::protocol::{optional_payload, text_or_empty};
use crate::schema::{lemma_block_decreases, optional_text, Attribute, AttributeType, Block, BlockNestingMode, NestedBlock, ProviderSchema, Schema};
use crate::types::optional_view;

verus! {

/// The JSON of the type `t`.
pub open spec fn type_json(t: AttributeType) -> Json
    decreases t, 0nat,
{
    match t {
        AttributeType::String => Json::String("string"@),
        AttributeType::Int64 => Json::String("int64"@),
        AttributeType::Float64 => Json::String("float64"@),
        AttributeType::Bool => Json::String("bool"@),
        AttributeType::List(element) => Json::Object(seq![("list"@, type_json(*element))]),
        AttributeType::SetOf(element) => Json::Object(seq![("set"@, type_json(*element))]),
        AttributeType::MapOf(element) => Json::Object(seq![("map"@, type_json(*element))]),
        AttributeType::Object(fields) => Json::Object(
            seq![("object"@, Json::Object(field_jsons(fields, fields@.len())))],
        ),
        AttributeType::Dynamic => Json::String("dynamic"@),
    }
}

/// The first `count` of `fields`, each with the JSON of its type.
pub open spec fn field_jsons(fields: NameMap<AttributeType>, count: nat) -> Seq<(Seq<char>, Json)>
    decreases fields, count,
{
    if count == 0 || count > fields@.len() {
        Seq::empty()
    } else {
        let i = (count - 1) as int;
        field_jsons(fields, i as nat).push((fields@[i].0, type_json(fields@[i].1)))
    }
}

/// `field_jsons` has one entry for each field, under the field's name.
proof fn lemma_field_jsons(fields: NameMap<AttributeType>, count: nat)
    requires
        count <= fields@.len(),
    ensures
        field_jsons(fields, count).len() == count,
        forall|i: int|
            0 <= i < count ==> (#[trigger] field_jsons(fields, count)[i]) == (
                fields@[i].0,
                type_json(fields@[i].1),
            ),
    decreases count,
{
    if count > 0 {
        lemma_field_jsons(fields, (count - 1) as nat);
    }
}

/// The object with the one member `value` under `key`.
fn single_member(key: &str, value: JsonValue) -> (object: JsonValue)
    ensures
        object@ == Json::Object(seq![(key@, value@)]),
{
    let mut members: Vec<(String, JsonValue)> = Vec::new();
    members.push((key.to_owned(), value));
    let map = NameMap::from_ascending(members);
    proof {
        lemma_object_view(map);
        assert(member_views(map@) =~= seq![(key@, value@)]);
    }
    JsonValue::Object(map)
}

/// The JSON of the type `t`.
pub fn attribute_type_json(t: &AttributeType) -> (json: JsonValue)
    ensures
        json@ == type_json(*t),
    decreases t,
{
    match t {
        AttributeType::String => JsonValue::text("string"),
        AttributeType::Int64 => JsonValue::text("int64"),
        AttributeType::Float64 => JsonValue::text("float64"),
        AttributeType::Bool => JsonValue::text("bool"),
        AttributeType::List(element) => {
            proof {
                assert(decreases_to!(t => t->List_0));
            }
            single_member("list", attribute_type_json(element))
        },
        AttributeType::SetOf(element) => {
            proof {
                assert(decreases_to!(t => t->SetOf_0));
            }
            single_member("set", attribute_type_json(element))
        },
        AttributeType::MapOf(element) => {
            proof {
                assert(decreases_to!(t => t->MapOf_0));
            }
            single_member("map", attribute_type_json(element))
        },
        AttributeType::Object(fields) => {
            let mut members: Vec<(String, JsonValue)> = Vec::new();
            let mut i: usize = 0;
            while i < fields.len()
                invariant
                    i <= fields@.len(),
                    members.len() == i,
                    *t == AttributeType::Object(*fields),
                    forall|k: int|
                        0 <= k < i ==> (#[trigger] members@[k]).0@ == fields@[k].0 && members@[k].1@
                            == type_json(fields@[k].1),
                decreases fields@.len() - i,
            {
                proof {
                    assert(decreases_to!(t => t->Object_0));
                    lemma_value_decreases(*fields, i as int);
                }
                let json = attribute_type_json(fields.value_at(i));
                members.push((fields.name_at(i).clone(), json));
                i += 1;
            }
            proof {
                use_type_invariant(fields);
                assert forall|i: int, j: int| 0 <= i < j < members@.len() implies text_less(
                    #[trigger] named(members@)[i].0,
                    #[trigger] named(members@)[j].0,
                ) by {
                    assert(text_less(fields@[i].0, fields@[j].0));
                }
            }
            let map = NameMap::from_ascending(members);
            proof {
                lemma_object_view(map);
                lemma_field_jsons(*fields, fields@.len());
                assert(member_views(map@) =~= field_jsons(*fields, fields@.len()));
            }
            single_member("object", JsonValue::Object(map))
        },
        AttributeType::Dynamic => JsonValue::text("dynamic"),
    }
}

/// An attribute on the wire.
#[derive(Debug, Clone, PartialEq, Eq)]
pub struct AttributeMessage {
    /// The name of the attribute.
    pub name: String,
    /// The JSON of its type, written as bytes.
    pub attr_type: Vec<u8>,
    /// The configuration must give the attribute.
    pub required: bool,
    /// The configuration may give the attribute.
    pub optional: bool,
    /// The provider sets the attribute.
    pub computed: bool,
    /// The attribute's value is to be hidden.
    pub sensitive: bool,
    /// A description for people; empty where there is none.
    pub description: String,
    /// Whether a change of the attribute asks for a new resource.
    pub force_new: bool,
    /// The default, written as JSON; empty where there is none.
    pub default_value: Vec<u8>,
}

/// A nested block on the wire.
#[derive(Debug, PartialEq, Eq)]
pub struct NestedBlockMessage {
    /// The name of the nested block.
    pub name: String,
    /// The block.
    pub block: BlockMessage,
    /// How the block repeats.
    pub nesting_mode: BlockNestingMode,
    /// The least number of blocks.
    pub min_items: u32,
    /// The greatest number of blocks; 0 sets no limit.
    pub max_items: u32,
}

/// A block on the wire.
#[derive(Debug, PartialEq, Eq)]
pub struct BlockMessage {
    /// The attributes, in ascending order of their names.
    pub attributes: Vec<AttributeMessage>,
    /// The nested blocks, in ascending order of their names.
    pub block_types: Vec<NestedBlockMessage>,
    /// A description for people; empty where there is none.
    pub description: String,
}

/// A schema on the wire.
#[derive(Debug, PartialEq, Eq)]
pub struct SchemaMessage {
    /// The version.
    pub version: u64,
    /// The root block.
    pub block: BlockMessage,
}

/// Whether `message` carries the attribute `attr` called `name`.
pub open spec fn carries_attribute(name: Seq<char>, attr: Attribute, message: AttributeMessage) -> bool {
    &&& message.name@ == name
    &&& message.attr_type@ == encoded(type_json(attr.attr_type))
    &&& message.required == attr.flags.required
    &&& message.optional == attr.flags.optional
    &&& message.computed == attr.flags.computed
    &&& message.sensitive == attr.flags.sensitive
    &&& message.description@ == text_or_empty(optional_text(attr.description))
    &&& message.force_new == attr.force_new
    &&& message.default_value@ == optional_payload(optional_view(attr.default))
}

/// Whether `message` carries `block`: each attribute and each nested block
/// in its place, in ascending order of the names.
pub open spec fn carries_block(block: Block, message: BlockMessage) -> bool
    decreases block, 0nat,
{
    &&& message.attributes@.len() == block.attributes@.len()
    &&& forall|i: int|
        0 <= i < block.attributes@.len() ==> carries_attribute(
            block.attributes@[i].0,
            block.attributes@[i].1,
            #[trigger] message.attributes@[i],
        )
    &&& message.block_types@.len() == block.blocks@.len()
    &&& carries_nested_blocks(block.blocks, message.block_types@, block.blocks@.len())
    &&& message.description@ == text_or_empty(optional_text(block.description))
}

/// Whether the first `count` of `messages` carry the first `count` nested
/// blocks of `blocks`.
pub open spec fn carries_nested_blocks(
    blocks: crate::schema::BlockMap,
    messages: Seq<NestedBlockMessage>,
    count: nat,
) -> bool
    decreases blocks, count,
{
    if count == 0 || count > blocks@.len() || count > messages.len() {
        count == 0
    } else {
        let i = (count - 1) as int;
        &&& carries_nested_blocks(blocks, messages, i as nat)
        &&& carries_nested(blocks@[i].0, blocks@[i].1, messages[i])
    }
}

/// Whether `message` carries the nested block `nested` called `name`.
pub open spec fn carries_nested(name: Seq<char>, nested: NestedBlock, message: NestedBlockMessage) -> bool
    decreases nested, 0nat,
{
    &&& message.name@ == name
    &&& carries_block(nested.block, message.block)
    &&& message.nesting_mode == nested.nesting_mode
    &&& message.min_items == nested.min_items
    &&& message.max_items == nested.max_items
}

/// The message that carries the attribute `attr` called `name`.
fn attribute_to_proto(name: &String, attr: &Attribute) -> (message: AttributeMessage)
    ensures
        carries_attribute(name@, *attr, message),
{
    let type_json = attribute_type_json(&attr.attr_type);
    AttributeMessage {
        name: name.clone(),
        attr_type: encode_payload(&type_json),
        required: attr.flags.required,
        optional: attr.flags.optional,
        computed: attr.flags.computed,
        sensitive: attr.flags.sensitive,
        description: match &attr.description {
            Some(text) => text.clone(),
            None => String::new(),
        },
        force_new: attr.force_new,
        default_value: match &attr.default {
            Some(value) => encode_payload(value),
            None => Vec::new(),
        },
    }
}

/// The message that carries `block`.
pub fn block_to_proto(block: &Block) -> (message: BlockMessage)
    ensures
        carries_block(*block, message),
    decreases block,
{
    let mut attributes: Vec<AttributeMessage> = Vec::new();
    let mut i: usize = 0;
    while i < block.attributes.len()
        invariant
            i <= block.attributes@.len(),
            attributes.len() == i,
            forall|k: int|
                0 <= k < i ==> carries_attribute(
                    block.attributes@[k].0,
                    block.attributes@[k].1,
                    #[trigger] attributes@[k],
                ),
        decreases block.attributes@.len() - i,
    {
        attributes.push(
            attribute_to_proto(block.attributes.name_at(i), block.attributes.value_at(i)),
        );
        i += 1;
    }
    let mut block_types: Vec<NestedBlockMessage> = Vec::new();
    let mut j: usize = 0;
    while j < block.blocks.len()
        invariant
            j <= block.blocks@.len(),
            block_types.len() == j,
            carries_nested_blocks(block.blocks, block_types@, j as nat),
        decreases block.blocks@.len() - j,
    {
        let nested = block.blocks.value_at(j);
        proof {
            assert(decreases_to!(block => block.blocks));
            lemma_block_decreases(block.blocks, j as int);
            assert(decreases_to!(nested => nested.block));
        }
        let ghost before = block_types@;
        let inner = block_to_proto(&nested.block);
        block_types.push(
            NestedBlockMessage {
                name: block.blocks.name_at(j).clone(),
                block: inner,
                nesting_mode: nested.nesting_mode,
                min_items: nested.min_items,
                max_items: nested.max_items,
            },
        );
        proof {
            lemma_carries_prefix(block.blocks, before, block_types@, j as nat);
            assert(carries_nested(block.blocks@[j as int].0, *nested, block_types@[j as int]));
            assert(carries_nested_blocks(block.blocks, block_types@, (j + 1) as nat));
        }
        j += 1;
    }
    BlockMessage {
        attributes,
        block_types,
        description: match &block.description {
            Some(text) => text.clone(),
            None => String::new(),
        },
    }
}

/// What the first `count` messages carry does not depend on the messages
/// that follow them.
proof fn lemma_carries_prefix(
    blocks: crate::schema::BlockMap,
    shorter: Seq<NestedBlockMessage>,
    longer: Seq<NestedBlockMessage>,
    count: nat,
)
    requires
        count <= shorter.len(),
        shorter.len() <= longer.len(),
        forall|i: int| 0 <= i < shorter.len() ==> shorter[i] == longer[i],
        carries_nested_blocks(blocks, shorter, count),
    ensures
        carries_nested_blocks(blocks, longer, count),
    decreases count,
{
    if count > 0 && count <= blocks@.len() {
        lemma_carries_prefix(blocks, shorter, longer, (count - 1) as nat);
    }
}

/// The message that carries `schema`.
pub fn schema_to_proto(schema: &Schema) -> (message: SchemaMessage)
    ensures
        message.version == schema.version,
        carries_block(schema.block, message.block),
{
    SchemaMessage { version: schema.version, block: block_to_proto(&schema.block) }
}

/// The response to the call for the schemas.
#[derive(Debug, PartialEq, Eq)]
pub struct SchemaResponse {
    /// The schema of the provider's configuration.
    pub provider: SchemaMessage,
    /// The schema of each resource type, by its name.
    pub resources: Vec<(String, SchemaMessage)>,
    /// The schema of each data source type, by its name.
    pub data_sources: Vec<(String, SchemaMessage)>,
}

/// Whether `messages` carry the schemas of `map`, each under its name.
pub open spec fn carries_schemas(map: Seq<(Seq<char>, Schema)>, messages: Seq<(String, SchemaMessage)>) -> bool {
    &&& messages.len() == map.len()
    &&& forall|i: int|
        0 <= i < map.len() ==> {
            &&& (#[trigger] messages[i]).0@ == map[i].0
            &&& messages[i].1.version == map[i].1.version
            &&& carries_block(map[i].1.block, messages[i].1.block)
        }
}

/// The messages that carry the schemas of `map`.
fn schemas_to_proto(map: &NameMap<Schema>) -> (messages: Vec<(String, SchemaMessage)>)
    ensures
        carries_schemas(map@, messages@),
{
    let mut messages: Vec<(String, SchemaMessage)> = Vec::new();
    let mut i: usize = 0;
    while i < map.len()
        invariant
            i <= map@.len(),
            messages.len() == i,
            forall|k: int|
                0 <= k < i ==> (#[trigger] messages@[k]).0@ == map@[k].0 && messages@[k].1.version
                    == map@[k].1.version && carries_block(map@[k].1.block, messages@[k].1.block),
        decreases map@.len() - i,
    {
        messages.push((map.name_at(i).clone(), schema_to_proto(map.value_at(i))));
        i += 1;
    }
    messages
}

/// The response that carries the schemas of a provider.
pub fn get_schema_response(schemas: &ProviderSchema) -> (response: SchemaResponse)
    ensures
        response.provider.version == schemas.provider.version,
        carries_block(schemas.provider.block, response.provider.block),
        carries_schemas(schemas.resources@, response.resources@),
        carries_schemas(schemas.data_sources@, response.data_sources@),
{
    SchemaResponse {
        provider: schema_to_proto(&schemas.provider),
        resources: schemas_to_proto(&schemas.resources),
        data_sources: schemas_to_proto(&schemas.data_sources),
    }
}

} // verus!
