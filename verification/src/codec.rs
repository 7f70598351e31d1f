//! JSON as bytes: reading and writing values with `serde_json`.
//!
//! `serde_json` parses and prints; what it hands over is taken apart one
//! level at a time, and the values of this library are built from the
//! parts, and taken apart into them, by verified code.

use vstd::prelude::*;
use crate::error::ProviderError;
use crate::json::{
    item_views, lemma_array_view, lemma_object_view, member_views, Json, JsonValue,
};
use crate::name_map::{ascending, lemma_value_decreases, named, NameMap};
use crate::number::{JsonNumber, NumberKind};
use crate::types::optional_view;

verus! {

/// `serde_json::Value`, carried through as it is.
#[verifier::external_type_specification]
#[verifier::external_body]
pub struct ExSerdeJsonValue(serde_json::Value);

/// What a `serde_json::Value` holds: `null`, a boolean, a number by its
/// form, a string, an array of what its items hold, or an object of what
/// its members hold, in ascending order of their keys.
pub uninterp spec fn value_model(value: serde_json::Value) -> Json;

/// What `serde_json::from_slice` reads from `bytes` as a
/// `serde_json::Value`, by what the value holds; none where it fails.
pub uninterp spec fn parsed(bytes: Seq<u8>) -> Option<Json>;

/// What `serde_json::to_vec` writes for a `serde_json::Value` that holds
/// `value`; none where it fails.
pub uninterp spec fn written(value: Json) -> Option<Seq<u8>>;

/// One level of a `serde_json::Value`, borrowed from it.
pub enum Shape<'a> {
    /// `null`.
    Null,
    /// A boolean.
    Bool(bool),
    /// A number, by its form.
    Number(NumberKind),
    /// A string.
    String(&'a String),
    /// An array, by its items.
    Array(&'a Vec<serde_json::Value>),
    /// An object, by its members in the order of the map.
    Object(Vec<(&'a String, &'a serde_json::Value)>),
}

/// One level of a `serde_json::Value` to be made.
pub enum Parts {
    /// `null`.
    Null,
    /// A boolean.
    Bool(bool),
    /// A number, by its form.
    Number(NumberKind),
    /// A string.
    String(String),
    /// An array, by its items.
    Array(Vec<serde_json::Value>),
    /// An object, by its members.
    Object(Vec<(String, serde_json::Value)>),
}

/// What each of `items` holds.
pub open spec fn models(items: Seq<serde_json::Value>) -> Seq<Json> {
    Seq::new(items.len(), |i: int| value_model(items[i]))
}

/// The members of a borrowed object, each key by its characters and each
/// value by what it holds.
pub open spec fn borrowed_member_models(members: Seq<(&String, &serde_json::Value)>) -> Seq<
    (Seq<char>, Json),
> {
    Seq::new(members.len(), |i: int| (members[i].0@, value_model(*members[i].1)))
}

/// The members of an object to be made, each key by its characters and each
/// value by what it holds.
pub open spec fn member_models(members: Seq<(String, serde_json::Value)>) -> Seq<(Seq<char>, Json)> {
    Seq::new(members.len(), |i: int| (members[i].0@, value_model(members[i].1)))
}

impl<'a> Shape<'a> {
    /// What a value of this shape holds.
    pub open spec fn model(self) -> Json {
        match self {
            Shape::Null => Json::Null,
            Shape::Bool(b) => Json::Bool(b),
            Shape::Number(kind) => Json::Number(kind),
            Shape::String(text) => Json::String(text@),
            Shape::Array(items) => Json::Array(models(items@)),
            Shape::Object(members) => Json::Object(borrowed_member_models(members@)),
        }
    }

    /// What `serde_json` keeps of its values: a number is well formed, and
    /// the keys of an object ascend.
    pub open spec fn in_order(self) -> bool {
        match self {
            Shape::Number(kind) => kind.well_formed(),
            Shape::Object(members) => ascending(borrowed_member_models(members@)),
            _ => true,
        }
    }
}

impl Parts {
    /// What a value made of these parts holds.
    pub open spec fn model(self) -> Json {
        match self {
            Parts::Null => Json::Null,
            Parts::Bool(b) => Json::Bool(b),
            Parts::Number(kind) => Json::Number(kind),
            Parts::String(text) => Json::String(text@),
            Parts::Array(items) => Json::Array(models(items@)),
            Parts::Object(members) => Json::Object(member_models(members@)),
        }
    }

    /// What `serde_json` asks of the parts to keep them as they are: a
    /// number is well formed, and the keys of an object ascend.
    pub open spec fn in_order(self) -> bool {
        match self {
            Parts::Number(kind) => kind.well_formed(),
            Parts::Object(members) => ascending(member_models(members@)),
            _ => true,
        }
    }
}

/// The variants of `serde_json::Value`, one level deep. A number is told
/// apart by `Number::as_u64`, `as_i64` and `as_f64`: `serde_json` keeps an
/// integer that is not negative as unsigned, a negative one as signed, and
/// anything else as a finite double. An object's `iter` walks its map, a
/// `BTreeMap`, in ascending order of the keys.
#[verifier::external_body]
fn unpack<'a>(value: &'a serde_json::Value) -> (shape: Shape<'a>)
    ensures
        shape.model() == value_model(*value),
        shape.in_order(),
{
    match value {
        serde_json::Value::Null => Shape::Null,
        serde_json::Value::Bool(b) => Shape::Bool(*b),
        serde_json::Value::Number(n) => Shape::Number(
            match (n.as_u64(), n.as_i64()) {
                (Some(u), _) => NumberKind::PosInt(u),
                (None, Some(i)) => NumberKind::NegInt(i),
                (None, None) => NumberKind::Float(n.as_f64().map_or(0, |x| x.to_bits())),
            },
        ),
        serde_json::Value::String(text) => Shape::String(text),
        serde_json::Value::Array(items) => Shape::Array(items),
        serde_json::Value::Object(members) => Shape::Object(members.iter().collect()),
    }
}

/// The `serde_json::Value` of the given parts: `Value::from` for a number,
/// which keeps a well-formed one in its form, and a map collected from the
/// members of an object, which keeps members whose keys ascend as they are.
/// A double is made from its bits by `bytes::Buf::get_f64`, which reads the
/// eight bytes of an IEEE 754 double, the first byte first.
#[verifier::external_body]
fn pack(parts: Parts) -> (value: serde_json::Value)
    requires
        parts.in_order(),
    ensures
        value_model(value) == parts.model(),
{
    match parts {
        Parts::Null => serde_json::Value::Null,
        Parts::Bool(b) => serde_json::Value::Bool(b),
        Parts::Number(NumberKind::PosInt(u)) => serde_json::Value::from(u),
        Parts::Number(NumberKind::NegInt(i)) => serde_json::Value::from(i),
        Parts::Number(NumberKind::Float(bits)) => serde_json::Value::from(
            prost::bytes::Buf::get_f64(&mut &bits.to_be_bytes()[..]),
        ),
        Parts::String(text) => serde_json::Value::String(text),
        Parts::Array(items) => serde_json::Value::Array(items),
        Parts::Object(members) => serde_json::Value::Object(members.into_iter().collect()),
    }
}

/// `serde_json::from_slice`, reading a `serde_json::Value`.
#[verifier::external_body]
fn from_slice(bytes: &[u8]) -> (result: Result<serde_json::Value, serde_json::Error>)
    ensures
        match result {
            Ok(value) => parsed(bytes@) == Some(value_model(value)),
            Err(_) => parsed(bytes@) is None,
        },
{
    serde_json::from_slice(bytes)
}

/// `serde_json::to_vec`, writing a `serde_json::Value`: the bytes depend on
/// what the value holds, and on nothing else.
#[verifier::external_body]
fn to_vec(value: &serde_json::Value) -> (result: Result<Vec<u8>, serde_json::Error>)
    ensures
        match result {
            Ok(bytes) => written(value_model(*value)) == Some(bytes@),
            Err(_) => written(value_model(*value)) is None,
        },
{
    serde_json::to_vec(value)
}

/// The value of this library that holds what `value` holds.
pub fn lift(value: &serde_json::Value) -> (lifted: JsonValue)
    ensures
        lifted@ == value_model(*value),
    decreases value_model(*value),
{
    match unpack(value) {
        Shape::Null => JsonValue::Null,
        Shape::Bool(b) => JsonValue::Bool(b),
        Shape::Number(kind) => {
            match kind {
                NumberKind::PosInt(n) => JsonValue::Number(JsonNumber::from_u64(n)),
                NumberKind::NegInt(n) => JsonValue::Number(JsonNumber::from_i64(n)),
                NumberKind::Float(bits) => JsonValue::float(bits),
            }
        },
        Shape::String(text) => JsonValue::String(text.clone()),
        Shape::Array(items) => {
            let mut lifted: Vec<JsonValue> = Vec::new();
            let mut i: usize = 0;
            while i < items.len()
                invariant
                    i <= items.len(),
                    lifted.len() == i,
                    value_model(*value) == Json::Array(models(items@)),
                    forall|k: int| 0 <= k < i ==> lifted@[k]@ == value_model(items@[k]),
                decreases items.len() - i,
            {
                proof {
                    let whole = value_model(*value);
                    assert(decreases_to!(whole => whole->Array_0));
                    assert(whole->Array_0[i as int] == value_model(items@[i as int]));
                    assert(decreases_to!(whole->Array_0 => whole->Array_0[i as int]));
                }
                lifted.push(lift(&items[i]));
                i += 1;
            }
            proof {
                lemma_array_view(lifted);
                assert(item_views(lifted@) =~= models(items@));
            }
            JsonValue::Array(lifted)
        },
        Shape::Object(members) => {
            let mut lifted: Vec<(String, JsonValue)> = Vec::new();
            let mut i: usize = 0;
            while i < members.len()
                invariant
                    i <= members.len(),
                    lifted.len() == i,
                    value_model(*value) == Json::Object(borrowed_member_models(members@)),
                    forall|k: int|
                        0 <= k < i ==> (#[trigger] lifted@[k]).0@ == members@[k].0@ && lifted@[k].1@
                            == value_model(*members@[k].1),
                decreases members.len() - i,
            {
                proof {
                    let whole = value_model(*value);
                    assert(decreases_to!(whole => whole->Object_0));
                    assert(whole->Object_0[i as int].1 == value_model(*members@[i as int].1));
                    assert(decreases_to!(whole->Object_0 => whole->Object_0[i as int]));
                }
                let member = lift(members[i].1);
                lifted.push((members[i].0.clone(), member));
                i += 1;
            }
            proof {
                assert forall|i: int, j: int| 0 <= i < j < lifted@.len() implies crate::name_map::text_less(
                    #[trigger] named(lifted@)[i].0,
                    #[trigger] named(lifted@)[j].0,
                ) by {
                    assert(named(lifted@)[i].0 == lifted@[i].0@);
                    assert(named(lifted@)[j].0 == lifted@[j].0@);
                    assert(borrowed_member_models(members@)[i].0 == members@[i].0@);
                    assert(borrowed_member_models(members@)[j].0 == members@[j].0@);
                }
            }
            let map = NameMap::from_ascending(lifted);
            proof {
                lemma_object_view(map);
                assert(member_views(map@) =~= borrowed_member_models(members@));
            }
            JsonValue::Object(map)
        },
    }
}

/// The `serde_json::Value` that holds what `value` holds.
pub fn lower(value: &JsonValue) -> (lowered: serde_json::Value)
    ensures
        value_model(lowered) == value@,
    decreases value,
{
    match value {
        JsonValue::Null => pack(Parts::Null),
        JsonValue::Bool(b) => pack(Parts::Bool(*b)),
        JsonValue::Number(n) => {
            let kind = n.kind();
            pack(Parts::Number(kind))
        },
        JsonValue::String(text) => pack(Parts::String(text.clone())),
        JsonValue::Array(items) => {
            let mut lowered: Vec<serde_json::Value> = Vec::new();
            let mut i: usize = 0;
            while i < items.len()
                invariant
                    i <= items.len(),
                    lowered.len() == i,
                    *value == JsonValue::Array(*items),
                    forall|k: int| 0 <= k < i ==> value_model(lowered@[k]) == items@[k]@,
                decreases items.len() - i,
            {
                proof {
                    assert(decreases_to!(value => value->Array_0));
                    assert(decreases_to!(items => items@));
                    assert(decreases_to!(items@ => items@[i as int]));
                }
                lowered.push(lower(&items[i]));
                i += 1;
            }
            proof {
                lemma_array_view(*items);
                assert(models(lowered@) =~= item_views(items@));
            }
            pack(Parts::Array(lowered))
        },
        JsonValue::Object(members) => {
            let mut lowered: Vec<(String, serde_json::Value)> = Vec::new();
            let mut i: usize = 0;
            while i < members.len()
                invariant
                    i <= members@.len(),
                    lowered.len() == i,
                    *value == JsonValue::Object(*members),
                    forall|k: int|
                        0 <= k < i ==> (#[trigger] lowered@[k]).0@ == members@[k].0 && value_model(
                            lowered@[k].1,
                        ) == members@[k].1@,
                decreases members@.len() - i,
            {
                proof {
                    assert(decreases_to!(value => value->Object_0));
                    lemma_value_decreases(*members, i as int);
                }
                let member = lower(members.value_at(i));
                lowered.push((members.name_at(i).clone(), member));
                i += 1;
            }
            proof {
                use_type_invariant(members);
                lemma_object_view(*members);
                assert(member_models(lowered@) =~= member_views(members@));
                assert forall|i: int, j: int|
                    0 <= i < j < lowered@.len() implies crate::name_map::text_less(
                    #[trigger] member_models(lowered@)[i].0,
                    #[trigger] member_models(lowered@)[j].0,
                ) by {
                    assert(crate::name_map::text_less(members@[i].0, members@[j].0));
                }
            }
            pack(Parts::Object(lowered))
        },
    }
}

/// What a payload stands for, given what was read from it: the value, and
/// `null` where nothing could be read.
pub open spec fn payload_value(read: Option<Json>) -> Json {
    match read {
        Some(value) => value,
        None => Json::Null,
    }
}

/// The value that was read, or `null` where none was.
pub fn value_or_null(read: Option<JsonValue>) -> (value: JsonValue)
    ensures
        value@ == payload_value(optional_view(read)),
{
    match read {
        Some(value) => value,
        None => JsonValue::Null,
    }
}

/// Reads a value from `bytes`.
pub fn from_json_bytes(bytes: &[u8]) -> (result: Result<JsonValue, ProviderError>)
    ensures
        match result {
            Ok(value) => parsed(bytes@) == Some(value@),
            Err(failure) => parsed(bytes@) is None && failure is Serialization,
        },
{
    match from_slice(bytes) {
        Ok(value) => Ok(lift(&value)),
        Err(error) => Err(ProviderError::Serialization(error)),
    }
}

/// What a payload holds: nothing where it is empty, else what was read
/// from it.
pub open spec fn payload_content(bytes: Seq<u8>, read: Option<Json>) -> Option<Json> {
    if bytes.len() == 0 {
        None
    } else {
        read
    }
}

/// Reads a value that may be absent, as a change of an attribute carries
/// it: absent where `bytes` are empty, and absent too where they do not
/// hold a value.
pub fn decode_optional_value(bytes: &[u8]) -> (value: Option<JsonValue>)
    ensures
        optional_view(value) == payload_content(bytes@, parsed(bytes@)),
{
    if bytes.len() == 0 {
        None
    } else {
        match from_json_bytes(bytes) {
            Ok(value) => Some(value),
            Err(_) => None,
        }
    }
}

/// Reads a payload leniently: what `bytes` hold, and `null` where they are
/// empty or do not hold a value.
pub fn decode_payload(bytes: &[u8]) -> (value: JsonValue)
    ensures
        value@ == payload_value(payload_content(bytes@, parsed(bytes@))),
{
    value_or_null(decode_optional_value(bytes))
}

/// What the payload of a prior state stands for: no prior state where it is
/// empty, and only there; else the state that was read from it, which is
/// `null` where nothing could be read.
pub open spec fn prior_state(bytes: Seq<u8>, read: Option<Json>) -> Option<Json> {
    if bytes.len() == 0 {
        None
    } else {
        Some(payload_value(read))
    }
}

/// Reads the payload of a prior state. The empty payload, and it alone,
/// means that there is no prior state; any other payload is read leniently,
/// so that bytes which do not hold a value give the state `null`.
pub fn decode_prior_state(bytes: &[u8]) -> (prior: Option<JsonValue>)
    ensures
        optional_view(prior) == prior_state(bytes@, parsed(bytes@)),
{
    if bytes.len() == 0 {
        None
    } else {
        Some(decode_payload(bytes))
    }
}

/// The bytes that were written, or none where writing failed.
pub fn bytes_or_empty(result: Option<Vec<u8>>) -> (bytes: Vec<u8>)
    ensures
        bytes@ == match result {
            Some(written) => written@,
            None => Seq::empty(),
        },
{
    match result {
        Some(written) => written,
        None => Vec::new(),
    }
}

/// The payload that carries `value`: what `serde_json` writes for it, and
/// no bytes where it fails to write it.
pub open spec fn encoded(value: Json) -> Seq<u8> {
    match written(value) {
        Some(bytes) => bytes,
        None => Seq::empty(),
    }
}

/// Writes `value` as a payload; no bytes where it cannot be written.
pub fn encode_payload(value: &JsonValue) -> (bytes: Vec<u8>)
    ensures
        bytes@ == encoded(value@),
{
    let lowered = lower(value);
    match to_vec(&lowered) {
        Ok(bytes) => bytes_or_empty(Some(bytes)),
        Err(_) => bytes_or_empty(None),
    }
}

} // verus!
