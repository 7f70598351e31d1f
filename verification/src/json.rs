//! JSON values: the trees that configurations and states are made of.
//!
//! An object keeps its members in ascending order of their keys and holds
//! each key once, so two objects with the same members have the same view.
//! Two values are the same when their views are equal but for the sign of a
//! zero: `0.0` and `-0.0` are one number.

use vstd::prelude::*;
use vstd::std_specs::cmp::PartialEqSpecImpl;
use crate::name_map::{ascending, has_name, index_of, lemma_lookup_at, lemma_value_decreases, lookup, named, str_same, text_less, NameMap};
use crate::number::{finite, JsonNumber, NumberKind};

verus! {

/// A JSON value.
#[derive(Debug)]
pub enum JsonValue {
    /// `null`.
    Null,
    /// `true` or `false`.
    Bool(bool),
    /// A number.
    Number(JsonNumber),
    /// A string.
    String(String),
    /// An array.
    Array(Vec<JsonValue>),
    /// An object.
    Object(NameMap<JsonValue>),
}

/// What a `JsonValue` stands for: its view.
pub enum Json {
    /// `null`.
    Null,
    /// `true` or `false`.
    Bool(bool),
    /// A number, by its form.
    Number(NumberKind),
    /// A string, by its characters.
    String(Seq<char>),
    /// An array, by its items.
    Array(Seq<Json>),
    /// An object, by its members in ascending order of their keys.
    Object(Seq<(Seq<char>, Json)>),
}

impl View for JsonValue {
    type V = Json;

    open(crate) spec fn view(&self) -> Json
        decreases self, 0nat,
    {
        match self {
            JsonValue::Null => Json::Null,
            JsonValue::Bool(b) => Json::Bool(*b),
            JsonValue::Number(n) => Json::Number(n@),
            JsonValue::String(s) => Json::String(s@),
            JsonValue::Array(items) => Json::Array(array_model(items@)),
            JsonValue::Object(members) => Json::Object(object_model(members.entries@)),
        }
    }
}

/// What the items of an array stand for.
pub open(crate) spec fn array_model(items: Seq<JsonValue>) -> Seq<Json>
    decreases items, 1nat,
{
    Seq::new(
        items.len(),
        |i: int|
            if 0 <= i < items.len() {
                items[i].view()
            } else {
                Json::Null
            },
    )
}

/// What the members of an object stand for.
pub open(crate) spec fn object_model(members: Seq<(String, JsonValue)>) -> Seq<(Seq<char>, Json)>
    decreases members, 1nat,
{
    Seq::new(
        members.len(),
        |i: int|
            if 0 <= i < members.len() {
                (members[i].0@, members[i].1.view())
            } else {
                (Seq::empty(), Json::Null)
            },
    )
}

/// The views of `items`, in their order.
pub open spec fn item_views(items: Seq<JsonValue>) -> Seq<Json> {
    Seq::new(items.len(), |i: int| items[i]@)
}

/// `members` with each value by its view.
pub open spec fn member_views(members: Seq<(Seq<char>, JsonValue)>) -> Seq<(Seq<char>, Json)> {
    Seq::new(members.len(), |i: int| (members[i].0, members[i].1@))
}

/// An array's view holds the views of its items.
pub proof fn lemma_array_view(items: Vec<JsonValue>)
    ensures
        JsonValue::Array(items)@ == Json::Array(item_views(items@)),
{
    reveal_with_fuel(array_model, 2);
    assert(array_model(items@) =~= item_views(items@));
}

/// An object's view holds its members, each value by its view.
pub proof fn lemma_object_view(members: NameMap<JsonValue>)
    ensures
        JsonValue::Object(members)@ == Json::Object(member_views(members@)),
{
    reveal_with_fuel(object_model, 2);
    assert(object_model(members.entries@) =~= member_views(members@));
}

/// The views of members whose keys ascend keep the keys: they ascend too,
/// and under a key stands the view of what stood under it.
pub proof fn lemma_member_views(members: Seq<(Seq<char>, JsonValue)>, key: Seq<char>)
    requires
        ascending(members),
    ensures
        ascending(member_views(members)),
        lookup(member_views(members), key) == match lookup(members, key) {
            Some(value) => Some(value@),
            None => None,
        },
{
    let views = member_views(members);
    assert forall|i: int, j: int| 0 <= i < j < views.len() implies text_less(
        #[trigger] views[i].0,
        #[trigger] views[j].0,
    ) by {
        assert(views[i].0 == members[i].0 && views[j].0 == members[j].0);
    }
    if has_name(members, key) {
        let at = index_of(members, key);
        lemma_lookup_at(members, at);
        assert(views[at].0 == key);
        lemma_lookup_at(views, at);
    } else if has_name(views, key) {
        let at = index_of(views, key);
        assert(members[at].0 == key);
    }
}

impl Json {
    /// Whether the two values are the same: equal, but that `0.0` and `-0.0`
    /// are one number.
    pub open spec fn same(self, other: Json) -> bool
        decreases self,
    {
        match (self, other) {
            (Json::Number(a), Json::Number(b)) => a.same(b),
            (Json::Array(a), Json::Array(b)) => a.len() == b.len() && forall|i: int|
                0 <= i < a.len() ==> (#[trigger] a[i]).same(b[i]),
            (Json::Object(a), Json::Object(b)) => a.len() == b.len() && forall|i: int|
                0 <= i < a.len() ==> (#[trigger] a[i]).0 == b[i].0 && a[i].1.same(b[i].1),
            _ => self == other,
        }
    }

    /// A value is the same as itself.
    pub proof fn lemma_same_reflexive(self)
        ensures
            self.same(self),
        decreases self,
    {
        match self {
            Json::Array(items) => {
                assert forall|i: int| 0 <= i < items.len() implies (#[trigger] items[i]).same(
                    items[i],
                ) by {
                    items[i].lemma_same_reflexive();
                }
            },
            Json::Object(members) => {
                assert forall|i: int| 0 <= i < members.len() implies (#[trigger] members[i]).0
                    == members[i].0 && members[i].1.same(members[i].1) by {
                    members[i].1.lemma_same_reflexive();
                }
            },
            _ => {},
        }
    }

    /// Where one value is the same as another, the other is the same as it.
    pub proof fn lemma_same_symmetric(self, other: Json)
        requires
            self.same(other),
        ensures
            other.same(self),
        decreases self,
    {
        match (self, other) {
            (Json::Array(a), Json::Array(b)) => {
                assert forall|i: int| 0 <= i < b.len() implies (#[trigger] b[i]).same(a[i]) by {
                    assert(a[i].same(b[i]));
                    a[i].lemma_same_symmetric(b[i]);
                }
            },
            (Json::Object(a), Json::Object(b)) => {
                assert forall|i: int| 0 <= i < b.len() implies (#[trigger] b[i]).0 == a[i].0
                    && b[i].1.same(a[i].1) by {
                    assert(a[i].0 == b[i].0 && a[i].1.same(b[i].1));
                    a[i].1.lemma_same_symmetric(b[i].1);
                }
            },
            _ => {},
        }
    }

    /// Two values that are the same as a third are the same.
    pub proof fn lemma_same_transitive(self, middle: Json, other: Json)
        requires
            self.same(middle),
            middle.same(other),
        ensures
            self.same(other),
        decreases self,
    {
        match (self, middle, other) {
            (Json::Array(a), Json::Array(b), Json::Array(c)) => {
                assert forall|i: int| 0 <= i < a.len() implies (#[trigger] a[i]).same(c[i]) by {
                    assert(a[i].same(b[i]));
                    assert(b[i].same(c[i]));
                    a[i].lemma_same_transitive(b[i], c[i]);
                }
            },
            (Json::Object(a), Json::Object(b), Json::Object(c)) => {
                assert forall|i: int| 0 <= i < a.len() implies (#[trigger] a[i]).0 == c[i].0
                    && a[i].1.same(c[i].1) by {
                    assert(a[i].0 == b[i].0 && a[i].1.same(b[i].1));
                    assert(b[i].0 == c[i].0 && b[i].1.same(c[i].1));
                    a[i].1.lemma_same_transitive(b[i].1, c[i].1);
                }
            },
            _ => {},
        }
    }
}

/// The name of a value's kind, as messages give it.
pub open spec fn kind_name(value: Json) -> Seq<char> {
    match value {
        Json::Null => "null"@,
        Json::Bool(_) => "bool"@,
        Json::Number(_) => "number"@,
        Json::String(_) => "string"@,
        Json::Array(_) => "array"@,
        Json::Object(_) => "object"@,
    }
}

impl JsonValue {
    /// The string `text`.
    pub fn text(text: &str) -> (value: JsonValue)
        ensures
            value@ == Json::String(text@),
    {
        JsonValue::String(text.to_owned())
    }

    /// The integer `n`.
    pub fn integer(n: i64) -> (value: JsonValue)
        ensures
            value@ == Json::Number(NumberKind::of_integer(n)),
    {
        JsonValue::Number(JsonNumber::from_i64(n))
    }

    /// The unsigned integer `n`.
    pub fn unsigned(n: u64) -> (value: JsonValue)
        ensures
            value@ == Json::Number(NumberKind::PosInt(n)),
    {
        JsonValue::Number(JsonNumber::from_u64(n))
    }

    /// The double with these bits; `null` where they are not those of a
    /// number.
    pub fn float(bits: u64) -> (value: JsonValue)
        ensures
            value@ == if finite(bits) {
                Json::Number(NumberKind::Float(bits))
            } else {
                Json::Null
            },
    {
        match JsonNumber::from_f64_bits(bits) {
            Some(number) => JsonValue::Number(number),
            None => JsonValue::Null,
        }
    }

    /// An array of `items`.
    pub fn array(items: Vec<JsonValue>) -> (value: JsonValue)
        ensures
            value@ == Json::Array(item_views(items@)),
    {
        proof {
            lemma_array_view(items);
        }
        JsonValue::Array(items)
    }

    /// An object with `members`.
    pub fn object(members: NameMap<JsonValue>) -> (value: JsonValue)
        ensures
            value@ == Json::Object(member_views(members@)),
    {
        proof {
            lemma_object_view(members);
        }
        JsonValue::Object(members)
    }

    /// The name of the value's kind.
    pub fn kind_name(&self) -> (name: &'static str)
        ensures
            name@ == kind_name(self@),
    {
        match self {
            JsonValue::Null => "null",
            JsonValue::Bool(_) => "bool",
            JsonValue::Number(_) => "number",
            JsonValue::String(_) => "string",
            JsonValue::Array(_) => "array",
            JsonValue::Object(_) => "object",
        }
    }

    /// Whether the value is `null`.
    pub fn is_null(&self) -> (yes: bool)
        ensures
            yes == (self@ is Null),
    {
        match self {
            JsonValue::Null => true,
            _ => false,
        }
    }

    /// Whether the value is a string.
    pub fn is_string(&self) -> (yes: bool)
        ensures
            yes == (self@ is String),
    {
        match self {
            JsonValue::String(_) => true,
            _ => false,
        }
    }

    /// Whether the value is a number.
    pub fn is_number(&self) -> (yes: bool)
        ensures
            yes == (self@ is Number),
    {
        match self {
            JsonValue::Number(_) => true,
            _ => false,
        }
    }

    /// Whether the value is `true` or `false`.
    pub fn is_boolean(&self) -> (yes: bool)
        ensures
            yes == (self@ is Bool),
    {
        match self {
            JsonValue::Bool(_) => true,
            _ => false,
        }
    }

    /// Whether the value is an array.
    pub fn is_array(&self) -> (yes: bool)
        ensures
            yes == (self@ is Array),
    {
        match self {
            JsonValue::Array(_) => true,
            _ => false,
        }
    }

    /// Whether the value is an object.
    pub fn is_object(&self) -> (yes: bool)
        ensures
            yes == (self@ is Object),
    {
        match self {
            JsonValue::Object(_) => true,
            _ => false,
        }
    }

    /// The member under `key`, where the value is an object that has one.
    pub fn get(&self, key: &str) -> (found: Option<&JsonValue>)
        ensures
            match found {
                Some(member) => self@ is Object && lookup(self@->Object_0, key@) == Some(member@),
                None => !(self@ is Object) || lookup(self@->Object_0, key@) is None,
            },
    {
        match self {
            JsonValue::Object(members) => {
                proof {
                    lemma_object_view(*members);
                    use_type_invariant(members);
                    lemma_member_views(members@, key@);
                }
                members.get(key)
            },
            _ => None,
        }
    }

    /// Whether the two values are the same: the same kind and content, an
    /// object whatever the order in which its members were put, a zero
    /// whatever its sign.
    pub fn equals(&self, other: &JsonValue) -> (same: bool)
        ensures
            same == self@.same(other@),
        decreases self,
    {
        match self {
            JsonValue::Null => other.is_null(),
            JsonValue::Bool(a) => match other {
                JsonValue::Bool(b) => *a == *b,
                _ => false,
            },
            JsonValue::Number(a) => match other {
                JsonValue::Number(b) => a.equals(b),
                _ => false,
            },
            JsonValue::String(a) => match other {
                JsonValue::String(b) => *a == *b,
                _ => false,
            },
            JsonValue::Array(a) => match other {
                JsonValue::Array(b) => {
                    proof {
                        lemma_array_view(*a);
                        lemma_array_view(*b);
                    }
                    if a.len() != b.len() {
                        proof {
                            assert(item_views(a@).len() != item_views(b@).len());
                        }
                        return false;
                    }
                    let mut i: usize = 0;
                    while i < a.len()
                        invariant
                            i <= a.len(),
                            a.len() == b.len(),
                            *self == JsonValue::Array(*a),
                            self@ == Json::Array(item_views(a@)),
                            other@ == Json::Array(item_views(b@)),
                            forall|k: int| 0 <= k < i ==> (#[trigger] a@[k]@).same(b@[k]@),
                        decreases a.len() - i,
                    {
                        proof {
                            assert(decreases_to!(self => self->Array_0));
                            assert(decreases_to!(a => a@));
                            assert(decreases_to!(a@ => a@[i as int]));
                        }
                        if !a[i].equals(&b[i]) {
                            proof {
                                assert(!item_views(a@)[i as int].same(item_views(b@)[i as int]));
                            }
                            return false;
                        }
                        i += 1;
                    }
                    proof {
                        assert forall|k: int| 0 <= k < a@.len() implies (#[trigger] item_views(
                            a@,
                        )[k]).same(item_views(b@)[k]) by {
                            assert(a@[k]@.same(b@[k]@));
                        }
                    }
                    true
                },
                _ => false,
            },
            JsonValue::Object(a) => match other {
                JsonValue::Object(b) => {
                    proof {
                        lemma_object_view(*a);
                        lemma_object_view(*b);
                    }
                    if a.len() != b.len() {
                        proof {
                            assert(member_views(a@).len() != member_views(b@).len());
                        }
                        return false;
                    }
                    let mut i: usize = 0;
                    while i < a.len()
                        invariant
                            i <= a@.len(),
                            a@.len() == b@.len(),
                            *self == JsonValue::Object(*a),
                            self@ == Json::Object(member_views(a@)),
                            other@ == Json::Object(member_views(b@)),
                            forall|k: int|
                                0 <= k < i ==> (#[trigger] a@[k]).0 == b@[k].0 && a@[k].1@.same(
                                    b@[k].1@,
                                ),
                        decreases a@.len() - i,
                    {
                        proof {
                            assert(decreases_to!(self => self->Object_0));
                            lemma_value_decreases(*a, i as int);
                        }
                        if !str_same(
                            a.name_at(i).as_str(),
                            b.name_at(i).as_str(),
                        ) || !a.value_at(i).equals(b.value_at(i)) {
                            proof {
                                let left = member_views(a@)[i as int];
                                let right = member_views(b@)[i as int];
                                assert(!(left.0 == right.0 && left.1.same(right.1)));
                            }
                            return false;
                        }
                        i += 1;
                    }
                    proof {
                        assert forall|k: int| 0 <= k < a@.len() implies (#[trigger] member_views(
                            a@,
                        )[k]).0 == member_views(b@)[k].0 && member_views(a@)[k].1.same(
                            member_views(b@)[k].1,
                        ) by {
                            assert(a@[k].0 == b@[k].0 && a@[k].1@.same(b@[k].1@));
                        }
                    }
                    true
                },
                _ => false,
            },
        }
    }
}

impl Clone for JsonValue {
    /// A copy with the same view.
    fn clone(&self) -> (copy: JsonValue)
        ensures
            copy@ == self@,
        decreases self,
    {
        match self {
            JsonValue::Null => JsonValue::Null,
            JsonValue::Bool(b) => JsonValue::Bool(*b),
            JsonValue::Number(n) => JsonValue::Number(*n),
            JsonValue::String(s) => JsonValue::String(s.clone()),
            JsonValue::Array(items) => {
                let mut copies: Vec<JsonValue> = Vec::new();
                let mut i: usize = 0;
                while i < items.len()
                    invariant
                        i <= items.len(),
                        copies.len() == i,
                        *self == JsonValue::Array(*items),
                        forall|k: int| 0 <= k < i ==> copies@[k]@ == items@[k]@,
                    decreases items.len() - i,
                {
                    proof {
                        assert(decreases_to!(self => self->Array_0));
                        assert(decreases_to!(items => items@));
                        assert(decreases_to!(items@ => items@[i as int]));
                    }
                    copies.push(items[i].clone());
                    i += 1;
                }
                proof {
                    lemma_array_view(*items);
                    lemma_array_view(copies);
                    assert(item_views(copies@) =~= item_views(items@));
                }
                JsonValue::Array(copies)
            },
            JsonValue::Object(members) => {
                let mut copies: Vec<(String, JsonValue)> = Vec::new();
                let mut i: usize = 0;
                while i < members.len()
                    invariant
                        i <= members@.len(),
                        copies.len() == i,
                        *self == JsonValue::Object(*members),
                        forall|k: int|
                            0 <= k < i ==> copies@[k].0@ == members@[k].0 && copies@[k].1@
                                == members@[k].1@,
                    decreases members@.len() - i,
                {
                    proof {
                        assert(decreases_to!(self => self->Object_0));
                        lemma_value_decreases(*members, i as int);
                    }
                    let value = members.value_at(i).clone();
                    copies.push((members.name_at(i).clone(), value));
                    i += 1;
                }
                proof {
                    use_type_invariant(members);
                    assert forall|i: int, j: int| 0 <= i < j < copies@.len() implies text_less(
                        #[trigger] named(copies@)[i].0,
                        #[trigger] named(copies@)[j].0,
                    ) by {
                        assert(text_less(members@[i].0, members@[j].0));
                    }
                }
                let copy = NameMap::from_ascending(copies);
                proof {
                    lemma_object_view(*members);
                    lemma_object_view(copy);
                    assert(member_views(copy@) =~= member_views(members@));
                }
                JsonValue::Object(copy)
            },
        }
    }
}

impl PartialEq for JsonValue {
    fn eq(&self, other: &JsonValue) -> (same: bool) {
        self.equals(other)
    }
}

impl PartialEqSpecImpl for JsonValue {
    open spec fn obeys_eq_spec() -> bool {
        true
    }

    open spec fn eq_spec(&self, other: &JsonValue) -> bool {
        self@.same(other@)
    }
}

} // verus!
