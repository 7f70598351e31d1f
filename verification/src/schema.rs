//! The schema model: what the configuration of a provider, a resource or a
//! data source looks like, and the diagnostics that report where a value
//! departs from it.

use vstd::prelude::*;
use crate::json::{Json, JsonValue};
use crate::name_map::{ascending, get_entry, has_name, inserted, lemma_value_decreases, lookup, named, put_entry, text_less, NameMap};

verus! {

/// The type of an attribute's value.
#[derive(Debug, PartialEq)]
pub enum AttributeType {
    /// A string.
    String,
    /// A 64-bit integer.
    Int64,
    /// A 64-bit floating point number.
    Float64,
    /// A boolean.
    Bool,
    /// A list of values of one type.
    List(Box<AttributeType>),
    /// A set of values of one type.
    SetOf(Box<AttributeType>),
    /// A map from string keys to values of one type.
    MapOf(Box<AttributeType>),
    /// An object with named fields, each of its type.
    Object(NameMap<AttributeType>),
    /// Any value; nothing is checked.
    Dynamic,
}

impl AttributeType {
    /// A list of `element_type`.
    pub fn list(element_type: AttributeType) -> (t: Self)
        ensures
            t == AttributeType::List(Box::new(element_type)),
    {
        AttributeType::List(Box::new(element_type))
    }

    /// A set of `element_type`.
    pub fn set(element_type: AttributeType) -> (t: Self)
        ensures
            t == AttributeType::SetOf(Box::new(element_type)),
    {
        AttributeType::SetOf(Box::new(element_type))
    }

    /// A map to `element_type`.
    pub fn map(element_type: AttributeType) -> (t: Self)
        ensures
            t == AttributeType::MapOf(Box::new(element_type)),
    {
        AttributeType::MapOf(Box::new(element_type))
    }

    /// An object with the fields `attributes`.
    pub fn object(attributes: NameMap<AttributeType>) -> (t: Self)
        ensures
            t == AttributeType::Object(attributes),
    {
        AttributeType::Object(attributes)
    }
}

impl AttributeType {
    /// Whether the two types are the same: of the same kind, with the same
    /// element type or with the same fields, name by name.
    pub open spec fn same(self, other: AttributeType) -> bool
        decreases self,
    {
        match (self, other) {
            (AttributeType::List(a), AttributeType::List(b)) => (*a).same(*b),
            (AttributeType::SetOf(a), AttributeType::SetOf(b)) => (*a).same(*b),
            (AttributeType::MapOf(a), AttributeType::MapOf(b)) => (*a).same(*b),
            (AttributeType::Object(a), AttributeType::Object(b)) => a@.len() == b@.len()
                && forall|i: int|
                0 <= i < a@.len() ==> (#[trigger] a@[i]).0 == b@[i].0 && a@[i].1.same(b@[i].1),
            _ => self == other,
        }
    }
}

impl Clone for AttributeType {
    /// A copy of the type: the same type.
    fn clone(&self) -> (copy: AttributeType)
        ensures
            copy.same(*self),
        decreases self,
    {
        match self {
            AttributeType::String => AttributeType::String,
            AttributeType::Int64 => AttributeType::Int64,
            AttributeType::Float64 => AttributeType::Float64,
            AttributeType::Bool => AttributeType::Bool,
            AttributeType::List(element) => {
                proof {
                    assert(decreases_to!(self => self->List_0));
                }
                let inner: &AttributeType = element;
                AttributeType::List(Box::new(inner.clone()))
            },
            AttributeType::SetOf(element) => {
                proof {
                    assert(decreases_to!(self => self->SetOf_0));
                }
                let inner: &AttributeType = element;
                AttributeType::SetOf(Box::new(inner.clone()))
            },
            AttributeType::MapOf(element) => {
                proof {
                    assert(decreases_to!(self => self->MapOf_0));
                }
                let inner: &AttributeType = element;
                AttributeType::MapOf(Box::new(inner.clone()))
            },
            AttributeType::Object(fields) => {
                let mut copies: Vec<(String, AttributeType)> = Vec::new();
                let mut i: usize = 0;
                while i < fields.len()
                    invariant
                        i <= fields@.len(),
                        copies.len() == i,
                        *self == AttributeType::Object(*fields),
                        forall|k: int|
                            0 <= k < i ==> (#[trigger] copies@[k]).0@ == fields@[k].0
                                && copies@[k].1.same(fields@[k].1),
                    decreases fields@.len() - i,
                {
                    proof {
                        assert(decreases_to!(self => self->Object_0));
                        lemma_value_decreases(*fields, i as int);
                    }
                    let field = fields.value_at(i).clone();
                    copies.push((fields.name_at(i).clone(), field));
                    i += 1;
                }
                proof {
                    use_type_invariant(fields);
                    assert forall|i: int, j: int| 0 <= i < j < copies@.len() implies text_less(
                        #[trigger] named(copies@)[i].0,
                        #[trigger] named(copies@)[j].0,
                    ) by {
                        assert(text_less(fields@[i].0, fields@[j].0));
                    }
                }
                let map = NameMap::from_ascending(copies);
                proof {
                    assert forall|k: int| 0 <= k < map@.len() implies (#[trigger] map@[k]).0
                        == fields@[k].0 && map@[k].1.same(fields@[k].1) by {
                        assert(copies@[k].0@ == fields@[k].0 && copies@[k].1.same(fields@[k].1));
                    }
                }
                AttributeType::Object(map)
            },
            AttributeType::Dynamic => AttributeType::Dynamic,
        }
    }
}

/// How an attribute may be used.
#[derive(Debug, Clone, Copy, PartialEq, Eq, Structural)]
pub struct AttributeFlags {
    /// The configuration must give the attribute.
    pub required: bool,
    /// The configuration may give the attribute.
    pub optional: bool,
    /// The provider sets the attribute.
    pub computed: bool,
    /// The attribute's value is to be hidden in logs and displays.
    pub sensitive: bool,
}

impl Default for AttributeFlags {
    /// No flag set.
    fn default() -> (flags: Self)
        ensures
            flags == (AttributeFlags {
                required: false,
                optional: false,
                computed: false,
                sensitive: false,
            }),
    {
        AttributeFlags { required: false, optional: false, computed: false, sensitive: false }
    }
}

impl AttributeFlags {
    /// Whether the provider alone sets the attribute: computed, and neither
    /// required nor optional.
    pub open spec fn computed_only(self) -> bool {
        self.computed && !self.optional && !self.required
    }

    /// The flags of a required attribute.
    pub fn required() -> (flags: Self)
        ensures
            flags == (AttributeFlags {
                required: true,
                optional: false,
                computed: false,
                sensitive: false,
            }),
    {
        AttributeFlags { required: true, optional: false, computed: false, sensitive: false }
    }

    /// The flags of an optional attribute.
    pub fn optional() -> (flags: Self)
        ensures
            flags == (AttributeFlags {
                required: false,
                optional: true,
                computed: false,
                sensitive: false,
            }),
    {
        AttributeFlags { required: false, optional: true, computed: false, sensitive: false }
    }

    /// The flags of an attribute that the provider sets.
    pub fn computed() -> (flags: Self)
        ensures
            flags == (AttributeFlags {
                required: false,
                optional: false,
                computed: true,
                sensitive: false,
            }),
    {
        AttributeFlags { required: false, optional: false, computed: true, sensitive: false }
    }

    /// The flags of an attribute that the configuration may give and the
    /// provider sets otherwise.
    pub fn optional_computed() -> (flags: Self)
        ensures
            flags == (AttributeFlags {
                required: false,
                optional: true,
                computed: true,
                sensitive: false,
            }),
    {
        AttributeFlags { required: false, optional: true, computed: true, sensitive: false }
    }

    /// The same flags, and sensitive.
    pub fn sensitive(self) -> (flags: Self)
        ensures
            flags == (AttributeFlags { sensitive: true, ..self }),
    {
        AttributeFlags { sensitive: true, ..self }
    }
}

/// One attribute of a schema.
#[derive(Debug, PartialEq)]
pub struct Attribute {
    /// The type of the attribute's value.
    pub attr_type: AttributeType,
    /// How the attribute may be used.
    pub flags: AttributeFlags,
    /// A description for people.
    pub description: Option<String>,
    /// Whether a change of the attribute asks for a new resource.
    pub force_new: bool,
    /// The value the attribute has where none is given.
    pub default: Option<JsonValue>,
}

/// The view of a default that may be absent.
pub open spec fn optional_default(value: Option<JsonValue>) -> Option<Json> {
    match value {
        Some(value) => Some(value@),
        None => None,
    }
}

impl Attribute {
    /// Whether the two attributes are the same: of the same type, with the
    /// same flags, description and default.
    pub open spec fn same(self, other: Attribute) -> bool {
        &&& self.attr_type.same(other.attr_type)
        &&& self.flags == other.flags
        &&& optional_text(self.description) == optional_text(other.description)
        &&& self.force_new == other.force_new
        &&& optional_default(self.default) == optional_default(other.default)
    }
}

impl Clone for Attribute {
    /// A copy of the attribute: the same attribute.
    fn clone(&self) -> (copy: Attribute)
        ensures
            copy.same(*self),
    {
        Attribute {
            attr_type: self.attr_type.clone(),
            flags: self.flags,
            description: match &self.description {
                Some(text) => Some(text.clone()),
                None => None,
            },
            force_new: self.force_new,
            default: match &self.default {
                Some(value) => Some(value.clone()),
                None => None,
            },
        }
    }
}

impl Attribute {
    /// An attribute of type `attr_type` with `flags`, without description or
    /// default, that does not force a new resource.
    pub fn new(attr_type: AttributeType, flags: AttributeFlags) -> (attr: Self)
        ensures
            attr.attr_type == attr_type,
            attr.flags == flags,
            attr.description is None,
            !attr.force_new,
            attr.default is None,
    {
        Attribute { attr_type, flags, description: None, force_new: false, default: None }
    }

    /// What `new` gives for `attr_type` and `flags`.
    pub open spec fn plain(self, attr_type: AttributeType, flags: AttributeFlags) -> bool {
        &&& self.attr_type == attr_type
        &&& self.flags == flags
        &&& self.description is None
        &&& !self.force_new
        &&& self.default is None
    }

    /// A required string.
    pub fn required_string() -> (attr: Self)
        ensures
            attr.plain(
                AttributeType::String,
                AttributeFlags { required: true, optional: false, computed: false, sensitive: false },
            ),
    {
        Attribute::new(AttributeType::String, AttributeFlags::required())
    }

    /// An optional string.
    pub fn optional_string() -> (attr: Self)
        ensures
            attr.plain(
                AttributeType::String,
                AttributeFlags { required: false, optional: true, computed: false, sensitive: false },
            ),
    {
        Attribute::new(AttributeType::String, AttributeFlags::optional())
    }

    /// A string that the provider sets.
    pub fn computed_string() -> (attr: Self)
        ensures
            attr.plain(
                AttributeType::String,
                AttributeFlags { required: false, optional: false, computed: true, sensitive: false },
            ),
    {
        Attribute::new(AttributeType::String, AttributeFlags::computed())
    }

    /// A required 64-bit integer.
    pub fn required_int64() -> (attr: Self)
        ensures
            attr.plain(
                AttributeType::Int64,
                AttributeFlags { required: true, optional: false, computed: false, sensitive: false },
            ),
    {
        Attribute::new(AttributeType::Int64, AttributeFlags::required())
    }

    /// An optional 64-bit integer.
    pub fn optional_int64() -> (attr: Self)
        ensures
            attr.plain(
                AttributeType::Int64,
                AttributeFlags { required: false, optional: true, computed: false, sensitive: false },
            ),
    {
        Attribute::new(AttributeType::Int64, AttributeFlags::optional())
    }

    /// A 64-bit integer that the provider sets.
    pub fn computed_int64() -> (attr: Self)
        ensures
            attr.plain(
                AttributeType::Int64,
                AttributeFlags { required: false, optional: false, computed: true, sensitive: false },
            ),
    {
        Attribute::new(AttributeType::Int64, AttributeFlags::computed())
    }

    /// A required boolean.
    pub fn required_bool() -> (attr: Self)
        ensures
            attr.plain(
                AttributeType::Bool,
                AttributeFlags { required: true, optional: false, computed: false, sensitive: false },
            ),
    {
        Attribute::new(AttributeType::Bool, AttributeFlags::required())
    }

    /// An optional boolean.
    pub fn optional_bool() -> (attr: Self)
        ensures
            attr.plain(
                AttributeType::Bool,
                AttributeFlags { required: false, optional: true, computed: false, sensitive: false },
            ),
    {
        Attribute::new(AttributeType::Bool, AttributeFlags::optional())
    }

    /// A boolean that the provider sets.
    pub fn computed_bool() -> (attr: Self)
        ensures
            attr.plain(
                AttributeType::Bool,
                AttributeFlags { required: false, optional: false, computed: true, sensitive: false },
            ),
    {
        Attribute::new(AttributeType::Bool, AttributeFlags::computed())
    }

    /// The same attribute with `description`.
    pub fn with_description(self, description: &str) -> (attr: Self)
        ensures
            attr.attr_type == self.attr_type,
            attr.flags == self.flags,
            attr.description matches Some(text) && text@ == description@,
            attr.force_new == self.force_new,
            attr.default == self.default,
    {
        Attribute {
            attr_type: self.attr_type,
            flags: self.flags,
            description: Some(description.to_owned()),
            force_new: self.force_new,
            default: self.default,
        }
    }

    /// The same attribute, a change of which asks for a new resource.
    pub fn with_force_new(self) -> (attr: Self)
        ensures
            attr == (Attribute { force_new: true, ..self }),
    {
        Attribute { force_new: true, ..self }
    }

    /// The same attribute with the default `default`.
    pub fn with_default(self, default: JsonValue) -> (attr: Self)
        ensures
            attr == (Attribute { default: Some(default), ..self }),
    {
        Attribute { default: Some(default), ..self }
    }

    /// The same attribute, and sensitive.
    pub fn sensitive(self) -> (attr: Self)
        ensures
            attr == (Attribute { flags: AttributeFlags { sensitive: true, ..self.flags }, ..self }),
    {
        Attribute { flags: self.flags.sensitive(), ..self }
    }
}

/// How a nested block repeats.
#[derive(Debug, Clone, Copy, PartialEq, Eq, Structural)]
pub enum BlockNestingMode {
    /// At most one block.
    Single,
    /// Blocks in an order.
    List,
    /// Blocks without an order.
    SetOf,
    /// Blocks under string keys.
    MapOf,
}

impl Default for BlockNestingMode {
    /// `Single`.
    fn default() -> (mode: Self)
        ensures
            mode == BlockNestingMode::Single,
    {
        BlockNestingMode::Single
    }
}

/// Another name for `BlockNestingMode`.
pub type NestingMode = BlockNestingMode;

/// Another name for `BlockNestingMode`.
pub type BlockType = BlockNestingMode;

/// A group of attributes and nested blocks.
#[derive(Debug, PartialEq)]
pub struct Block {
    /// The attributes, by name.
    pub attributes: NameMap<Attribute>,
    /// The nested blocks, by name.
    pub blocks: BlockMap,
    /// A description for people.
    pub description: Option<String>,
}

impl Block {
    /// A block without attributes, nested blocks or description.
    pub fn new() -> (block: Self)
        ensures
            block.attributes@.len() == 0,
            block.blocks@.len() == 0,
            block.description is None,
    {
        Block { attributes: NameMap::new(), blocks: BlockMap::new(), description: None }
    }

    /// The same block with the attribute `attr` under `name`.
    pub fn with_attribute(self, name: &str, attr: Attribute) -> (block: Self)
        ensures
            block.attributes@ == inserted(self.attributes@, name@, attr),
            block.blocks == self.blocks,
            block.description == self.description,
    {
        let mut attributes = self.attributes;
        attributes.insert(name.to_owned(), attr);
        Block { attributes, blocks: self.blocks, description: self.description }
    }

    /// The same block with the nested block `block` under `name`.
    pub fn with_block(self, name: &str, block: NestedBlock) -> (outer: Self)
        ensures
            outer.attributes == self.attributes,
            outer.blocks@ == inserted(self.blocks@, name@, block),
            outer.description == self.description,
    {
        let mut blocks = self.blocks;
        blocks.insert(name.to_owned(), block);
        Block { attributes: self.attributes, blocks, description: self.description }
    }

    /// The same block with `description`.
    pub fn with_description(self, description: &str) -> (block: Self)
        ensures
            block.attributes == self.attributes,
            block.blocks == self.blocks,
            block.description matches Some(text) && text@ == description@,
    {
        Block {
            attributes: self.attributes,
            blocks: self.blocks,
            description: Some(description.to_owned()),
        }
    }
}

impl Default for Block {
    /// The empty block.
    fn default() -> (block: Self)
        ensures
            block.attributes@.len() == 0,
            block.blocks@.len() == 0,
            block.description is None,
    {
        Block::new()
    }
}

/// The nested blocks of a block, by name: a list of entries whose names
/// ascend.
///
/// This is `NameMap` written out for nested blocks. A block holds nested
/// blocks, and a nested block holds a block: the verifier takes a type that
/// holds itself only where it can tell that a value of it can be made at
/// all, which it tells of a `Vec` held in the type itself and not of one
/// held inside a type parameter of another type.
#[derive(Debug, PartialEq)]
pub struct BlockMap {
    pub(crate) entries: Vec<(String, NestedBlock)>,
}

impl View for BlockMap {
    type V = Seq<(Seq<char>, NestedBlock)>;

    /// The entries in ascending order of their names, each name by its
    /// characters.
    open(crate) spec fn view(&self) -> Seq<(Seq<char>, NestedBlock)> {
        named(self.entries@)
    }
}

impl BlockMap {
    #[verifier::type_invariant]
    pub open(crate) spec fn well_formed(self) -> bool {
        ascending(self@)
    }

    /// The empty map.
    pub fn new() -> (map: Self)
        ensures
            map@ == Seq::<(Seq<char>, NestedBlock)>::empty(),
    {
        let map = BlockMap { entries: Vec::new() };
        assert(map@ =~= Seq::<(Seq<char>, NestedBlock)>::empty());
        map
    }

    /// The number of entries.
    pub fn len(&self) -> (n: usize)
        ensures
            n == self@.len(),
    {
        self.entries.len()
    }

    /// Whether the map has no entry.
    pub fn is_empty(&self) -> (empty: bool)
        ensures
            empty == (self@.len() == 0),
    {
        self.entries.len() == 0
    }

    /// The name of the entry at `index`, counted in ascending order.
    pub fn name_at(&self, index: usize) -> (name: &String)
        requires
            index < self@.len(),
        ensures
            name@ == self@[index as int].0,
    {
        &self.entries[index].0
    }

    /// The block of the entry at `index`, counted in ascending order.
    pub fn value_at(&self, index: usize) -> (value: &NestedBlock)
        requires
            index < self@.len(),
        ensures
            *value == self@[index as int].1,
    {
        &self.entries[index].1
    }

    /// The block under `name`, if there is one.
    pub fn get(&self, name: &str) -> (found: Option<&NestedBlock>)
        ensures
            match found {
                Some(value) => lookup(self@, name@) == Some(*value),
                None => lookup(self@, name@) is None,
            },
    {
        proof {
            use_type_invariant(self);
        }
        get_entry(&self.entries, name)
    }

    /// Whether there is a block under `name`.
    pub fn contains_key(&self, name: &str) -> (present: bool)
        ensures
            present == has_name(self@, name@),
    {
        self.get(name).is_some()
    }

    /// Puts `block` under `name`, in place of what the name held before.
    pub fn insert(&mut self, name: String, block: NestedBlock)
        ensures
            final(self)@ == inserted(old(self)@, name@, block),
    {
        proof {
            use_type_invariant(&*self);
        }
        let mut entries: Vec<(String, NestedBlock)> = Vec::new();
        core::mem::swap(&mut self.entries, &mut entries);
        put_entry(&mut entries, name, block);
        core::mem::swap(&mut self.entries, &mut entries);
    }
}

/// A nested block of a map is smaller than the map: recursion that goes
/// from a block to its nested blocks ends.
pub proof fn lemma_block_decreases(map: BlockMap, i: int)
    requires
        0 <= i < map@.len(),
    ensures
        decreases_to!(map => map@[i].1),
{
    assert(decreases_to!(map => map.entries));
    assert(decreases_to!(map.entries => map.entries@));
    assert(decreases_to!(map.entries@ => map.entries@[i]));
    assert(map@[i].1 == map.entries@[i].1);
}

impl BlockMap {
    /// Whether the two maps are the same: they hold the same nested blocks
    /// under the same names.
    pub open spec fn same(self, other: BlockMap) -> bool
        decreases self,
    {
        self@.len() == other@.len() && forall|i: int|
            0 <= i < self@.len() ==> (#[trigger] self@[i]).0 == other@[i].0 && self@[i].1.same(
                other@[i].1,
            )
    }
}

impl Block {
    /// Whether the two blocks are the same: they have the same attributes
    /// and the same nested blocks under the same names, and the same
    /// description.
    pub open spec fn same(self, other: Block) -> bool
        decreases self,
    {
        &&& self.attributes@.len() == other.attributes@.len()
        &&& forall|i: int|
            0 <= i < self.attributes@.len() ==> (#[trigger] self.attributes@[i]).0
                == other.attributes@[i].0 && self.attributes@[i].1.same(other.attributes@[i].1)
        &&& self.blocks.same(other.blocks)
        &&& optional_text(self.description) == optional_text(other.description)
    }
}

impl NestedBlock {
    /// Whether the two nested blocks are the same: the same block, repeating
    /// in the same way within the same limits.
    pub open spec fn same(self, other: NestedBlock) -> bool
        decreases self,
    {
        &&& self.block.same(other.block)
        &&& self.nesting_mode == other.nesting_mode
        &&& self.min_items == other.min_items
        &&& self.max_items == other.max_items
    }
}

impl Clone for BlockMap {
    /// A copy of the map: the same map.
    fn clone(&self) -> (copy: BlockMap)
        ensures
            copy.same(*self),
    {
        self.duplicate()
    }
}

impl Clone for Block {
    /// A copy of the block: the same block.
    fn clone(&self) -> (copy: Block)
        ensures
            copy.same(*self),
    {
        self.duplicate()
    }
}

impl Clone for NestedBlock {
    /// A copy of the nested block: the same nested block.
    fn clone(&self) -> (copy: NestedBlock)
        ensures
            copy.same(*self),
    {
        self.duplicate()
    }
}

impl BlockMap {
    /// A copy of the map: the same nested blocks under the same names.
    fn duplicate(&self) -> (copy: BlockMap)
        ensures
            copy.same(*self),
        decreases self,
    {
        let mut copies: Vec<(String, NestedBlock)> = Vec::new();
        let mut i: usize = 0;
        while i < self.entries.len()
            invariant
                i <= self.entries@.len(),
                copies.len() == i,
                forall|k: int|
                    0 <= k < i ==> (#[trigger] copies@[k]).0@ == self.entries@[k].0@
                        && copies@[k].1.same(self.entries@[k].1),
            decreases self.entries@.len() - i,
        {
            proof {
                assert(decreases_to!(self => self.entries));
                assert(decreases_to!(self.entries => self.entries@));
                assert(decreases_to!(self.entries@ => self.entries@[i as int]));
            }
            let nested = self.entries[i].1.duplicate();
            copies.push((self.entries[i].0.clone(), nested));
            i += 1;
        }
        proof {
            use_type_invariant(self);
            assert forall|i: int, j: int| 0 <= i < j < copies@.len() implies text_less(
                #[trigger] named(copies@)[i].0,
                #[trigger] named(copies@)[j].0,
            ) by {
                assert(text_less(self@[i].0, self@[j].0));
            }
        }
        let copy = BlockMap { entries: copies };
        proof {
            assert forall|k: int| 0 <= k < copy@.len() implies (#[trigger] copy@[k]).0 == self@[k].0
                && copy@[k].1.same(self@[k].1) by {
                assert(copies@[k].0@ == self.entries@[k].0@ && copies@[k].1.same(
                    self.entries@[k].1,
                ));
            }
        }
        copy
    }
}

impl Block {
    /// A copy of the block: the same attributes and nested blocks under the
    /// same names, and the same description.
    fn duplicate(&self) -> (copy: Block)
        ensures
            copy.same(*self),
        decreases self,
    {
        let mut attributes: Vec<(String, Attribute)> = Vec::new();
        let mut i: usize = 0;
        while i < self.attributes.len()
            invariant
                i <= self.attributes@.len(),
                attributes.len() == i,
                forall|k: int|
                    0 <= k < i ==> (#[trigger] attributes@[k]).0@ == self.attributes@[k].0
                        && attributes@[k].1.same(self.attributes@[k].1),
            decreases self.attributes@.len() - i,
        {
            let attribute = self.attributes.value_at(i).clone();
            attributes.push((self.attributes.name_at(i).clone(), attribute));
            i += 1;
        }
        proof {
            use_type_invariant(&self.attributes);
            assert forall|i: int, j: int| 0 <= i < j < attributes@.len() implies text_less(
                #[trigger] named(attributes@)[i].0,
                #[trigger] named(attributes@)[j].0,
            ) by {
                assert(text_less(self.attributes@[i].0, self.attributes@[j].0));
            }
        }
        let copied = NameMap::from_ascending(attributes);
        proof {
            assert forall|k: int| 0 <= k < copied@.len() implies (#[trigger] copied@[k]).0
                == self.attributes@[k].0 && copied@[k].1.same(self.attributes@[k].1) by {
                assert(attributes@[k].0@ == self.attributes@[k].0 && attributes@[k].1.same(
                    self.attributes@[k].1,
                ));
            }
        }
        Block {
            attributes: copied,
            blocks: self.blocks.duplicate(),
            description: match &self.description {
                Some(text) => Some(text.clone()),
                None => None,
            },
        }
    }
}

impl NestedBlock {
    /// A copy of the nested block: the same block, repeating in the same way
    /// within the same limits.
    fn duplicate(&self) -> (copy: NestedBlock)
        ensures
            copy.same(*self),
        decreases self,
    {
        NestedBlock {
            block: self.block.duplicate(),
            nesting_mode: self.nesting_mode,
            min_items: self.min_items,
            max_items: self.max_items,
        }
    }
}

/// A block nested in another, with how it repeats and how often it may.
#[derive(Debug, PartialEq)]
pub struct NestedBlock {
    /// The block.
    pub block: Block,
    /// How the block repeats.
    pub nesting_mode: BlockNestingMode,
    /// The least number of blocks.
    pub min_items: u32,
    /// The greatest number of blocks; 0 sets no limit.
    pub max_items: u32,
}

impl NestedBlock {
    /// A block that occurs at most once.
    pub fn single(block: Block) -> (nested: Self)
        ensures
            nested == (NestedBlock {
                block,
                nesting_mode: BlockNestingMode::Single,
                min_items: 0,
                max_items: 1,
            }),
    {
        NestedBlock { block, nesting_mode: BlockNestingMode::Single, min_items: 0, max_items: 1 }
    }

    /// A list of blocks, of any length.
    pub fn list(block: Block) -> (nested: Self)
        ensures
            nested == (NestedBlock {
                block,
                nesting_mode: BlockNestingMode::List,
                min_items: 0,
                max_items: 0,
            }),
    {
        NestedBlock { block, nesting_mode: BlockNestingMode::List, min_items: 0, max_items: 0 }
    }

    /// A set of blocks, of any size.
    pub fn set(block: Block) -> (nested: Self)
        ensures
            nested == (NestedBlock {
                block,
                nesting_mode: BlockNestingMode::SetOf,
                min_items: 0,
                max_items: 0,
            }),
    {
        NestedBlock { block, nesting_mode: BlockNestingMode::SetOf, min_items: 0, max_items: 0 }
    }

    /// A map of blocks, of any size.
    pub fn map(block: Block) -> (nested: Self)
        ensures
            nested == (NestedBlock {
                block,
                nesting_mode: BlockNestingMode::MapOf,
                min_items: 0,
                max_items: 0,
            }),
    {
        NestedBlock { block, nesting_mode: BlockNestingMode::MapOf, min_items: 0, max_items: 0 }
    }

    /// The same nested block with at least `min` blocks.
    pub fn with_min_items(self, min: u32) -> (nested: Self)
        ensures
            nested == (NestedBlock { min_items: min, ..self }),
    {
        NestedBlock { min_items: min, ..self }
    }

    /// The same nested block with at most `max` blocks; 0 sets no limit.
    pub fn with_max_items(self, max: u32) -> (nested: Self)
        ensures
            nested == (NestedBlock { max_items: max, ..self }),
    {
        NestedBlock { max_items: max, ..self }
    }
}

/// The schema of a provider's configuration, a resource or a data source.
#[derive(Debug, Clone, PartialEq)]
pub struct Schema {
    /// The version, by which stored state is upgraded.
    pub version: u64,
    /// The root block.
    pub block: Block,
}

impl Schema {
    /// An empty schema of `version`.
    pub fn new(version: u64) -> (schema: Self)
        ensures
            schema.version == version,
            schema.block.attributes@.len() == 0,
            schema.block.blocks@.len() == 0,
            schema.block.description is None,
    {
        Schema { version, block: Block::new() }
    }

    /// An empty schema of version 0.
    pub fn v0() -> (schema: Self)
        ensures
            schema.version == 0,
            schema.block.attributes@.len() == 0,
            schema.block.blocks@.len() == 0,
            schema.block.description is None,
    {
        Schema::new(0)
    }

    /// The same schema with the attribute `attr` under `name`.
    pub fn with_attribute(self, name: &str, attr: Attribute) -> (schema: Self)
        ensures
            schema.version == self.version,
            schema.block.attributes@ == inserted(self.block.attributes@, name@, attr),
            schema.block.blocks == self.block.blocks,
            schema.block.description == self.block.description,
    {
        Schema { version: self.version, block: self.block.with_attribute(name, attr) }
    }

    /// The same schema with the nested block `block` under `name`.
    pub fn with_block(self, name: &str, block: NestedBlock) -> (schema: Self)
        ensures
            schema.version == self.version,
            schema.block.attributes == self.block.attributes,
            schema.block.blocks@ == inserted(self.block.blocks@, name@, block),
            schema.block.description == self.block.description,
    {
        Schema { version: self.version, block: self.block.with_block(name, block) }
    }
}

impl Default for Schema {
    /// The empty schema of version 0.
    fn default() -> (schema: Self)
        ensures
            schema.version == 0,
            schema.block.attributes@.len() == 0,
            schema.block.blocks@.len() == 0,
            schema.block.description is None,
    {
        Schema::v0()
    }
}

/// The schemas of a provider: of its configuration, its resources and its
/// data sources.
#[derive(Debug, Clone, PartialEq)]
pub struct ProviderSchema {
    /// The schema of the provider's configuration.
    pub provider: Schema,
    /// The schema of each resource type.
    pub resources: NameMap<Schema>,
    /// The schema of each data source type.
    pub data_sources: NameMap<Schema>,
}

impl ProviderSchema {
    /// A provider with an empty configuration schema and no types.
    pub fn new() -> (schemas: Self)
        ensures
            schemas.provider.version == 0,
            schemas.provider.block.attributes@.len() == 0,
            schemas.provider.block.blocks@.len() == 0,
            schemas.provider.block.description is None,
            schemas.resources@.len() == 0,
            schemas.data_sources@.len() == 0,
    {
        ProviderSchema {
            provider: Schema::v0(),
            resources: NameMap::new(),
            data_sources: NameMap::new(),
        }
    }

    /// The same schemas with `schema` for the provider's configuration.
    pub fn with_provider_config(self, schema: Schema) -> (schemas: Self)
        ensures
            schemas == (ProviderSchema { provider: schema, ..self }),
    {
        ProviderSchema { provider: schema, ..self }
    }

    /// The same schemas with `schema` for the resource type `name`.
    pub fn with_resource(self, name: &str, schema: Schema) -> (schemas: Self)
        ensures
            schemas.provider == self.provider,
            schemas.resources@ == inserted(self.resources@, name@, schema),
            schemas.data_sources == self.data_sources,
    {
        let mut resources = self.resources;
        resources.insert(name.to_owned(), schema);
        ProviderSchema { provider: self.provider, resources, data_sources: self.data_sources }
    }

    /// The same schemas with `schema` for the data source type `name`.
    pub fn with_data_source(self, name: &str, schema: Schema) -> (schemas: Self)
        ensures
            schemas.provider == self.provider,
            schemas.resources == self.resources,
            schemas.data_sources@ == inserted(self.data_sources@, name@, schema),
    {
        let mut data_sources = self.data_sources;
        data_sources.insert(name.to_owned(), schema);
        ProviderSchema { provider: self.provider, resources: self.resources, data_sources }
    }
}

impl Default for ProviderSchema {
    /// A provider with an empty configuration schema and no types.
    fn default() -> (schemas: Self)
        ensures
            schemas.provider.version == 0,
            schemas.provider.block.attributes@.len() == 0,
            schemas.provider.block.blocks@.len() == 0,
            schemas.provider.block.description is None,
            schemas.resources@.len() == 0,
            schemas.data_sources@.len() == 0,
    {
        ProviderSchema::new()
    }
}

/// How grave a diagnostic is.
#[derive(Debug, Clone, Copy, PartialEq, Eq, Structural)]
pub enum DiagnosticSeverity {
    /// The operation cannot go on.
    Error,
    /// The operation goes on; something should be looked at.
    Warning,
}

/// A message about a value or an operation, handed back as data.
#[derive(Debug, PartialEq, Eq)]
pub struct Diagnostic {
    /// How grave it is.
    pub severity: DiagnosticSeverity,
    /// What is wrong, in short.
    pub summary: String,
    /// What is wrong, at length.
    pub detail: Option<String>,
    /// The path of the attribute it is about.
    pub attribute: Option<String>,
}

/// What a `Diagnostic` says: its view.
pub struct DiagnosticView {
    /// How grave it is.
    pub severity: DiagnosticSeverity,
    /// What is wrong, in short.
    pub summary: Seq<char>,
    /// What is wrong, at length.
    pub detail: Option<Seq<char>>,
    /// The path of the attribute it is about.
    pub attribute: Option<Seq<char>>,
}

/// The characters of a string that may be absent.
pub open spec fn optional_text(text: Option<String>) -> Option<Seq<char>> {
    match text {
        Some(text) => Some(text@),
        None => None,
    }
}

impl View for Diagnostic {
    type V = DiagnosticView;

    open spec fn view(&self) -> DiagnosticView {
        DiagnosticView {
            severity: self.severity,
            summary: self.summary@,
            detail: optional_text(self.detail),
            attribute: optional_text(self.attribute),
        }
    }
}

impl Clone for Diagnostic {
    /// A copy that says the same.
    fn clone(&self) -> (copy: Diagnostic)
        ensures
            copy@ == self@,
    {
        Diagnostic {
            severity: self.severity,
            summary: self.summary.clone(),
            detail: match &self.detail {
                Some(text) => Some(text.clone()),
                None => None,
            },
            attribute: match &self.attribute {
                Some(text) => Some(text.clone()),
                None => None,
            },
        }
    }
}

/// The views of `diagnostics`, in their order.
pub open spec fn diagnostic_views(diagnostics: Seq<Diagnostic>) -> Seq<DiagnosticView> {
    Seq::new(diagnostics.len(), |i: int| diagnostics[i]@)
}

impl Diagnostic {
    /// An error that says `summary`.
    pub fn error(summary: &str) -> (diagnostic: Self)
        ensures
            diagnostic@ == (DiagnosticView {
                severity: DiagnosticSeverity::Error,
                summary: summary@,
                detail: None,
                attribute: None,
            }),
    {
        Diagnostic {
            severity: DiagnosticSeverity::Error,
            summary: summary.to_owned(),
            detail: None,
            attribute: None,
        }
    }

    /// A warning that says `summary`.
    pub fn warning(summary: &str) -> (diagnostic: Self)
        ensures
            diagnostic@ == (DiagnosticView {
                severity: DiagnosticSeverity::Warning,
                summary: summary@,
                detail: None,
                attribute: None,
            }),
    {
        Diagnostic {
            severity: DiagnosticSeverity::Warning,
            summary: summary.to_owned(),
            detail: None,
            attribute: None,
        }
    }

    /// The same diagnostic with `detail`.
    pub fn with_detail(self, detail: &str) -> (diagnostic: Self)
        ensures
            diagnostic@ == (DiagnosticView { detail: Some(detail@), ..self@ }),
    {
        Diagnostic {
            severity: self.severity,
            summary: self.summary,
            detail: Some(detail.to_owned()),
            attribute: self.attribute,
        }
    }

    /// The same diagnostic about the attribute at the path `attribute`.
    pub fn with_attribute(self, attribute: &str) -> (diagnostic: Self)
        ensures
            diagnostic@ == (DiagnosticView { attribute: Some(attribute@), ..self@ }),
    {
        Diagnostic {
            severity: self.severity,
            summary: self.summary,
            detail: self.detail,
            attribute: Some(attribute.to_owned()),
        }
    }

    /// Whether the diagnostic is an error.
    pub fn is_error(&self) -> (yes: bool)
        ensures
            yes == (self.severity == DiagnosticSeverity::Error),
    {
        match self.severity {
            DiagnosticSeverity::Error => true,
            DiagnosticSeverity::Warning => false,
        }
    }
}

} // verus!
