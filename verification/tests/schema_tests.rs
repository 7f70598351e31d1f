use hemmer_provider_sdk::name_map::NameMap;
use hemmer_provider_sdk::schema::{
    Attribute, AttributeFlags, AttributeType, Block, BlockNestingMode, Diagnostic,
    DiagnosticSeverity, NestedBlock, ProviderSchema, Schema,
};
use hemmer_provider_sdk::JsonValue;

#[test]
fn test_attribute_type_constructors() {
    let list = AttributeType::list(AttributeType::String);
    assert!(matches!(list, AttributeType::List(_)));

    let map = AttributeType::map(AttributeType::Int64);
    assert!(matches!(map, AttributeType::MapOf(_)));
}

#[test]
fn test_attribute_flags() {
    let required = AttributeFlags::required();
    assert!(required.required);
    assert!(!required.optional);
    assert!(!required.computed);

    let computed = AttributeFlags::computed();
    assert!(!computed.required);
    assert!(!computed.optional);
    assert!(computed.computed);

    let optional_computed = AttributeFlags::optional_computed();
    assert!(!optional_computed.required);
    assert!(optional_computed.optional);
    assert!(optional_computed.computed);

    let sensitive = AttributeFlags::required().sensitive();
    assert!(sensitive.sensitive);
}

#[test]
fn test_attribute_builders() {
    let attr = Attribute::required_string()
        .with_description("A test attribute")
        .with_force_new();

    assert_eq!(attr.attr_type, AttributeType::String);
    assert!(attr.flags.required);
    assert_eq!(attr.description, Some("A test attribute".to_string()));
    assert!(attr.force_new);
}

#[test]
fn test_schema_builder() {
    let schema = Schema::v0()
        .with_attribute("name", Attribute::required_string())
        .with_attribute("id", Attribute::computed_string())
        .with_block(
            "config",
            NestedBlock::single(Block::new().with_attribute("enabled", Attribute::optional_bool())),
        );

    assert_eq!(schema.version, 0);
    assert!(schema.block.attributes.contains_key("name"));
    assert!(schema.block.attributes.contains_key("id"));
    assert!(schema.block.blocks.contains_key("config"));
}

#[test]
fn test_provider_schema() {
    let provider_schema = ProviderSchema::new()
        .with_provider_config(
            Schema::v0().with_attribute("api_key", Attribute::required_string().sensitive()),
        )
        .with_resource(
            "example_resource",
            Schema::v0()
                .with_attribute("name", Attribute::required_string())
                .with_attribute("id", Attribute::computed_string()),
        )
        .with_data_source(
            "example_data",
            Schema::v0().with_attribute("filter", Attribute::optional_string()),
        );

    assert!(provider_schema
        .provider
        .block
        .attributes
        .contains_key("api_key"));
    assert!(provider_schema.resources.contains_key("example_resource"));
    assert!(provider_schema.data_sources.contains_key("example_data"));
}

#[test]
fn test_diagnostic() {
    let err = Diagnostic::error("Invalid configuration")
        .with_detail("The value must be positive")
        .with_attribute("count");

    assert_eq!(err.severity, DiagnosticSeverity::Error);
    assert_eq!(err.summary, "Invalid configuration");
    assert_eq!(err.detail, Some("The value must be positive".to_string()));
    assert_eq!(err.attribute, Some("count".to_string()));
}

#[test]
fn test_nested_block_modes() {
    let single = NestedBlock::single(Block::new());
    assert_eq!(single.nesting_mode, BlockNestingMode::Single);
    assert_eq!(single.max_items, 1);

    let list = NestedBlock::list(Block::new())
        .with_min_items(1)
        .with_max_items(5);
    assert_eq!(list.nesting_mode, BlockNestingMode::List);
    assert_eq!(list.min_items, 1);
    assert_eq!(list.max_items, 5);
}

#[test]
fn attribute_type_set_and_object() {
    let set = AttributeType::set(AttributeType::Bool);
    assert_eq!(set, AttributeType::SetOf(Box::new(AttributeType::Bool)));

    let mut fields = NameMap::new();
    fields.insert("host".to_string(), AttributeType::String);
    let object = AttributeType::object(fields);
    match object {
        AttributeType::Object(fields) => {
            assert_eq!(fields.len(), 1);
            assert_eq!(fields.get("host"), Some(&AttributeType::String));
        }
        _ => panic!("not an object type"),
    }
}

#[test]
fn attribute_flag_builders_are_exact() {
    assert_eq!(
        AttributeFlags::optional(),
        AttributeFlags { required: false, optional: true, computed: false, sensitive: false }
    );
    assert_eq!(
        AttributeFlags::default(),
        AttributeFlags { required: false, optional: false, computed: false, sensitive: false }
    );
    assert_eq!(
        AttributeFlags::computed().sensitive(),
        AttributeFlags { required: false, optional: false, computed: true, sensitive: true }
    );
}

#[test]
fn attribute_shorthands() {
    assert_eq!(Attribute::optional_string().attr_type, AttributeType::String);
    assert!(Attribute::optional_string().flags.optional);
    assert_eq!(Attribute::computed_string().flags, AttributeFlags::computed());
    assert_eq!(Attribute::required_int64().attr_type, AttributeType::Int64);
    assert_eq!(Attribute::optional_int64().flags, AttributeFlags::optional());
    assert_eq!(Attribute::computed_int64().flags, AttributeFlags::computed());
    assert_eq!(Attribute::required_bool().attr_type, AttributeType::Bool);
    assert_eq!(Attribute::optional_bool().flags, AttributeFlags::optional());
    assert_eq!(Attribute::computed_bool().flags, AttributeFlags::computed());
    let plain = Attribute::new(AttributeType::Dynamic, AttributeFlags::required());
    assert_eq!(plain.description, None);
    assert!(!plain.force_new);
    assert_eq!(plain.default, None);
}

#[test]
fn attribute_default_and_sensitive() {
    let attr = Attribute::optional_int64()
        .with_default(JsonValue::integer(7))
        .sensitive();
    assert_eq!(attr.default, Some(JsonValue::integer(7)));
    assert!(attr.flags.sensitive);
    assert!(attr.flags.optional);
}

#[test]
fn block_builders() {
    let block = Block::new()
        .with_description("a block")
        .with_attribute("b", Attribute::required_string())
        .with_attribute("a", Attribute::required_bool())
        .with_attribute("b", Attribute::optional_int64());
    assert_eq!(block.description, Some("a block".to_string()));
    assert_eq!(block.attributes.len(), 2);
    assert_eq!(block.attributes.name_at(0), "a");
    assert_eq!(block.attributes.name_at(1), "b");
    assert_eq!(block.attributes.value_at(1).attr_type, AttributeType::Int64);
    assert!(block.blocks.is_empty());
    assert_eq!(Block::default(), Block::new());
}

#[test]
fn nested_block_set_and_map() {
    let set = NestedBlock::set(Block::new());
    assert_eq!(set.nesting_mode, BlockNestingMode::SetOf);
    assert_eq!((set.min_items, set.max_items), (0, 0));
    let map = NestedBlock::map(Block::new());
    assert_eq!(map.nesting_mode, BlockNestingMode::MapOf);
    assert_eq!((map.min_items, map.max_items), (0, 0));
    assert_eq!(BlockNestingMode::default(), BlockNestingMode::Single);
}

#[test]
fn schema_versions() {
    assert_eq!(Schema::new(3).version, 3);
    assert_eq!(Schema::v0().version, 0);
    assert_eq!(Schema::default(), Schema::v0());
    assert_eq!(ProviderSchema::default(), ProviderSchema::new());
    assert!(ProviderSchema::new().resources.is_empty());
}

#[test]
fn diagnostic_warning_and_clone() {
    let warning = Diagnostic::warning("Look at this");
    assert_eq!(warning.severity, DiagnosticSeverity::Warning);
    assert_eq!(warning.detail, None);
    assert_eq!(warning.attribute, None);
    assert!(!warning.is_error());
    assert!(Diagnostic::error("bad").is_error());
    let full = Diagnostic::error("bad").with_detail("why").with_attribute("where");
    assert_eq!(full.clone(), full);
}

#[test]
fn copies_are_the_same_in_every_part() {
    let mut fields = NameMap::new();
    fields.insert("port".to_string(), AttributeType::Int64);
    fields.insert("hosts".to_string(), AttributeType::list(AttributeType::String));
    let block = Block::new()
        .with_description("root")
        .with_attribute(
            "endpoint",
            Attribute::new(AttributeType::object(fields), AttributeFlags::required())
                .with_description("where")
                .with_default(JsonValue::integer(1)),
        )
        .with_attribute("tags", Attribute::new(
            AttributeType::set(AttributeType::map(AttributeType::Bool)),
            AttributeFlags::optional_computed(),
        ))
        .with_block(
            "rule",
            NestedBlock::list(
                Block::new()
                    .with_attribute("port", Attribute::required_int64().with_force_new())
                    .with_block("inner", NestedBlock::map(Block::new()).with_min_items(2)),
            )
            .with_max_items(3),
        );
    let copy = block.clone();
    assert_eq!(copy, block);
    assert_eq!(copy.attributes.len(), 2);
    assert_eq!(copy.attributes.name_at(0), "endpoint");
    assert_eq!(copy.blocks.get("rule").unwrap().max_items, 3);
    assert_eq!(copy.blocks.clone(), block.blocks);
    let nested = block.blocks.get("rule").unwrap();
    assert_eq!(nested.clone(), *nested);
    let attribute = block.attributes.get("endpoint").unwrap();
    assert_eq!(attribute.clone(), *attribute);
    assert_eq!(attribute.attr_type.clone(), attribute.attr_type);
    assert_ne!(Block::new(), block);

    let schema = Schema::new(4).with_block("b", NestedBlock::single(block));
    assert_eq!(schema.clone(), schema);
}
