use hemmer_provider_sdk::codec::from_json_bytes;
use hemmer_provider_sdk::name_map::NameMap;
use hemmer_provider_sdk::schema::{
    Attribute, AttributeFlags, AttributeType, Block, DiagnosticSeverity, NestedBlock, Schema,
};
use hemmer_provider_sdk::validation::{is_valid, validate, validate_result};
use hemmer_provider_sdk::JsonValue;

fn json(text: &str) -> JsonValue {
    from_json_bytes(text.as_bytes()).unwrap()
}

#[test]
fn test_validate_required_string() {
    let schema = Schema::v0().with_attribute("name", Attribute::required_string());

    // Valid
    let diagnostics = validate(&schema, &json(r#"{"name": "test"}"#));
    assert!(diagnostics.is_empty());

    // Missing required
    let diagnostics = validate(&schema, &json("{}"));
    assert_eq!(diagnostics.len(), 1);
    assert_eq!(diagnostics[0].attribute, Some("name".to_string()));

    // Null value
    let diagnostics = validate(&schema, &json(r#"{"name": null}"#));
    assert_eq!(diagnostics.len(), 1);

    // Wrong type
    let diagnostics = validate(&schema, &json(r#"{"name": 123}"#));
    assert_eq!(diagnostics.len(), 1);
    assert!(diagnostics[0].summary.contains("Invalid type"));
}

#[test]
fn test_validate_optional_attribute() {
    let schema = Schema::v0().with_attribute("count", Attribute::optional_int64());

    // Valid with value
    let diagnostics = validate(&schema, &json(r#"{"count": 42}"#));
    assert!(diagnostics.is_empty());

    // Valid without value
    let diagnostics = validate(&schema, &json("{}"));
    assert!(diagnostics.is_empty());

    // Valid with null
    let diagnostics = validate(&schema, &json(r#"{"count": null}"#));
    assert!(diagnostics.is_empty());

    // Wrong type
    let diagnostics = validate(&schema, &json(r#"{"count": "not a number"}"#));
    assert_eq!(diagnostics.len(), 1);
}

#[test]
fn test_validate_computed_attribute_skipped() {
    let schema = Schema::v0().with_attribute("id", Attribute::computed_string());

    // Computed attributes should be skipped
    let diagnostics = validate(&schema, &json("{}"));
    assert!(diagnostics.is_empty());

    // Even with wrong type, we don't validate computed-only attrs
    let diagnostics = validate(&schema, &json(r#"{"id": 123}"#));
    assert!(diagnostics.is_empty());
}

#[test]
fn test_validate_int64() {
    let schema = Schema::v0().with_attribute("count", Attribute::required_int64());

    // Integer
    let diagnostics = validate(&schema, &json(r#"{"count": 42}"#));
    assert!(diagnostics.is_empty());

    // Float that's actually an integer
    let diagnostics = validate(&schema, &json(r#"{"count": 42.0}"#));
    assert!(diagnostics.is_empty());

    // Float with fractional part
    let diagnostics = validate(&schema, &json(r#"{"count": 42.5}"#));
    assert_eq!(diagnostics.len(), 1);

    // String
    let diagnostics = validate(&schema, &json(r#"{"count": "42"}"#));
    assert_eq!(diagnostics.len(), 1);
}

#[test]
fn test_validate_bool() {
    let schema = Schema::v0().with_attribute("enabled", Attribute::required_bool());

    let diagnostics = validate(&schema, &json(r#"{"enabled": true}"#));
    assert!(diagnostics.is_empty());

    let diagnostics = validate(&schema, &json(r#"{"enabled": false}"#));
    assert!(diagnostics.is_empty());

    let diagnostics = validate(&schema, &json(r#"{"enabled": "true"}"#));
    assert_eq!(diagnostics.len(), 1);
}

#[test]
fn test_validate_list() {
    let schema = Schema::v0().with_attribute(
        "tags",
        Attribute::new(
            AttributeType::list(AttributeType::String),
            AttributeFlags::required(),
        ),
    );

    // Valid list
    let diagnostics = validate(&schema, &json(r#"{"tags": ["a", "b", "c"]}"#));
    assert!(diagnostics.is_empty());

    // Empty list
    let diagnostics = validate(&schema, &json(r#"{"tags": []}"#));
    assert!(diagnostics.is_empty());

    // Wrong element type
    let diagnostics = validate(&schema, &json(r#"{"tags": ["a", 123, "c"]}"#));
    assert_eq!(diagnostics.len(), 1);
    assert_eq!(diagnostics[0].attribute, Some("tags.1".to_string()));

    // Not a list
    let diagnostics = validate(&schema, &json(r#"{"tags": "not a list"}"#));
    assert_eq!(diagnostics.len(), 1);
}

#[test]
fn test_validate_map() {
    let schema = Schema::v0().with_attribute(
        "labels",
        Attribute::new(
            AttributeType::map(AttributeType::String),
            AttributeFlags::required(),
        ),
    );

    // Valid map
    let diagnostics = validate(&schema, &json(r#"{"labels": {"env": "prod", "app": "web"}}"#));
    assert!(diagnostics.is_empty());

    // Wrong value type
    let diagnostics = validate(&schema, &json(r#"{"labels": {"env": "prod", "count": 42}}"#));
    assert_eq!(diagnostics.len(), 1);
    assert_eq!(diagnostics[0].attribute, Some("labels.count".to_string()));
}

#[test]
fn test_validate_nested_block_single() {
    let schema = Schema::v0().with_block(
        "config",
        NestedBlock::single(Block::new().with_attribute("enabled", Attribute::required_bool())),
    );

    // Valid
    let diagnostics = validate(&schema, &json(r#"{"config": {"enabled": true}}"#));
    assert!(diagnostics.is_empty());

    // Missing optional block is ok
    let diagnostics = validate(&schema, &json("{}"));
    assert!(diagnostics.is_empty());

    // Invalid nested attribute
    let diagnostics = validate(&schema, &json(r#"{"config": {"enabled": "yes"}}"#));
    assert_eq!(diagnostics.len(), 1);
    assert_eq!(diagnostics[0].attribute, Some("config.enabled".to_string()));
}

#[test]
fn test_validate_nested_block_list() {
    let schema = Schema::v0().with_block(
        "ingress",
        NestedBlock::list(Block::new().with_attribute("port", Attribute::required_int64()))
            .with_min_items(1)
            .with_max_items(3),
    );

    // Valid
    let diagnostics = validate(&schema, &json(r#"{"ingress": [{"port": 80}, {"port": 443}]}"#));
    assert!(diagnostics.is_empty());

    // Too few items
    let diagnostics = validate(&schema, &json(r#"{"ingress": []}"#));
    assert_eq!(diagnostics.len(), 1);
    assert!(diagnostics[0].summary.contains("at least 1"));

    // Too many items
    let diagnostics = validate(
        &schema,
        &json(r#"{"ingress": [{"port": 80}, {"port": 443}, {"port": 8080}, {"port": 9090}]}"#),
    );
    assert_eq!(diagnostics.len(), 1);
    assert!(diagnostics[0].summary.contains("at most 3"));

    // Invalid nested attribute
    let diagnostics = validate(&schema, &json(r#"{"ingress": [{"port": "eighty"}]}"#));
    assert_eq!(diagnostics.len(), 1);
    assert_eq!(diagnostics[0].attribute, Some("ingress.0.port".to_string()));
}

#[test]
fn test_validate_nested_block_map() {
    let schema = Schema::v0().with_block(
        "volumes",
        NestedBlock::map(Block::new().with_attribute("mount_path", Attribute::required_string())),
    );

    // Valid
    let diagnostics = validate(
        &schema,
        &json(r#"{"volumes": {"data": {"mount_path": "/data"}, "logs": {"mount_path": "/logs"}}}"#),
    );
    assert!(diagnostics.is_empty());

    // Invalid nested attribute
    let diagnostics = validate(&schema, &json(r#"{"volumes": {"data": {"mount_path": 123}}}"#));
    assert_eq!(diagnostics.len(), 1);
    assert_eq!(
        diagnostics[0].attribute,
        Some("volumes.data.mount_path".to_string())
    );
}

#[test]
fn test_validate_multiple_errors() {
    let schema = Schema::v0()
        .with_attribute("name", Attribute::required_string())
        .with_attribute("count", Attribute::required_int64())
        .with_attribute("enabled", Attribute::required_bool());

    // All wrong types
    let diagnostics = validate(
        &schema,
        &json(r#"{"name": 123, "count": "not a number", "enabled": "yes"}"#),
    );
    assert_eq!(diagnostics.len(), 3);
}

#[test]
fn test_validate_deeply_nested() {
    let schema = Schema::v0().with_block(
        "network",
        NestedBlock::list(
            Block::new()
                .with_attribute("name", Attribute::required_string())
                .with_block(
                    "subnet",
                    NestedBlock::list(
                        Block::new().with_attribute("cidr", Attribute::required_string()),
                    ),
                ),
        ),
    );

    // Valid
    let diagnostics = validate(
        &schema,
        &json(r#"{"network": [{"name": "vpc-1", "subnet": [{"cidr": "10.0.0.0/24"}]}]}"#),
    );
    assert!(diagnostics.is_empty());

    // Invalid deeply nested
    let diagnostics = validate(
        &schema,
        &json(r#"{"network": [{"name": "vpc-1", "subnet": [{"cidr": 123}]}]}"#),
    );
    assert_eq!(diagnostics.len(), 1);
    assert_eq!(
        diagnostics[0].attribute,
        Some("network.0.subnet.0.cidr".to_string())
    );
}

#[test]
fn test_is_valid_helper() {
    let schema = Schema::v0().with_attribute("name", Attribute::required_string());

    assert!(is_valid(&schema, &json(r#"{"name": "test"}"#)));
    assert!(!is_valid(&schema, &json("{}")));
}

#[test]
fn test_validate_result_helper() {
    let schema = Schema::v0().with_attribute("name", Attribute::required_string());

    assert!(validate_result(&schema, &json(r#"{"name": "test"}"#)).is_ok());

    let result = validate_result(&schema, &json("{}"));
    assert!(result.is_err());
    assert_eq!(result.unwrap_err().len(), 1);
}

#[test]
fn test_validate_object_type() {
    let mut object_attrs = NameMap::new();
    object_attrs.insert("host".to_string(), AttributeType::String);
    object_attrs.insert("port".to_string(), AttributeType::Int64);

    let schema = Schema::v0().with_attribute(
        "endpoint",
        Attribute::new(
            AttributeType::Object(object_attrs),
            AttributeFlags::required(),
        ),
    );

    // Valid
    let diagnostics = validate(
        &schema,
        &json(r#"{"endpoint": {"host": "localhost", "port": 8080}}"#),
    );
    assert!(diagnostics.is_empty());

    // Wrong nested type
    let diagnostics = validate(
        &schema,
        &json(r#"{"endpoint": {"host": "localhost", "port": "8080"}}"#),
    );
    assert_eq!(diagnostics.len(), 1);
    assert_eq!(diagnostics[0].attribute, Some("endpoint.port".to_string()));
}

#[test]
fn test_validate_dynamic_type() {
    let schema = Schema::v0().with_attribute(
        "metadata",
        Attribute::new(AttributeType::Dynamic, AttributeFlags::required()),
    );

    // Any value should be valid
    assert!(validate(&schema, &json(r#"{"metadata": "string"}"#)).is_empty());
    assert!(validate(&schema, &json(r#"{"metadata": 123}"#)).is_empty());
    assert!(validate(&schema, &json(r#"{"metadata": {"nested": "object"}}"#)).is_empty());
    assert!(validate(&schema, &json(r#"{"metadata": [1, 2, 3]}"#)).is_empty());
}

#[test]
fn test_validate_root_not_object() {
    let schema = Schema::v0().with_attribute("name", Attribute::required_string());

    let diagnostics = validate(&schema, &json(r#""not an object""#));
    assert_eq!(diagnostics.len(), 1);
    assert!(diagnostics[0].summary.contains("Expected object"));
}

#[test]
fn missing_required_attribute_is_reported_once() {
    let schema = Schema::v0()
        .with_attribute("name", Attribute::required_string())
        .with_attribute("count", Attribute::optional_int64());

    let diagnostics = validate(&schema, &json("{}"));
    assert_eq!(diagnostics.len(), 1);
    assert_eq!(diagnostics[0].severity, DiagnosticSeverity::Error);
    assert_eq!(diagnostics[0].summary, "Missing required attribute 'name'");
    assert_eq!(
        diagnostics[0].detail,
        Some("This attribute is required and must be provided".to_string())
    );
    assert_eq!(diagnostics[0].attribute, Some("name".to_string()));
}

#[test]
fn wrong_kind_names_expected_and_actual() {
    let schema = Schema::v0().with_attribute("name", Attribute::required_string());

    let diagnostics = validate(&schema, &json(r#"{"name": 123}"#));
    assert_eq!(diagnostics.len(), 1);
    assert_eq!(diagnostics[0].severity, DiagnosticSeverity::Error);
    assert_eq!(diagnostics[0].summary, "Invalid type for attribute 'name'");
    assert_eq!(diagnostics[0].detail, Some("Expected string, got number".to_string()));
    assert_eq!(diagnostics[0].attribute, Some("name".to_string()));
}

#[test]
fn block_limits_give_exact_messages() {
    let schema = Schema::v0().with_block(
        "ingress",
        NestedBlock::list(Block::new()).with_min_items(1).with_max_items(3),
    );

    let diagnostics = validate(&schema, &json(r#"{"ingress": []}"#));
    assert_eq!(diagnostics.len(), 1);
    assert_eq!(
        diagnostics[0].summary,
        "Block 'ingress' requires at least 1 item(s), got 0"
    );
    assert_eq!(diagnostics[0].detail, None);
    assert_eq!(diagnostics[0].attribute, Some("ingress".to_string()));

    let diagnostics = validate(&schema, &json(r#"{"ingress": [{}, {}, {}, {}]}"#));
    assert_eq!(diagnostics.len(), 1);
    assert_eq!(
        diagnostics[0].summary,
        "Block 'ingress' allows at most 3 item(s), got 4"
    );

    let diagnostics = validate(&schema, &json("{}"));
    assert_eq!(diagnostics.len(), 1);
    assert_eq!(
        diagnostics[0].summary,
        "Block 'ingress' requires at least 1 item(s)"
    );

    let diagnostics = validate(&schema, &json(r#"{"ingress": 5}"#));
    assert_eq!(diagnostics.len(), 1);
    assert_eq!(diagnostics[0].summary, "Expected list for block 'ingress'");
    assert_eq!(diagnostics[0].detail, Some("Got number".to_string()));
}

#[test]
fn both_limits_can_fail_together() {
    let schema = Schema::v0().with_block(
        "rule",
        NestedBlock::set(Block::new()).with_min_items(5).with_max_items(2),
    );
    let diagnostics = validate(&schema, &json(r#"{"rule": [{}, {}, {}]}"#));
    assert_eq!(diagnostics.len(), 2);
    assert_eq!(diagnostics[0].summary, "Block 'rule' requires at least 5 item(s), got 3");
    assert_eq!(diagnostics[1].summary, "Block 'rule' allows at most 2 item(s), got 3");
}

#[test]
fn single_block_can_be_required() {
    let schema = Schema::v0().with_block(
        "config",
        NestedBlock::single(Block::new()).with_min_items(1),
    );
    let diagnostics = validate(&schema, &json("{}"));
    assert_eq!(diagnostics.len(), 1);
    assert_eq!(diagnostics[0].summary, "Missing required block 'config'");
    assert_eq!(diagnostics[0].detail, Some("At least one block is required".to_string()));
    assert_eq!(diagnostics[0].attribute, Some("config".to_string()));

    let diagnostics = validate(&schema, &json(r#"{"config": [1]}"#));
    assert_eq!(diagnostics.len(), 1);
    assert_eq!(diagnostics[0].summary, "Expected object");
    assert_eq!(diagnostics[0].detail, Some("Got array".to_string()));
    assert_eq!(diagnostics[0].attribute, Some("config".to_string()));
}

#[test]
fn map_block_limits_and_kind() {
    let schema = Schema::v0().with_block(
        "volumes",
        NestedBlock::map(Block::new()).with_min_items(2),
    );
    let diagnostics = validate(&schema, &json(r#"{"volumes": {"a": {}}}"#));
    assert_eq!(diagnostics.len(), 1);
    assert_eq!(diagnostics[0].summary, "Block 'volumes' requires at least 2 item(s), got 1");

    let diagnostics = validate(&schema, &json(r#"{"volumes": [1, 2]}"#));
    assert_eq!(diagnostics.len(), 1);
    assert_eq!(diagnostics[0].summary, "Expected map for block 'volumes'");
    assert_eq!(diagnostics[0].detail, Some("Got array".to_string()));
}

#[test]
fn root_diagnostic_has_no_attribute_and_null_root_passes() {
    let schema = Schema::v0().with_attribute("name", Attribute::required_string());
    let diagnostics = validate(&schema, &json("7"));
    assert_eq!(diagnostics.len(), 1);
    assert_eq!(diagnostics[0].detail, Some("Got number".to_string()));
    assert_eq!(diagnostics[0].attribute, None);

    assert!(validate(&schema, &json("null")).is_empty());
}

#[test]
fn diagnostics_come_in_the_order_of_the_names() {
    let schema = Schema::v0()
        .with_attribute("zeta", Attribute::required_string())
        .with_attribute("alpha", Attribute::required_string())
        .with_block("beta", NestedBlock::single(Block::new()).with_min_items(1));
    let diagnostics = validate(&schema, &json("{}"));
    let paths: Vec<Option<String>> = diagnostics.iter().map(|d| d.attribute.clone()).collect();
    assert_eq!(
        paths,
        vec![Some("alpha".to_string()), Some("zeta".to_string()), Some("beta".to_string())]
    );
}

#[test]
fn set_and_float_kinds() {
    let schema = Schema::v0()
        .with_attribute(
            "ports",
            Attribute::new(AttributeType::set(AttributeType::Int64), AttributeFlags::optional()),
        )
        .with_attribute(
            "ratio",
            Attribute::new(AttributeType::Float64, AttributeFlags::optional()),
        );
    assert!(validate(&schema, &json(r#"{"ports": [1, 2], "ratio": 0.5}"#)).is_empty());
    assert!(validate(&schema, &json(r#"{"ratio": 3}"#)).is_empty());

    let diagnostics = validate(&schema, &json(r#"{"ports": {"a": 1}, "ratio": "x"}"#));
    assert_eq!(diagnostics.len(), 2);
    assert_eq!(diagnostics[0].detail, Some("Expected set, got object".to_string()));
    assert_eq!(diagnostics[1].detail, Some("Expected float64, got string".to_string()));

    let diagnostics = validate(&schema, &json(r#"{"ports": [1, 1.5, true]}"#));
    assert_eq!(diagnostics.len(), 2);
    assert_eq!(diagnostics[0].attribute, Some("ports.1".to_string()));
    assert_eq!(diagnostics[0].detail, Some("Expected int64, got number".to_string()));
    assert_eq!(diagnostics[1].attribute, Some("ports.2".to_string()));
    assert_eq!(diagnostics[1].detail, Some("Expected int64, got bool".to_string()));
}

#[test]
fn object_type_checks_only_present_fields() {
    let mut fields = NameMap::new();
    fields.insert("host".to_string(), AttributeType::String);
    fields.insert("port".to_string(), AttributeType::Int64);
    let schema = Schema::v0().with_attribute(
        "endpoint",
        Attribute::new(AttributeType::object(fields), AttributeFlags::required()),
    );
    assert!(validate(&schema, &json(r#"{"endpoint": {}}"#)).is_empty());
    assert!(validate(&schema, &json(r#"{"endpoint": {"other": 1}}"#)).is_empty());

    let diagnostics = validate(&schema, &json(r#"{"endpoint": {"host": null}}"#));
    assert_eq!(diagnostics.len(), 1);
    assert_eq!(diagnostics[0].attribute, Some("endpoint.host".to_string()));
    assert_eq!(diagnostics[0].detail, Some("Expected string, got null".to_string()));

    let diagnostics = validate(&schema, &json(r#"{"endpoint": [1]}"#));
    assert_eq!(diagnostics.len(), 1);
    assert_eq!(diagnostics[0].detail, Some("Expected object, got array".to_string()));
}

#[test]
fn filled_required_leaves_validate() {
    let schema = Schema::v0()
        .with_attribute("name", Attribute::required_string())
        .with_attribute("count", Attribute::required_int64())
        .with_attribute(
            "ratio",
            Attribute::new(AttributeType::Float64, AttributeFlags::required()),
        )
        .with_attribute("enabled", Attribute::required_bool());
    let value = json(r#"{"name": "n", "count": -3, "ratio": 1.25, "enabled": false}"#);
    assert!(validate(&schema, &value).is_empty());
    assert!(is_valid(&schema, &value));
    assert!(validate_result(&schema, &value).is_ok());
}

#[test]
fn validate_never_fails_on_odd_values() {
    let schema = Schema::v0()
        .with_attribute("name", Attribute::required_string())
        .with_block("items", NestedBlock::list(Block::new()));
    for text in ["null", "true", "1", "\"x\"", "[]", "{}", "{\"items\": {\"a\": []}}"] {
        let diagnostics = validate(&schema, &json(text));
        assert!(diagnostics.len() <= 2, "{}", text);
    }
}
