use hemmer_provider_sdk::codec::from_json_bytes;
use hemmer_provider_sdk::diff::{collect_leaves, compare, diff, ROOT_PATH};
use hemmer_provider_sdk::{AttributeChange, JsonValue};

fn json(text: &str) -> JsonValue {
    from_json_bytes(text.as_bytes()).unwrap()
}

fn sorted(mut changes: Vec<AttributeChange>) -> Vec<AttributeChange> {
    changes.sort_by(|a, b| a.path.cmp(&b.path));
    changes
}

#[test]
fn creation_lists_every_leaf() {
    let plan = diff(None, json(r#"{"name": "t", "tags": ["a", "b"]}"#));
    assert_eq!(plan.planned_state, json(r#"{"name": "t", "tags": ["a", "b"]}"#));
    assert!(!plan.requires_replace);
    assert_eq!(
        sorted(plan.changes),
        vec![
            AttributeChange::added("name", JsonValue::text("t")),
            AttributeChange::added("tags[0]", JsonValue::text("a")),
            AttributeChange::added("tags[1]", JsonValue::text("b")),
        ]
    );
}

#[test]
fn type_change_is_one_modification() {
    let plan = diff(Some(json(r#"{"value": 42}"#)), json(r#"{"value": "42"}"#));
    assert_eq!(
        plan.changes,
        vec![AttributeChange::modified("value", JsonValue::integer(42), JsonValue::text("42"))]
    );
    assert_eq!(plan.planned_state, json(r#"{"value": "42"}"#));
    assert!(!plan.requires_replace);
}

#[test]
fn same_state_plans_nothing() {
    for text in ["null", "1", "\"x\"", "[1, [2, {\"a\": null}]]", "{\"a\": {\"b\": [1.5, true]}}"] {
        let plan = diff(Some(json(text)), json(text));
        assert_eq!(plan.planned_state, json(text));
        assert!(plan.changes.is_empty(), "{}", text);
        assert!(!plan.requires_replace);
    }
}

#[test]
fn member_order_does_not_make_a_change() {
    let plan = diff(Some(json(r#"{"a": 1, "b": 2}"#)), json(r#"{"b": 2, "a": 1}"#));
    assert!(plan.changes.is_empty());
}

#[test]
fn removal_mirrors_creation() {
    let value = json(r#"{"name": "t", "nested": {"k": [1, 2], "e": {}}, "tags": ["a"]}"#);
    let created = diff(None, value.clone()).changes;
    let removed = diff(Some(value), json("{}")).changes;
    assert_eq!(created.len(), 4);
    assert_eq!(removed.len(), created.len());
    for (made, gone) in created.iter().zip(removed.iter()) {
        assert_eq!(made.path, gone.path);
        assert_eq!(made.before, None);
        assert_eq!(gone.after, None);
        assert_eq!(made.after, gone.before);
    }
}

#[test]
fn scalar_root_creates_nothing() {
    assert!(diff(None, json("5")).changes.is_empty());
    assert!(diff(None, json("\"x\"")).changes.is_empty());
    assert!(diff(None, json("null")).changes.is_empty());
    assert!(diff(None, json("{}")).changes.is_empty());
    assert_eq!(diff(None, json("5")).planned_state, JsonValue::integer(5));
}

#[test]
fn array_root_creates_bracketed_paths() {
    let plan = diff(None, json(r#"[1, {"a": true}]"#));
    assert_eq!(
        plan.changes,
        vec![
            AttributeChange::added("[0]", JsonValue::integer(1)),
            AttributeChange::added("[1].a", JsonValue::Bool(true)),
        ]
    );
}

#[test]
fn root_difference_is_reported_at_the_root_path() {
    let plan = diff(Some(json("1")), json("2"));
    assert_eq!(
        plan.changes,
        vec![AttributeChange::modified(ROOT_PATH, JsonValue::integer(1), JsonValue::integer(2))]
    );
    let plan = diff(Some(json("{\"a\": 1}")), json("[1]"));
    assert_eq!(plan.changes.len(), 1);
    assert_eq!(plan.changes[0].path, ROOT_PATH);
    assert_eq!(plan.changes[0].before, Some(json("{\"a\": 1}")));
    assert_eq!(plan.changes[0].after, Some(json("[1]")));
}

#[test]
fn members_are_added_removed_and_compared() {
    let plan = diff(
        Some(json(r#"{"keep": 1, "gone": {"x": [1, 2]}, "changed": {"a": 1, "b": 2}}"#)),
        json(r#"{"keep": 1, "new": [true], "changed": {"a": 1, "b": 3}}"#),
    );
    assert_eq!(
        sorted(plan.changes),
        vec![
            AttributeChange::modified("changed.b", JsonValue::integer(2), JsonValue::integer(3)),
            AttributeChange::removed("gone.x[0]", JsonValue::integer(1)),
            AttributeChange::removed("gone.x[1]", JsonValue::integer(2)),
            AttributeChange::added("new[0]", JsonValue::Bool(true)),
        ]
    );
}

#[test]
fn changes_come_prior_members_first() {
    let plan = diff(Some(json(r#"{"b": 1, "z": 1}"#)), json(r#"{"a": 1, "z": 2}"#));
    let paths: Vec<&str> = plan.changes.iter().map(|c| c.path.as_str()).collect();
    assert_eq!(paths, vec!["b", "z", "a"]);
}

#[test]
fn arrays_are_compared_index_by_index() {
    let plan = diff(Some(json(r#"{"l": [1, 2, 3]}"#)), json(r#"{"l": [1, 5]}"#));
    assert_eq!(
        plan.changes,
        vec![
            AttributeChange::modified("l[1]", JsonValue::integer(2), JsonValue::integer(5)),
            AttributeChange::removed("l[2]", JsonValue::integer(3)),
        ]
    );
    let plan = diff(Some(json(r#"{"l": [[1]]}"#)), json(r#"{"l": [[1, 2], {"k": "v"}]}"#));
    assert_eq!(
        plan.changes,
        vec![
            AttributeChange::added("l[0][1]", JsonValue::integer(2)),
            AttributeChange::added("l[1].k", JsonValue::text("v")),
        ]
    );
}

#[test]
fn mismatched_containers_are_one_modification() {
    let plan = diff(Some(json(r#"{"v": [1]}"#)), json(r#"{"v": {"a": 1}}"#));
    assert_eq!(
        plan.changes,
        vec![AttributeChange::modified("v", json("[1]"), json(r#"{"a": 1}"#))]
    );
    let plan = diff(Some(json(r#"{"v": null}"#)), json(r#"{"v": {}}"#));
    assert_eq!(plan.changes, vec![AttributeChange::modified("v", JsonValue::Null, json("{}"))]);
}

#[test]
fn numbers_of_different_form_differ_and_zeros_do_not() {
    let plan = diff(Some(json(r#"{"n": 1}"#)), json(r#"{"n": 1.0}"#));
    assert_eq!(plan.changes.len(), 1);
    let plan = diff(Some(json(r#"{"n": 0.0}"#)), json(r#"{"n": -0.0}"#));
    assert!(plan.changes.is_empty());
}

#[test]
fn collect_and_compare_append() {
    let mut changes = vec![AttributeChange::added("first", JsonValue::Null)];
    collect_leaves(&json(r#"{"a": [null]}"#), "p", false, &mut changes);
    compare(&json("1"), &json("2"), "q", "shown", &mut changes);
    assert_eq!(
        changes,
        vec![
            AttributeChange::added("first", JsonValue::Null),
            AttributeChange::removed("p.a[0]", JsonValue::Null),
            AttributeChange::modified("shown", JsonValue::integer(1), JsonValue::integer(2)),
        ]
    );
}

#[test]
fn index_paths_use_all_digits() {
    let items: Vec<String> = (0..12).map(|i| i.to_string()).collect();
    let text = format!("[{}]", items.join(","));
    let plan = diff(None, json(&text));
    assert_eq!(plan.changes.len(), 12);
    assert_eq!(plan.changes[9].path, "[9]");
    assert_eq!(plan.changes[10].path, "[10]");
    assert_eq!(plan.changes[11].path, "[11]");
}

#[test]
fn an_empty_key_at_the_root_is_not_the_root() {
    let plan = diff(Some(json(r#"{"": 1}"#)), json(r#"{"": 2}"#));
    assert_eq!(
        plan.changes,
        vec![AttributeChange::modified("", JsonValue::integer(1), JsonValue::integer(2))]
    );
}
