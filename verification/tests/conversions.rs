use serde_json::Value;
use typify::conversions::{json_equal, keywords, SchemaCache};
use typify::json::{JsonNumber, JsonValue};
use typify::type_entry::TypeEntryDetails;
use typify::TypeSpaceImpl;

fn to_json(v: &Value) -> JsonValue {
    match v {
        Value::Null => JsonValue::Null,
        Value::Bool(b) => JsonValue::Bool(*b),
        Value::Number(n) => {
            if let Some(u) = n.as_u64() {
                JsonValue::Number(JsonNumber::PosInt(u))
            } else if let Some(i) = n.as_i64() {
                JsonValue::Number(JsonNumber::NegInt(i))
            } else {
                JsonValue::Number(JsonNumber::Float(n.as_f64().unwrap().to_bits()))
            }
        }
        Value::String(s) => JsonValue::String(s.clone()),
        Value::Array(items) => JsonValue::Array(items.iter().map(to_json).collect()),
        Value::Object(map) => {
            JsonValue::Object(map.iter().map(|(k, v)| (k.clone(), to_json(v))).collect())
        }
    }
}

fn j(text: &str) -> JsonValue {
    to_json(&serde_json::from_str::<Value>(text).unwrap())
}

fn schema(text: &str) -> Vec<(String, JsonValue)> {
    match j(text) {
        JsonValue::Object(entries) => entries,
        _ => panic!("a schema is an object"),
    }
}

fn cache(conversions: &[&str]) -> SchemaCache {
    let mut cache = SchemaCache::new();
    for (ii, conversion) in conversions.iter().enumerate() {
        cache.insert(&schema(conversion), &format!("type_{}", ii), &[]);
    }
    cache
}

fn assert_lookup(cache: &SchemaCache, search: &str, expected: Option<&str>) {
    let result = cache.lookup(&schema(search));
    let name = result.map(|entry| match &entry.details {
        TypeEntryDetails::Native(native) => native.path.as_str(),
        _ => panic!("unexpected entry type"),
    });
    assert_eq!(name, expected);
}

#[test]
fn test_subset_match() {
    let cache = cache(&[r#"{ "type": "string", "format": "uuid" }"#]);

    assert_lookup(&cache, r#"{ "type": "string", "format": "uuid" }"#, Some("type_0"));
    assert_lookup(
        &cache,
        r#"{ "type": "string", "format": "uuid", "maxLength": 36 }"#,
        Some("type_0"),
    );
    assert_lookup(&cache, r#"{ "type": "string", "format": "date" }"#, None);
    assert_lookup(&cache, r#"{ "type": "string" }"#, None);
}

#[test]
fn test_metadata_ignored() {
    let cache = cache(&[r#"{ "title": "IgnoredTitle", "type": "number" }"#]);

    assert_lookup(
        &cache,
        r#"{ "description": "one honest number", "type": "number" }"#,
        Some("type_0"),
    );
}

#[test]
fn test_specificity() {
    let cache = cache(&[
        r#"{ "type": "string" }"#,
        r#"{ "type": "string", "format": "uuid" }"#,
    ]);

    assert_lookup(&cache, r#"{ "type": "string", "format": "uuid" }"#, Some("type_1"));
    assert_lookup(&cache, r#"{ "type": "string", "pattern": "^x" }"#, Some("type_0"));
}

#[test]
fn test_first_wins_among_equals() {
    let cache = cache(&[
        r#"{ "type": "integer", "format": "int64" }"#,
        r#"{ "type": "integer", "multipleOf": 2.0 }"#,
    ]);

    assert_lookup(
        &cache,
        r#"{ "type": "integer", "format": "int64", "multipleOf": 2.0 }"#,
        Some("type_0"),
    );
}

#[test]
fn test_deep_equality() {
    let cache = cache(&[r#"{ "enum": [1, "one"] }"#]);

    assert_lookup(&cache, r#"{ "enum": [1, "one"], "type": "string" }"#, Some("type_0"));
    assert_lookup(&cache, r#"{ "enum": ["one", 1] }"#, None);
}

#[test]
fn test_empty_conversion_matches_everything() {
    let cache = cache(&["{}", r#"{ "type": "boolean" }"#]);

    assert_lookup(&cache, r#"{ "type": "string" }"#, Some("type_0"));
    assert_lookup(&cache, r#"{ "type": "boolean" }"#, Some("type_1"));
}

#[test]
fn keywords_drop_every_metadata_keyword() {
    let k = keywords(&schema(
        r#"{
            "$id": "x", "title": "t", "description": "d", "default": 1,
            "deprecated": true, "readOnly": true, "writeOnly": true,
            "examples": [1], "type": "integer", "minimum": 3
        }"#,
    ));
    assert!(json_equal(
        &JsonValue::Object(k),
        &j(r#"{ "type": "integer", "minimum": 3 }"#)
    ));
}

#[test]
fn lookup_index_reports_the_chosen_conversion() {
    let cache = cache(&[
        r#"{ "type": "string" }"#,
        r#"{ "type": "string", "format": "uuid" }"#,
        r#"{ "type": "string", "format": "uuid", "maxLength": 36 }"#,
    ]);
    assert_eq!(
        cache.lookup_index(&schema(r#"{ "type": "string", "format": "uuid" }"#)),
        Some(1)
    );
    assert_eq!(cache.lookup_index(&schema(r#"{ "type": "number" }"#)), None);
}

#[test]
fn insert_records_the_native_type() {
    let mut cache = SchemaCache::new();
    cache.insert(
        &schema(r#"{ "type": "number" }"#),
        "::rust_decimal::Decimal",
        &[TypeSpaceImpl::Display],
    );
    assert_eq!(cache.conversions.len(), 1);
    match &cache.conversions[0].1.details {
        TypeEntryDetails::Native(native) => {
            assert_eq!(native.path, "::rust_decimal::Decimal");
            assert_eq!(native.impls, vec![TypeSpaceImpl::Display]);
            assert!(native.parameters.is_empty());
        }
        _ => panic!("expected a native type"),
    }
}

#[test]
fn json_equality_is_deep_and_order_insensitive_for_objects() {
    assert!(json_equal(&j(r#"{ "a": 1, "b": [true, null] }"#), &j(r#"{ "b": [true, null], "a": 1 }"#)));
    assert!(!json_equal(&j("[1, 2]"), &j("[2, 1]")));
    assert!(!json_equal(&j(r#"{ "a": 1 }"#), &j(r#"{ "a": 1, "b": 2 }"#)));
    assert!(!json_equal(&j("1"), &j("1.0")));
    assert!(json_equal(&j("0.0"), &j("-0.0")));
    assert!(json_equal(&j("-3"), &j("-3")));
    assert!(!json_equal(&j(r#""x""#), &j(r#""y""#)));
}
