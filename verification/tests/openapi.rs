use serde_json::Value;
use typify::conversions::json_equal;
use typify::json::{JsonNumber, JsonValue};
use typify::openapi::{extract_schemas, Location, Normalizer, OpenApiVersion, SchemaDialect};
use typify::Error;

fn to_json(v: &Value) -> JsonValue {
    match v {
        Value::Null => JsonValue::Null,
        Value::Bool(b) => JsonValue::Bool(*b),
        Value::Number(n) => {
            if let Some(u) = n.as_u64() {
                JsonValue::Number(JsonNumber::PosInt(u))
            } else if let Some(i) = n.as_i64() {
                JsonValue::Number(JsonNumber::NegInt(i))
            } else {
                JsonValue::Number(JsonNumber::Float(n.as_f64().unwrap().to_bits()))
            }
        }
        Value::String(s) => JsonValue::String(s.clone()),
        Value::Array(items) => JsonValue::Array(items.iter().map(to_json).collect()),
        Value::Object(map) => {
            JsonValue::Object(map.iter().map(|(k, v)| (k.clone(), to_json(v))).collect())
        }
    }
}

fn j(text: &str) -> JsonValue {
    to_json(&serde_json::from_str::<Value>(text).unwrap())
}

fn assert_json_eq(actual: &JsonValue, expected: &str) {
    let expected = j(expected);
    assert!(
        json_equal(actual, &expected),
        "{:?} differs from {:?}",
        actual,
        expected
    );
}

fn normalize(dialect: SchemaDialect, schema: &str) -> Result<JsonValue, Error> {
    let normalizer = Normalizer {
        dialect,
        schema_names: vec!["Referenced".to_string()],
    };
    normalizer.normalize(&j(schema), &Location::root())
}

fn normalize_3_0(schema: &str) -> Result<JsonValue, Error> {
    normalize(SchemaDialect::OpenApi30, schema)
}

fn normalize_2020_12(schema: &str) -> Result<JsonValue, Error> {
    normalize(SchemaDialect::JsonSchema202012, schema)
}

fn assert_invalid<T: std::fmt::Debug>(result: Result<T, Error>, location: &str, reason_fragment: &str) {
    match result {
        Err(Error::InvalidOpenApi {
            location: l,
            reason,
        }) => {
            assert_eq!(l, location);
            assert!(
                reason.contains(reason_fragment),
                "reason {:?} does not contain {:?}",
                reason,
                reason_fragment,
            );
        }
        other => panic!("expected an InvalidOpenApi error; got {:?}", other),
    }
}

/// The schemas of a document, or the first failure among them.
fn extract(document: &JsonValue) -> Result<Vec<(String, JsonValue)>, Error> {
    let components = extract_schemas(document)?;
    match components.failure {
        Some(e) => Err(e),
        None => Ok(components.schemas),
    }
}

#[test]
fn test_version_parse() {
    for (version, expected) in [
        ("3.0.0", OpenApiVersion::V3_0),
        ("3.0.4", OpenApiVersion::V3_0),
        ("3.0", OpenApiVersion::V3_0),
        ("3.1.0", OpenApiVersion::V3_1),
        ("3.1.1", OpenApiVersion::V3_1),
        ("3.2.0", OpenApiVersion::V3_2),
    ] {
        assert_eq!(
            OpenApiVersion::parse(version, &Location::root()).unwrap(),
            expected,
        );
    }

    for version in ["2.0", "3", "3.3.0", "4.0.0", "three"] {
        assert_invalid(
            OpenApiVersion::parse(version, &Location::root()),
            "#",
            "unsupported OpenAPI version",
        );
    }
}

#[test]
fn test_dialects() {
    assert_eq!(OpenApiVersion::V3_0.dialect(), SchemaDialect::OpenApi30);
    assert_eq!(
        OpenApiVersion::V3_1.dialect(),
        SchemaDialect::JsonSchema202012,
    );
    assert_eq!(
        OpenApiVersion::V3_2.dialect(),
        SchemaDialect::JsonSchema202012,
    );
}

#[test]
fn test_nullable_typed() {
    assert_json_eq(
        &normalize_3_0(
            r#"{
                "title": "Pet",
                "description": "a pet",
                "type": "string",
                "nullable": true
            }"#,
        )
        .unwrap(),
        r#"{
            "description": "a pet",
            "type": ["string", "null"]
        }"#,
    );
}

#[test]
fn test_nullable_typed_enum() {
    assert_json_eq(
        &normalize_3_0(
            r#"{
                "type": "string",
                "enum": ["dog", "cat"],
                "nullable": true
            }"#,
        )
        .unwrap(),
        r#"{
            "type": ["string", "null"],
            "enum": ["dog", "cat", null]
        }"#,
    );

    assert_json_eq(
        &normalize_3_0(
            r#"{
                "type": "string",
                "enum": ["dog", null],
                "nullable": true
            }"#,
        )
        .unwrap(),
        r#"{
            "type": ["string", "null"],
            "enum": ["dog", null]
        }"#,
    );
}

#[test]
fn test_nullable_untyped_enum() {
    assert_json_eq(
        &normalize_3_0(
            r#"{
                "enum": ["dog", "cat"],
                "nullable": true
            }"#,
        )
        .unwrap(),
        r#"{
            "enum": ["dog", "cat", null]
        }"#,
    );
}

#[test]
fn test_nullable_union() {
    assert_json_eq(
        &normalize_3_0(
            r#"{
                "oneOf": [
                    { "type": "string" },
                    { "type": "integer" }
                ],
                "nullable": true
            }"#,
        )
        .unwrap(),
        r#"{
            "oneOf": [
                { "type": "string" },
                { "type": "integer" },
                { "type": "null" }
            ]
        }"#,
    );
}

#[test]
fn test_nullable_ref() {
    assert_json_eq(
        &normalize_3_0(
            r##"{
                "$ref": "#/components/schemas/Referenced",
                "nullable": true
            }"##,
        )
        .unwrap(),
        r##"{
            "anyOf": [
                { "$ref": "#/components/schemas/Referenced" },
                { "type": "null" }
            ]
        }"##,
    );
}

#[test]
fn test_nullable_empty() {
    assert_json_eq(&normalize_3_0(r#"{ "nullable": true }"#).unwrap(), "{}");
}

#[test]
fn test_nullable_noise() {
    assert_json_eq(
        &normalize_3_0(
            r#"{
                "type": "string",
                "nullable": false
            }"#,
        )
        .unwrap(),
        r#"{ "type": "string" }"#,
    );

    assert_invalid(
        normalize_3_0(r#"{ "nullable": "yes" }"#),
        "#/nullable",
        "expected a boolean",
    );
}

#[test]
fn test_nullable_within_properties() {
    assert_json_eq(
        &normalize_3_0(
            r#"{
                "type": "object",
                "properties": {
                    "nullable": { "type": "boolean" }
                }
            }"#,
        )
        .unwrap(),
        r#"{
            "type": "object",
            "properties": {
                "nullable": { "type": "boolean" }
            }
        }"#,
    );
}

#[test]
fn test_exclusive_bounds() {
    assert_json_eq(
        &normalize_3_0(
            r#"{
                "type": "integer",
                "minimum": 1,
                "exclusiveMinimum": true,
                "maximum": 10,
                "exclusiveMaximum": false
            }"#,
        )
        .unwrap(),
        r#"{
            "type": "integer",
            "exclusiveMinimum": 1,
            "maximum": 10
        }"#,
    );

    assert_json_eq(
        &normalize_3_0(
            r#"{
                "type": "integer",
                "exclusiveMinimum": true
            }"#,
        )
        .unwrap(),
        r#"{ "type": "integer" }"#,
    );

    let numeric = r#"{
        "type": "integer",
        "exclusiveMinimum": 1
    }"#;
    assert_json_eq(&normalize_3_0(numeric).unwrap(), numeric);
    assert_json_eq(&normalize_2020_12(numeric).unwrap(), numeric);
}

#[test]
fn test_example_to_examples() {
    assert_json_eq(
        &normalize_3_0(
            r#"{
                "type": "string",
                "example": "fido"
            }"#,
        )
        .unwrap(),
        r#"{
            "type": "string",
            "examples": ["fido"]
        }"#,
    );

    assert_json_eq(
        &normalize_2020_12(
            r#"{
                "type": "string",
                "example": "fido",
                "examples": ["rex"]
            }"#,
        )
        .unwrap(),
        r#"{
            "type": "string",
            "examples": ["rex"]
        }"#,
    );
}

#[test]
fn test_null_default() {
    assert_json_eq(
        &normalize_3_0(
            r#"{
                "type": "string",
                "default": null
            }"#,
        )
        .unwrap(),
        r#"{ "type": "string" }"#,
    );

    assert_json_eq(
        &normalize_3_0(
            r#"{
                "type": "string",
                "default": null,
                "nullable": true
            }"#,
        )
        .unwrap(),
        r#"{
            "type": ["string", "null"],
            "default": null
        }"#,
    );
}

#[test]
fn test_3_0_illegal_constructs() {
    assert_invalid(
        normalize_3_0(r#"{ "type": ["string", "null"] }"#),
        "#/type",
        "type arrays",
    );
    assert_invalid(
        normalize_3_0(
            r#"{
                "type": "array",
                "items": [{ "type": "string" }]
            }"#,
        ),
        "#/items",
        "not an array of schemas",
    );
    assert_invalid(
        normalize_3_0(
            r#"{
                "type": "object",
                "additionalProperties": { "not": true }
            }"#,
        ),
        "#/additionalProperties/not",
        "boolean schemas",
    );
}

#[test]
fn test_prefix_items() {
    assert_json_eq(
        &normalize_2020_12(
            r#"{
                "type": "array",
                "prefixItems": [
                    { "type": "string" },
                    { "type": "integer" }
                ]
            }"#,
        )
        .unwrap(),
        r#"{
            "type": "array",
            "items": [
                { "type": "string" },
                { "type": "integer" }
            ]
        }"#,
    );

    assert_json_eq(
        &normalize_2020_12(
            r#"{
                "type": "array",
                "prefixItems": [{ "type": "string" }],
                "items": { "type": "integer" }
            }"#,
        )
        .unwrap(),
        r#"{
            "type": "array",
            "items": [{ "type": "string" }],
            "additionalItems": { "type": "integer" }
        }"#,
    );
}

#[test]
fn test_2020_12_passthrough() {
    let schema = r#"{
        "type": ["string", "integer"],
        "const": "x",
        "examples": ["x"],
        "x-custom": { "$comment": "vendor extensions ride along" }
    }"#;
    assert_json_eq(&normalize_2020_12(schema).unwrap(), schema);

    assert_json_eq(
        &normalize_2020_12(
            r#"{
                "type": "object",
                "additionalProperties": false
            }"#,
        )
        .unwrap(),
        r#"{
            "type": "object",
            "additionalProperties": false
        }"#,
    );
}

#[test]
fn test_2020_12_nullable_leniency() {
    assert_json_eq(
        &normalize_2020_12(
            r#"{
                "type": "string",
                "nullable": true
            }"#,
        )
        .unwrap(),
        r#"{ "type": ["string", "null"] }"#,
    );

    assert_json_eq(
        &normalize_2020_12(
            r#"{
                "type": ["string", "integer"],
                "nullable": true
            }"#,
        )
        .unwrap(),
        r#"{ "type": ["string", "integer", "null"] }"#,
    );
}

#[test]
fn test_unsupported_keywords() {
    assert_invalid(
        normalize_2020_12(
            r##"{
                "$defs": { "Inner": { "type": "string" } },
                "$ref": "#/$defs/Inner"
            }"##,
        ),
        "#/$defs",
        "nested within a component schema",
    );
    assert_invalid(
        normalize_2020_12(r##"{ "$dynamicRef": "#meta" }"##),
        "#/$dynamicRef",
        "`$dynamicRef` is not supported",
    );
    assert_invalid(
        normalize_3_0(
            r#"{
                "definitions": { "Inner": { "type": "string" } }
            }"#,
        ),
        "#/definitions",
        "nested within a component schema",
    );
}

#[test]
fn test_refs() {
    let schema = r##"{ "$ref": "#/components/schemas/Referenced" }"##;
    assert_json_eq(&normalize_3_0(schema).unwrap(), schema);

    assert_invalid(
        normalize_3_0(r##"{ "$ref": "#/components/schemas/Missing" }"##),
        "#/$ref",
        "does not match a schema",
    );
    assert_invalid(
        normalize_3_0(r##"{ "$ref": "#/components/parameters/PetId" }"##),
        "#/$ref",
        "#/components/schemas/<name>",
    );
    assert_invalid(
        normalize_3_0(r##"{ "$ref": "other.json#/components/schemas/Pet" }"##),
        "#/$ref",
        "#/components/schemas/<name>",
    );
    assert_invalid(
        normalize_3_0(r##"{ "$ref": "#/components/schemas/Referenced/properties/x" }"##),
        "#/$ref",
        "refers into the interior of a schema",
    );
    assert_invalid(
        normalize_2020_12(r#"{ "properties": { "x": { "$ref": 42 } } }"#),
        "#/properties/x/$ref",
        "expected a reference string",
    );
}

#[test]
fn test_escaped_ref() {
    let normalizer = Normalizer {
        dialect: SchemaDialect::OpenApi30,
        schema_names: vec!["a/b~c".to_string()],
    };
    let schema = r##"{ "$ref": "#/components/schemas/a~1b~0c" }"##;
    assert_json_eq(
        &normalizer.normalize(&j(schema), &Location::root()).unwrap(),
        schema,
    );
}

#[test]
fn test_extract_schemas() {
    let document = j(r##"{
        "openapi": "3.0.3",
        "info": { "title": "test", "version": "1.0.0" },
        "paths": {},
        "components": {
            "schemas": {
                "Pet": {
                    "type": "object",
                    "properties": {
                        "name": { "type": "string" },
                        "tag": {
                            "$ref": "#/components/schemas/Tag"
                        }
                    },
                    "required": ["name"]
                },
                "Tag": {
                    "type": "string",
                    "nullable": true
                }
            }
        }
    }"##);

    let schemas = extract(&document).unwrap();
    assert_eq!(
        schemas
            .iter()
            .map(|(name, _)| name.as_str())
            .collect::<Vec<_>>(),
        vec!["Pet", "Tag"],
    );

    let JsonValue::Object(tag) = &schemas[1].1 else {
        panic!("expected an object schema");
    };
    let instance_type = tag
        .iter()
        .find(|(k, _)| k == "type")
        .map(|(_, v)| v)
        .unwrap();
    assert_json_eq(instance_type, r#"["string", "null"]"#);
}

#[test]
fn test_extract_schemas_empty() {
    let document = j(r#"{
        "openapi": "3.1.0",
        "info": { "title": "test", "version": "1.0.0" },
        "paths": {}
    }"#);
    assert!(extract(&document).unwrap().is_empty());
}

#[test]
fn test_extract_schemas_errors() {
    assert_invalid(extract(&j("[]")), "#", "document must be an object");
    assert_invalid(extract(&j(r#"{ "swagger": "2.0" }"#)), "#", "Swagger 2.0");
    assert_invalid(
        extract(&j(r#"{ "openapi": "4.0.0" }"#)),
        "#/openapi",
        "unsupported OpenAPI version",
    );
    assert_invalid(
        extract(&j(r#"{ "info": {} }"#)),
        "#",
        "missing the `openapi` field",
    );
    assert_invalid(
        extract(&j(r##"{
            "openapi": "3.1.0",
            "jsonSchemaDialect": "http://json-schema.org/draft-07/schema#"
        }"##)),
        "#/jsonSchemaDialect",
        "unsupported schema dialect",
    );

    let nullable_array = |version: &str| {
        j(&format!(
            r#"{{
                "openapi": "{}",
                "components": {{
                    "schemas": {{
                        "Tag": {{ "type": ["string", "null"] }}
                    }}
                }}
            }}"#,
            version
        ))
    };
    assert_invalid(
        extract(&nullable_array("3.0.0")),
        "#/components/schemas/Tag/type",
        "type arrays",
    );
    extract(&nullable_array("3.1.0")).unwrap();
}

#[test]
fn test_extract_schemas_dialect_field() {
    let document = j(r#"{
        "openapi": "3.2.0",
        "jsonSchemaDialect": "https://spec.openapis.org/oas/3.2/dialect/base",
        "components": {
            "schemas": {
                "Tags": {
                    "type": "array",
                    "prefixItems": [{ "type": "string" }]
                }
            }
        }
    }"#);
    let schemas = extract(&document).unwrap();
    assert_eq!(schemas.len(), 1);
}
