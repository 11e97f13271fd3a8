use serde_json::Value;
use typify::attrs::{compute_derive_list, doc_description};
use typify::conversions::json_equal;
use typify::json::{JsonNumber, JsonValue};
use typify::openapi::{
    document_dialect, example_to_examples, exclusive_bound, finish_2020_12, finish_openapi_3_0,
    invalid_openapi, make_nullable, unsupported_keyword_reason, KeywordKind, Location,
    Normalizer, OpenApiVersion, SchemaDialect,
};
use typify::settings::{
    contains_string, copy_strings, find_keyed, insert_keyed, AllOfStrategy, ArrayOptionality,
    DefaultBoolOptionality, DefaultedFieldOptionality, MapType, SerdeFieldCase,
    TypeSpaceSettings,
};
use typify::space::{untagged_newtype_string, untagged_newtype_variants, RefKey, TypeSpace};
use typify::strings::{push_decimal, replace_pair_exec};
use typify::type_entry::{
    path_last_segment, variants_unique, TypeEntry, TypeEntryDetails, TypeEntryStruct, Variant,
    VariantDetails,
};
use typify::{Error, TypeId, TypeKind, TypeSpaceImpl};

fn to_json(v: &Value) -> JsonValue {
    match v {
        Value::Null => JsonValue::Null,
        Value::Bool(b) => JsonValue::Bool(*b),
        Value::Number(n) => {
            if let Some(u) = n.as_u64() {
                JsonValue::Number(JsonNumber::PosInt(u))
            } else if let Some(i) = n.as_i64() {
                JsonValue::Number(JsonNumber::NegInt(i))
            } else {
                JsonValue::Number(JsonNumber::Float(n.as_f64().unwrap().to_bits()))
            }
        }
        Value::String(s) => JsonValue::String(s.clone()),
        Value::Array(items) => JsonValue::Array(items.iter().map(to_json).collect()),
        Value::Object(map) => {
            JsonValue::Object(map.iter().map(|(k, v)| (k.clone(), to_json(v))).collect())
        }
    }
}

fn j(text: &str) -> JsonValue {
    to_json(&serde_json::from_str::<Value>(text).unwrap())
}

fn entries(text: &str) -> Vec<(String, JsonValue)> {
    match j(text) {
        JsonValue::Object(e) => e,
        _ => panic!("expected an object"),
    }
}

fn assert_json_eq(actual: &JsonValue, expected: &str) {
    let expected = j(expected);
    assert!(json_equal(actual, &expected), "{:?} differs from {:?}", actual, expected);
}

fn strings(xs: &[&str]) -> Vec<String> {
    xs.iter().map(|x| x.to_string()).collect()
}

fn variant(name: &str, details: VariantDetails) -> Variant {
    let mut v = Variant::new(name.to_string(), None, details);
    v.ident_name = Some(name.to_string());
    v
}

#[test]
fn decimal_and_pair_replacement() {
    let mut s = "n".to_string();
    push_decimal(&mut s, 1203);
    assert_eq!(s, "n1203");
    push_decimal(&mut s, 0);
    assert_eq!(s, "n12030");
    assert_eq!(replace_pair_exec("a~1b~0c~", '~', '1', '/'), "a/b~0c~");
    assert_eq!(replace_pair_exec("~~1", '~', '1', '/'), "~/");
}

#[test]
fn last_path_segments() {
    assert_eq!(path_last_segment("::std::string::String"), "String");
    assert_eq!(path_last_segment("Uuid"), "Uuid");
    assert_eq!(path_last_segment("a:::b"), "b");
}

#[test]
fn keyed_vectors() {
    let mut v: Vec<(String, u32)> = Vec::new();
    insert_keyed(&mut v, "a".to_string(), 1);
    insert_keyed(&mut v, "b".to_string(), 2);
    insert_keyed(&mut v, "a".to_string(), 3);
    assert_eq!(v, vec![("a".to_string(), 3), ("b".to_string(), 2)]);
    assert_eq!(find_keyed(&v, "b"), Some(1));
    assert_eq!(find_keyed(&v, "c"), None);
    let names = strings(&["x", "y"]);
    assert!(contains_string(&names, "y"));
    assert!(!contains_string(&names, "z"));
    assert_eq!(copy_strings(&names), names);
}

#[test]
fn settings_builders_and_getters() {
    let mut settings = TypeSpaceSettings::default();
    settings
        .with_array_optionality(ArrayOptionality::OptionalIfNotRequired)
        .with_default_bool_optionality(DefaultBoolOptionality::AlwaysOption)
        .with_defaulted_field_optionality(DefaultedFieldOptionality::AlwaysOption)
        .with_allof_strategy(AllOfStrategy::Compose)
        .with_serde_field_case(SerdeFieldCase::Wire);
    assert_eq!(settings.array_optionality, ArrayOptionality::OptionalIfNotRequired);
    assert_eq!(settings.default_bool_optionality, DefaultBoolOptionality::AlwaysOption);
    assert_eq!(settings.defaulted_field_optionality(), DefaultedFieldOptionality::AlwaysOption);
    assert_eq!(settings.allof_strategy, AllOfStrategy::Compose);
    assert_eq!(settings.serde_field_case(), Some(SerdeFieldCase::Wire));
    assert_eq!(MapType::default_map().path, "::std::collections::HashMap");
}

#[test]
fn derive_list_without_denials() {
    let settings = TypeSpaceSettings::default();
    let list = compute_derive_list(
        &settings,
        TypeKind::Enum,
        &strings(&["Debug", "Clone"]),
        &strings(&["Hash"]),
        &strings(&["Clone", "Eq"]),
    );
    assert_eq!(list, strings(&["Clone", "Debug", "Eq", "Hash"]));
}

#[test]
fn doc_descriptions() {
    let d = "A pet.".to_string();
    assert_eq!(doc_description("Pet", Some(&d)), "A pet.");
    assert_eq!(doc_description("Pet", None), "`Pet`");
}

#[test]
fn unique_variant_identifiers() {
    let vs = vec![variant("A", VariantDetails::Simple), variant("B", VariantDetails::Simple)];
    assert!(variants_unique(&vs));
    let vs = vec![
        variant("A", VariantDetails::Simple),
        variant("B", VariantDetails::Simple),
        variant("A", VariantDetails::Simple),
    ];
    assert!(!variants_unique(&vs));
}

#[test]
fn space_lookups_and_allocation() {
    let mut space = TypeSpace::default();
    let int = space.assign_type(TypeEntry::new_integer("u8"));
    let vec = space.assign_type(TypeEntry::from_details(TypeEntryDetails::Vec(int)));
    assert_eq!(space.find_entry(int), Some(0));
    assert_eq!(space.find_entry(vec), Some(1));
    assert_eq!(space.find_entry(TypeId(99)), None);
    assert!(matches!(space.get_entry(vec).map(|e| &e.details), Some(TypeEntryDetails::Vec(i)) if *i == int));
    assert!(space.get_entry(TypeId(99)).is_none());
    assert_eq!(space.find_details(&TypeEntryDetails::Integer("u8".to_string())), Some(0));
    assert_eq!(space.find_details(&TypeEntryDetails::Vec(int)), Some(1));
    assert_eq!(space.find_details(&TypeEntryDetails::SetOf(int)), None);

    let next = space.next_id;
    assert_eq!(space.assign(), TypeId(next));
    assert_eq!(space.next_id, next + 1);

    let opt = space.type_to_option(TypeEntry::new_integer("u8"));
    assert!(matches!(opt.details, TypeEntryDetails::Option(i) if i == int));
    let opt = space.type_to_option(TypeEntry::new_boolean());
    let boolean = match opt.details {
        TypeEntryDetails::Option(i) => i,
        _ => panic!("expected an option"),
    };
    assert!(matches!(space.get_entry(boolean).map(|e| &e.details), Some(TypeEntryDetails::Boolean)));
}

#[test]
fn definition_names_and_parameter_idents() {
    let mut settings = TypeSpaceSettings::default();
    settings.with_type_mod("types");
    let mut space = TypeSpace::new(settings);
    let string = space.assign_type(TypeEntry::from_details(TypeEntryDetails::String));
    let int = space.assign_type(TypeEntry::new_integer("i32"));
    let opt = space.id_to_option(string);
    space.ref_to_id.push((RefKey::Root, int));
    space.ref_to_id.push((RefKey::Def("Name".to_string()), opt));
    space.ref_to_id.push((RefKey::Def("Missing".to_string()), TypeId(77)));
    space.ref_to_id.push((RefKey::Def("Count".to_string()), int));
    assert_eq!(
        space.definition_rust_names(),
        vec![
            ("Count".to_string(), "i32".to_string()),
            ("Name".to_string(), "::std::option::Option<::std::string::String>".to_string()),
        ]
    );
    // The table keeps the last type given to a key.
    space.ref_to_id.push((RefKey::Def("Count".to_string()), string));
    space.ref_to_id.push((RefKey::Def("Name".to_string()), TypeId(78)));
    space.ref_to_id.push((RefKey::Def("Missing".to_string()), int));
    assert_eq!(
        space.definition_rust_names(),
        vec![
            ("Count".to_string(), "::std::string::String".to_string()),
            ("Missing".to_string(), "i32".to_string()),
        ]
    );

    let ty = space.get_type(opt).unwrap();
    assert_eq!(ty.parameter_ident(), "Option<&str>");
    assert_eq!(ty.parameter_ident_with_lifetime("a"), "Option<&'a str>");
    let ty = space.get_type(int).unwrap();
    assert_eq!(ty.parameter_ident(), "i32");
}

#[test]
fn untagged_newtype_checks() {
    let mut space = TypeSpace::default();
    let int = space.assign_type(TypeEntry::new_integer("u64"));
    let string = space.assign_type(TypeEntry::from_details(TypeEntryDetails::String));
    let vs = vec![variant("A", VariantDetails::Item(int))];
    assert!(untagged_newtype_variants(&space, true, &vs, TypeSpaceImpl::FromStr, None));
    assert!(!untagged_newtype_variants(&space, false, &vs, TypeSpaceImpl::FromStr, None));
    assert!(!untagged_newtype_variants(&space, true, &vs, TypeSpaceImpl::FromStringIrrefutable, None));
    let vs = vec![variant("A", VariantDetails::Item(int)), variant("B", VariantDetails::Item(string))];
    assert!(!untagged_newtype_variants(
        &space,
        true,
        &vs,
        TypeSpaceImpl::FromStr,
        Some(TypeSpaceImpl::FromStringIrrefutable)
    ));
    assert!(untagged_newtype_string(&space, true, &vs));
    assert!(!untagged_newtype_string(&space, false, &vs));
    let vs = vec![variant("A", VariantDetails::Simple)];
    assert!(!untagged_newtype_variants(&space, true, &vs, TypeSpaceImpl::Display, None));
}

#[test]
fn locations_and_errors() {
    let root = Location::root();
    assert_eq!(root.to_display_string(), "#");
    let loc = root.child("components").child("a/b~c").index(3);
    assert_eq!(loc.to_display_string(), "#/components/a~1b~0c/3");
    match invalid_openapi(&loc, "bad".to_string()) {
        Error::InvalidOpenApi { location, reason } => {
            assert_eq!(location, "#/components/a~1b~0c/3");
            assert_eq!(reason, "bad");
        }
        other => panic!("unexpected {:?}", other),
    }
}

#[test]
fn keyword_kinds_by_dialect() {
    let n30 = Normalizer { dialect: SchemaDialect::OpenApi30, schema_names: vec![] };
    let n31 = Normalizer { dialect: SchemaDialect::JsonSchema202012, schema_names: vec![] };
    let arr = j("[{}]");
    let obj = j("{}");
    assert_eq!(n30.keyword_kind("$ref", &obj), KeywordKind::Ref);
    assert_eq!(n30.keyword_kind("properties", &obj), KeywordKind::SchemaMap);
    assert_eq!(n30.keyword_kind("oneOf", &arr), KeywordKind::SchemaArray);
    assert_eq!(n30.keyword_kind("not", &obj), KeywordKind::Schema);
    assert_eq!(n30.keyword_kind("additionalProperties", &JsonValue::Bool(true)), KeywordKind::Other);
    assert_eq!(n30.keyword_kind("additionalProperties", &obj), KeywordKind::Schema);
    assert_eq!(n30.keyword_kind("items", &arr), KeywordKind::Schema);
    assert_eq!(n31.keyword_kind("items", &arr), KeywordKind::SchemaArray);
    assert_eq!(n30.keyword_kind("prefixItems", &arr), KeywordKind::Other);
    assert_eq!(n31.keyword_kind("prefixItems", &arr), KeywordKind::SchemaArray);
    assert_eq!(n31.keyword_kind("patternProperties", &obj), KeywordKind::SchemaMap);
    assert_eq!(n30.keyword_kind("$defs", &obj), KeywordKind::Unsupported);
    assert_eq!(n30.keyword_kind("title", &obj), KeywordKind::Other);
}

#[test]
fn reference_checks() {
    let n = Normalizer {
        dialect: SchemaDialect::OpenApi30,
        schema_names: vec!["Pet".to_string(), "a/b".to_string()],
    };
    let at = Location::root().child("$ref");
    assert!(n.check_ref(&j("\"#/components/schemas/Pet\""), &at).is_ok());
    assert!(n.check_ref(&j("\"#/components/schemas/a~1b\""), &at).is_ok());
    assert!(matches!(
        n.check_ref(&j("\"#/definitions/Pet\""), &at),
        Err(Error::InvalidOpenApi { location, .. }) if location == "#/$ref"
    ));
    assert!(n.check_ref(&j("\"#/components/schemas/Pet/properties/x\""), &at).is_err());
    assert!(n.check_ref(&j("\"#/components/schemas/Dog\""), &at).is_err());
    assert!(n.check_ref(&j("3"), &at).is_err());
}

#[test]
fn unsupported_keyword_reasons() {
    assert_eq!(
        unsupported_keyword_reason("$defs"),
        "`$defs` nested within a component schema is not supported; move shared schemas to components.schemas"
    );
    assert_eq!(
        unsupported_keyword_reason("$id"),
        "`$id` is not supported; references must be of the form \"#/components/schemas/<name>\""
    );
}

#[test]
fn schema_node_rewrites() {
    let mut m = entries(r#"{"minimum": 1, "exclusiveMinimum": true}"#);
    exclusive_bound(&mut m, "minimum", "exclusiveMinimum");
    assert_json_eq(&JsonValue::Object(m), r#"{"exclusiveMinimum": 1}"#);
    let mut m = entries(r#"{"maximum": 1, "exclusiveMaximum": false}"#);
    exclusive_bound(&mut m, "maximum", "exclusiveMaximum");
    assert_json_eq(&JsonValue::Object(m), r#"{"maximum": 1}"#);

    let mut m = entries(r#"{"example": 3}"#);
    example_to_examples(&mut m);
    assert_json_eq(&JsonValue::Object(m), r#"{"examples": [3]}"#);
    let mut m = entries(r#"{"example": 3, "examples": [4]}"#);
    example_to_examples(&mut m);
    assert_json_eq(&JsonValue::Object(m), r#"{"examples": [4]}"#);

    assert_json_eq(&make_nullable(entries(r#"{"type": "string"}"#)), r#"{"type": ["string", "null"]}"#);
    assert_json_eq(
        &make_nullable(entries(r##"{"$ref": "#/components/schemas/Pet"}"##)),
        r##"{"anyOf": [{"$ref": "#/components/schemas/Pet"}, {"type": "null"}]}"##,
    );
    assert_json_eq(&make_nullable(entries("{}")), "{}");

    let r = finish_openapi_3_0(entries(r#"{"type": "integer", "nullable": true}"#), &Location::root());
    assert_json_eq(&r.unwrap(), r#"{"type": ["integer", "null"]}"#);
    let r = finish_openapi_3_0(entries(r#"{"nullable": "yes"}"#), &Location::root());
    assert!(matches!(r, Err(Error::InvalidOpenApi { .. })));

    assert_json_eq(
        &finish_2020_12(entries(r#"{"prefixItems": [{"type": "string"}], "items": false}"#)),
        r#"{"items": [{"type": "string"}], "additionalItems": false}"#,
    );
}

#[test]
fn dialects_of_documents() {
    let root = Location::root();
    let doc = entries(r#"{"openapi": "3.1.0"}"#);
    assert_eq!(document_dialect(&doc, OpenApiVersion::V3_1, &root).unwrap(), SchemaDialect::JsonSchema202012);
    assert_eq!(document_dialect(&doc, OpenApiVersion::V3_0, &root).unwrap(), SchemaDialect::OpenApi30);
    let doc = entries(r#"{"jsonSchemaDialect": "https://example.com/dialect"}"#);
    assert!(matches!(
        document_dialect(&doc, OpenApiVersion::V3_2, &root),
        Err(Error::InvalidOpenApi { location, .. }) if location == "#/jsonSchemaDialect"
    ));
    let doc = entries(r#"{"jsonSchemaDialect": 7}"#);
    assert!(document_dialect(&doc, OpenApiVersion::V3_1, &root).is_err());
}

#[test]
fn converted_entries_take_the_metadata_default() {
    let pet = |default: Option<JsonValue>| {
        TypeEntry::from_details(TypeEntryDetails::Struct(TypeEntryStruct {
            name: "Pet".to_string(),
            rename: None,
            description: None,
            default,
            properties: vec![],
            deny_unknown_fields: false,
            schema: JsonValue::Bool(true),
        }))
    };
    let default_of = |space: &TypeSpace, id: TypeId| match space.get_entry(id).map(|e| &e.details) {
        Some(TypeEntryDetails::Struct(s)) => s.default.clone(),
        _ => panic!("expected a struct"),
    };

    let mut space = TypeSpace::default();
    let id = space.assign_converted(pet(None), Some(Some(j("{\"name\": \"Rex\"}"))));
    assert!(matches!(default_of(&space, id), Some(JsonValue::Object(_))));

    let mut space = TypeSpace::default();
    let id = space.assign_converted(pet(Some(JsonValue::Null)), Some(None));
    assert!(default_of(&space, id).is_none());

    let mut space = TypeSpace::default();
    let id = space.assign_converted(pet(Some(JsonValue::Null)), None);
    assert!(matches!(default_of(&space, id), Some(JsonValue::Null)));

    let int = space.assign_converted(TypeEntry::new_integer("u8"), Some(Some(JsonValue::Null)));
    assert!(matches!(space.get_entry(int).map(|e| &e.details), Some(TypeEntryDetails::Integer(n)) if n == "u8"));
}
