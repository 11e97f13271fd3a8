use proc_macro2::TokenStream;
use typify::enum_impls::{enum_item, error_mod};
use typify::json::JsonValue;
use typify::partition::partitioned_output;
use typify::space::TypeSpace;
use typify::struct_output::{struct_item, FieldDefault};
use typify::type_entry::{
    EnumTagType, StructProperty, StructPropertyRename, StructPropertyState, TypeEntry,
    TypeEntryDetails, TypeEntryEnum, TypeEntryStruct, Variant, VariantDetails,
};
use typify::TypeId;

fn property(name: &str, type_id: TypeId) -> StructProperty {
    StructProperty {
        name: name.to_string(),
        wire_name: name.to_string(),
        api_name: name.to_string(),
        rename: StructPropertyRename::Unchanged,
        state: StructPropertyState::Optional,
        description: None,
        type_id,
    }
}

fn object(name: &str, field: &str, type_id: TypeId) -> TypeEntryStruct {
    TypeEntryStruct {
        name: name.to_string(),
        rename: None,
        description: None,
        default: None,
        properties: vec![property(field, type_id)],
        deny_unknown_fields: false,
        schema: JsonValue::Bool(true),
    }
}

fn color() -> TypeEntryEnum {
    let variant = |raw: &str, ident: &str| {
        let mut v = Variant::new(raw.to_string(), None, VariantDetails::Simple);
        v.ident_name = Some(ident.to_string());
        v
    };
    TypeEntryEnum {
        name: "Color".to_string(),
        rename: None,
        description: None,
        default: None,
        tag_type: EnumTagType::External,
        variants: vec![variant("red", "Red"), variant("green", "Green")],
        deny_unknown_fields: false,
        bespoke_impls: vec![],
        schema: JsonValue::Bool(true),
    }
}

/// Three named types: two structs (one referring to the other) and a
/// simple enum, each with the text of its item.
fn sample() -> (TypeSpace, Vec<(TypeId, String)>) {
    let mut space = TypeSpace::default();
    let string = space.assign_type(TypeEntry::from_details(TypeEntryDetails::String));
    let alpha = space.assign_type(TypeEntry::from_details(TypeEntryDetails::Struct(object("Alpha", "name", string))));
    let beta = space.assign_type(TypeEntry::from_details(TypeEntryDetails::Struct(object("Beta", "alpha", alpha))));
    let mut e = color();
    e.finalize(&space);
    let color_id = space.assign_type(TypeEntry::from_details(TypeEntryDetails::Enum(color())));
    let field = vec![String::new()];
    let none = vec![FieldDefault::NoDefault];
    let items = vec![
        (alpha, struct_item(&space, &vec![], &vec![], &object("Alpha", "name", string), &vec![], &field, &none, "")),
        (beta, struct_item(&space, &vec![], &vec![], &object("Beta", "alpha", alpha), &vec![], &field, &none, "")),
        (color_id, enum_item(&space, &vec![], &vec![], &e, &vec![], "Red, Green,", "")),
    ];
    (space, items)
}

fn generate_partitioned(partition: &[(&str, &str)], default_module: &str, imports: &[(&str, &str)]) -> String {
    let (space, items) = sample();
    let partition: Vec<(String, String)> =
        partition.iter().map(|(ty, module)| (ty.to_string(), module.to_string())).collect();
    let imports: Vec<(String, String)> =
        imports.iter().map(|(module, preamble)| (module.to_string(), preamble.to_string())).collect();
    let text = partitioned_output(&space, &partition, default_module, &imports, &error_mod(), "", &items);
    text.parse::<TokenStream>().unwrap().to_string()
}

fn nws(s: &str) -> String {
    s.split_whitespace().collect::<Vec<_>>().join(" ")
}

fn assert_contains(haystack: &str, needle: &str) {
    let hay = nws(haystack);
    let nee = nws(needle);
    assert!(hay.contains(&nee), "expected to find:\n  {nee}\nin generated output:\n  {hay}");
}

fn assert_not_contains(haystack: &str, needle: &str) {
    let hay = nws(haystack);
    let nee = nws(needle);
    assert!(!hay.contains(&nee), "expected NOT to find:\n  {nee}\nbut it appears in:\n  {hay}");
}

fn pos(haystack: &str, needle: &str) -> usize {
    let hay = nws(haystack);
    let nee = nws(needle);
    hay.find(&nee)
        .unwrap_or_else(|| panic!("expected to find:\n  {nee}\nin generated output:\n  {hay}"))
}

fn count(haystack: &str, needle: &str) -> usize {
    nws(haystack).matches(&nws(needle)).count()
}

#[test]
fn nested_paths_emit_nested_modules() {
    let out = generate_partitioned(&[("Alpha", "ops/alpha"), ("Color", "shared/enums")], "shared/common", &[]);

    assert_contains(&out, "pub mod ops { pub mod alpha {");
    assert_eq!(count(&out, "pub mod shared {"), 1);
    assert_contains(&out, "pub mod common {");
    assert_contains(&out, "pub mod enums {");

    assert!(pos(&out, "pub mod ops") < pos(&out, "pub struct Alpha"));
    assert!(pos(&out, "pub struct Alpha") < pos(&out, "pub mod shared"));
    assert!(pos(&out, "pub mod common") < pos(&out, "pub struct Beta"));
    assert!(pos(&out, "pub struct Beta") < pos(&out, "pub mod enums"));
    assert!(pos(&out, "pub mod enums") < pos(&out, "pub enum Color"));

    assert_eq!(count(&out, "pub mod error {"), 3);
}

#[test]
fn flat_and_nested_paths_mix() {
    let out = generate_partitioned(&[("Alpha", "alpha"), ("Beta", "cancel/request")], "shared/common", &[]);

    assert_contains(&out, "pub mod alpha {");
    assert_contains(&out, "pub mod cancel { pub mod request {");
    assert_contains(&out, "pub mod shared { pub mod common {");

    assert!(pos(&out, "pub mod alpha") < pos(&out, "pub struct Alpha"));
    assert!(pos(&out, "pub struct Alpha") < pos(&out, "pub mod cancel"));
    assert!(pos(&out, "pub mod cancel") < pos(&out, "pub struct Beta"));
    assert!(pos(&out, "pub struct Beta") < pos(&out, "pub mod shared"));
    assert!(pos(&out, "pub mod shared") < pos(&out, "pub enum Color"));

    assert_eq!(count(&out, "pub mod error {"), 3);
}

#[test]
fn imports_attach_to_leaf_and_parent_paths() {
    let out = generate_partitioned(
        &[("Alpha", "ops/alpha")],
        "shared",
        &[("ops/alpha", "use super::super::shared::*;"), ("ops", "use ::serde::Serialize;")],
    );

    assert_contains(
        &out,
        "pub mod ops { use :: serde :: Serialize ; pub mod alpha { use super :: super :: shared ::*;",
    );

    assert_eq!(count(&out, "pub mod error {"), 2);
}

#[test]
fn imports_materialize_empty_nested_modules() {
    let out = generate_partitioned(&[], "shared/common", &[("shared/enums", "use ::serde::Serialize;")]);

    assert_contains(&out, "pub mod shared { pub mod common {");
    assert_contains(&out, "pub mod enums { use :: serde :: Serialize ;");
    assert_eq!(count(&out, "pub mod shared {"), 1);
}

#[test]
fn flat_partition_shape_unchanged() {
    let out = generate_partitioned(&[("Alpha", "alpha_mod")], "shared", &[("alpha_mod", "use super::shared::*;")]);

    assert_contains(&out, "pub mod alpha_mod { use super :: shared ::*;");
    assert_contains(&out, "pub mod shared {");
    assert_not_contains(&out, "pub mod ops");
    assert!(pos(&out, "pub mod alpha_mod") < pos(&out, "pub struct Alpha"));
    assert!(pos(&out, "pub struct Alpha") < pos(&out, "pub mod shared"));
    assert_eq!(count(&out, "pub mod error {"), 2);
}
