use typify::emit::{
    convenience_from_variants, doc_lines, enum_plan, enum_serde_options, newtype_plan, struct_plan,
    struct_serde_options, unconditional_default, DefaultPlan, SerdeOption,
};
use typify::json::JsonValue;
use typify::settings::{SerdeFieldCase, TypeSpaceSettings};
use typify::space::TypeSpace;
use typify::type_entry::{
    EnumTagType, TypeEntry, TypeEntryDetails, TypeEntryEnum, TypeEntryEnumImpl, TypeEntryNewtype,
    TypeEntryNewtypeConstraints, TypeEntryStruct, Variant, VariantDetails,
};
use typify::{TypeId, TypeKind, TypeKindFilter, TypeSpaceImpl};

fn strings(xs: &[&str]) -> Vec<String> {
    xs.iter().map(|x| x.to_string()).collect()
}

fn variant(name: &str, details: VariantDetails) -> Variant {
    let mut v = Variant::new(name.to_string(), None, details);
    v.ident_name = Some(name.to_string());
    v
}

fn enum_details(tag_type: EnumTagType, variants: Vec<Variant>) -> TypeEntryEnum {
    TypeEntryEnum {
        name: "Shape".to_string(),
        rename: None,
        description: None,
        default: None,
        tag_type,
        variants,
        deny_unknown_fields: false,
        bespoke_impls: vec![],
        schema: JsonValue::Bool(true),
    }
}

fn struct_details(default: Option<JsonValue>) -> TypeEntryStruct {
    TypeEntryStruct {
        name: "Pet".to_string(),
        rename: None,
        description: None,
        default,
        properties: vec![],
        deny_unknown_fields: false,
        schema: JsonValue::Bool(true),
    }
}

fn newtype_details(inner: TypeId, constraints: TypeEntryNewtypeConstraints) -> TypeEntryNewtype {
    TypeEntryNewtype {
        name: "Id".to_string(),
        rename: None,
        description: None,
        default: None,
        type_id: inner,
        constraints,
        schema: JsonValue::Bool(true),
    }
}

fn option_text(o: &SerdeOption) -> String {
    match o {
        SerdeOption::Rename(s) => format!("rename = {s}"),
        SerdeOption::RenameAll(s) => format!("rename_all = {s}"),
        SerdeOption::Tag(s) => format!("tag = {s}"),
        SerdeOption::Content(s) => format!("content = {s}"),
        SerdeOption::Untagged => "untagged".to_string(),
        SerdeOption::DenyUnknownFields => "deny_unknown_fields".to_string(),
    }
}

fn options(v: &[SerdeOption]) -> Vec<String> {
    v.iter().map(option_text).collect()
}

#[test]
fn enum_serde_options_follow_tagging() {
    let mut e = enum_details(
        EnumTagType::Adjacent { tag: "kind".to_string(), content: "value".to_string() },
        vec![],
    );
    e.rename = Some("shape".to_string());
    e.deny_unknown_fields = true;
    assert_eq!(
        options(&enum_serde_options(&e)),
        strings(&["rename = shape", "tag = kind", "content = value", "deny_unknown_fields"])
    );
    let e = enum_details(EnumTagType::Internal { tag: "type".to_string() }, vec![]);
    assert_eq!(options(&enum_serde_options(&e)), strings(&["tag = type"]));
    let e = enum_details(EnumTagType::Untagged, vec![]);
    assert_eq!(options(&enum_serde_options(&e)), strings(&["untagged"]));
    let e = enum_details(EnumTagType::External, vec![]);
    assert!(enum_serde_options(&e).is_empty());
}

#[test]
fn struct_rename_all_yields_to_field_case() {
    let mut s = struct_details(None);
    s.deny_unknown_fields = true;
    let mut settings = TypeSpaceSettings::default();
    settings.with_struct_rename_all("camelCase");
    assert_eq!(
        options(&struct_serde_options(&settings, &s)),
        strings(&["rename_all = camelCase", "deny_unknown_fields"])
    );
    settings.with_serde_field_case(SerdeFieldCase::Snake);
    assert_eq!(options(&struct_serde_options(&settings, &s)), strings(&["deny_unknown_fields"]));
}

#[test]
fn enum_defaults() {
    let mut space = TypeSpace::default();
    let int = space.assign_type(TypeEntry::new_integer("u8"));
    let variants = vec![
        variant("Big", VariantDetails::Item(int)),
        variant("Red", VariantDetails::Simple),
        variant("Blue", VariantDetails::Simple),
    ];
    let e = enum_details(EnumTagType::External, variants);
    let plan = enum_plan(&space, &vec![], &e);
    assert!(matches!(plan.default, DefaultPlan::NoImpl));

    let mut settings = TypeSpaceSettings::default();
    settings.with_enum_first_variant_default(true);
    let mut space = TypeSpace::new(settings);
    let int = space.assign_type(TypeEntry::new_integer("u8"));
    let mut e = enum_details(
        EnumTagType::External,
        vec![
            variant("Big", VariantDetails::Item(int)),
            variant("Red", VariantDetails::Simple),
            variant("Blue", VariantDetails::Simple),
        ],
    );
    let plan = enum_plan(&space, &vec![], &e);
    assert!(matches!(&plan.default, DefaultPlan::Variant(n) if n == "Red"));
    e.default = Some(JsonValue::String("Blue".to_string()));
    let plan = enum_plan(&space, &vec![], &e);
    assert!(matches!(plan.default, DefaultPlan::SchemaValue));
}

#[test]
fn struct_defaults() {
    let settings = TypeSpaceSettings::default();
    let plan = struct_plan(&settings, &vec![], &struct_details(None), &vec![true, true]);
    assert!(matches!(plan.default, DefaultPlan::FieldDefaults));
    let plan = struct_plan(&settings, &vec![], &struct_details(None), &vec![true, false]);
    assert!(matches!(plan.default, DefaultPlan::NoImpl));
    let plan = struct_plan(&settings, &vec![], &struct_details(Some(JsonValue::Null)), &vec![false]);
    assert!(matches!(plan.default, DefaultPlan::SchemaValue));
    assert!(!plan.builder);

    let mut settings = TypeSpaceSettings::default();
    settings.with_unconditional_derive_for("Default", TypeKindFilter::structs_only());
    assert!(unconditional_default(&settings, TypeKind::Struct));
    assert!(!unconditional_default(&settings, TypeKind::Newtype));
    let plan = struct_plan(&settings, &vec![], &struct_details(Some(JsonValue::Null)), &vec![true]);
    assert!(matches!(plan.default, DefaultPlan::NoImpl));
    assert_eq!(plan.derives, strings(&["Default"]));
}

#[test]
fn struct_derives_and_patch_mirror() {
    let mut settings = TypeSpaceSettings::default();
    settings.with_struct_builder(true);
    let plan = struct_plan(&settings, &strings(&["Eq"]), &struct_details(None), &vec![]);
    assert_eq!(
        plan.derives,
        strings(&["::serde::Deserialize", "::serde::Serialize", "Clone", "Debug", "Eq"])
    );
    assert!(!plan.patch_mirror);
    assert!(plan.builder);
    let plan = struct_plan(&settings, &strings(&["struct_patch :: Patch "]), &struct_details(None), &vec![]);
    assert!(plan.patch_mirror);
    let plan = struct_plan(&settings, &strings(&["my::Patcher"]), &struct_details(None), &vec![]);
    assert!(!plan.patch_mirror);
}

#[test]
fn unit_enums_derive_copy_and_ordering() {
    let space = TypeSpace::default();
    let mut e = enum_details(
        EnumTagType::External,
        vec![variant("Red", VariantDetails::Simple), variant("Blue", VariantDetails::Simple)],
    );
    e.finalize(&space);
    let plan = enum_plan(&space, &vec![], &e);
    assert_eq!(
        plan.derives,
        strings(&[
            "::serde::Deserialize",
            "::serde::Serialize",
            "Clone",
            "Copy",
            "Debug",
            "Eq",
            "Hash",
            "Ord",
            "PartialEq",
            "PartialOrd",
        ])
    );
    assert!(plan.simple_impls);
    assert!(!plan.untagged_from_str && !plan.untagged_display);
    assert!(plan.from_variants.is_empty());
}

#[test]
fn from_impls_for_unique_wrapped_types() {
    let mut space = TypeSpace::default();
    let int = space.assign_type(TypeEntry::new_integer("u32"));
    let string = space.assign_type(TypeEntry::from_details(TypeEntryDetails::String));
    let boolean = space.assign_type(TypeEntry::new_boolean());
    let native = space.assign_type(TypeEntry::new_native("::std::string::String", &[TypeSpaceImpl::Display]));
    let variants = vec![
        variant("A", VariantDetails::Item(int)),
        variant("B", VariantDetails::Item(string)),
        variant("C", VariantDetails::Tuple(vec![int, boolean])),
        variant("D", VariantDetails::Simple),
        variant("E", VariantDetails::Tuple(vec![boolean])),
        variant("F", VariantDetails::Item(boolean)),
        variant("G", VariantDetails::Item(native)),
    ];
    assert_eq!(convenience_from_variants(&space, &variants), vec![0, 2]);
    let variants = vec![
        variant("A", VariantDetails::Item(int)),
        variant("B", VariantDetails::Item(int)),
        variant("C", VariantDetails::Tuple(vec![int, int])),
    ];
    assert_eq!(convenience_from_variants(&space, &variants), vec![2]);
}

#[test]
fn newtype_plans() {
    let mut space = TypeSpace::default();
    let string = space.assign_type(TypeEntry::from_details(TypeEntryDetails::String));
    let int = space.assign_type(TypeEntry::new_integer("u32"));
    let native = space.assign_type(TypeEntry::new_native(
        "::std::string::String",
        &[TypeSpaceImpl::FromStr, TypeSpaceImpl::Display],
    ));

    let plan = newtype_plan(&space, &vec![], &newtype_details(string, TypeEntryNewtypeConstraints::Unconstrained));
    assert_eq!(
        plan.derives,
        strings(&[
            "::serde::Deserialize",
            "::serde::Serialize",
            "Clone",
            "Debug",
            "Eq",
            "Hash",
            "Ord",
            "PartialEq",
            "PartialOrd",
        ])
    );
    assert_eq!(plan.inner_ident, "::std::string::String");
    assert!(plan.public_inner && plan.string_from_str && plan.proxy_display);
    assert!(!plan.proxy_from_str && !plan.try_from_string && !plan.validating && !plan.json_schema);
    assert!(matches!(plan.default, DefaultPlan::NoImpl));

    let plan = newtype_plan(&space, &vec![], &newtype_details(int, TypeEntryNewtypeConstraints::Unconstrained));
    assert!(plan.proxy_from_str && plan.try_from_string && plan.proxy_display);
    assert!(!plan.string_from_str);

    let plan = newtype_plan(&space, &vec![], &newtype_details(native, TypeEntryNewtypeConstraints::Unconstrained));
    assert!(plan.proxy_from_str);
    assert!(!plan.try_from_string);

    let mut settings = TypeSpaceSettings::default();
    settings.with_derive("schemars::JsonSchema".to_string());
    let mut space = TypeSpace::new(settings);
    let int = space.assign_type(TypeEntry::new_integer("u32"));
    let mut n = newtype_details(int, TypeEntryNewtypeConstraints::EnumValue(vec![JsonValue::Null]));
    n.default = Some(JsonValue::Null);
    let plan = newtype_plan(&space, &vec![], &n);
    assert_eq!(plan.derives, strings(&["::serde::Serialize", "Clone", "Debug"]));
    assert!(plan.json_schema && plan.validating && !plan.public_inner);
    assert!(!plan.proxy_from_str && !plan.proxy_display);
    assert!(matches!(plan.default, DefaultPlan::SchemaValue));

    let n = newtype_details(
        int,
        TypeEntryNewtypeConstraints::String { max_length: Some(3), min_length: None, pattern: None },
    );
    let plan = newtype_plan(&space, &strings(&["Deserialize"]), &n);
    assert_eq!(
        plan.derives,
        strings(&["::serde::Serialize", "Clone", "Debug", "schemars::JsonSchema"])
    );
    assert!(!plan.json_schema && plan.validating);
}

#[test]
fn untagged_enum_plans_follow_cached_facts() {
    let mut space = TypeSpace::default();
    let int = space.assign_type(TypeEntry::new_integer("u64"));
    let mut e = enum_details(EnumTagType::Untagged, vec![variant("A", VariantDetails::Item(int))]);
    e.finalize(&space);
    assert_eq!(e.bespoke_impls, vec![TypeEntryEnumImpl::UntaggedFromStr, TypeEntryEnumImpl::UntaggedDisplay]);
    let plan = enum_plan(&space, &vec![], &e);
    assert!(plan.untagged_from_str && plan.untagged_display && !plan.simple_impls);
    assert_eq!(options(&plan.serde), strings(&["untagged"]));
    assert_eq!(plan.from_variants, vec![0]);
    assert_eq!(plan.derives, strings(&["::serde::Deserialize", "::serde::Serialize", "Clone", "Debug"]));
}

#[test]
fn doc_strings_with_and_without_schema() {
    assert_eq!(doc_lines(false, "Pet", None, &strings(&["{}"])), strings(&["`Pet`"]));
    let d = "A pet.".to_string();
    assert_eq!(
        doc_lines(true, "Pet", Some(&d), &strings(&["{", "  \"type\": \"string\"", "}"])),
        strings(&[
            "A pet.",
            "",
            " <details><summary>JSON schema</summary>",
            "",
            " ```json",
            "{",
            "  \"type\": \"string\"",
            "}",
            " ```",
            " </details>",
        ])
    );
}

/// The doc strings of the `Widget` type of a schema with a description.
fn widget_docs(space: &TypeSpace) -> String {
    let d = "A widget that does widget things.".to_string();
    doc_lines(
        space.include_schema_in_docs(),
        "Widget",
        Some(&d),
        &strings(&["{", "  \"type\": \"object\"", "}"]),
    )
    .join("\n")
}

#[test]
fn default_docs_embed_the_schema_block() {
    let out = widget_docs(&TypeSpace::new(TypeSpaceSettings::default()));
    assert!(out.contains("A widget that does widget things."));
    assert!(out.contains("<details><summary>JSON schema</summary>"));
    assert!(out.contains("```json"));
}

#[test]
fn docs_without_schema_keep_the_description_only() {
    let mut settings = TypeSpaceSettings::default();
    settings.with_schema_in_docs(false);
    let out = widget_docs(&TypeSpace::new(settings));
    assert_eq!(out, "A widget that does widget things.");
    assert!(!out.contains("<details>") && !out.contains("<summary>") && !out.contains("```json"));

    let mut settings = TypeSpaceSettings::default();
    settings.with_schema_in_docs(false);
    settings.with_schema_in_docs(true);
    assert_eq!(
        widget_docs(&TypeSpace::new(settings)),
        widget_docs(&TypeSpace::new(TypeSpaceSettings::default()))
    );
}

fn colors(names: &[&str]) -> TypeEntryEnum {
    enum_details(
        EnumTagType::External,
        names.iter().map(|n| variant(n, VariantDetails::Simple)).collect(),
    )
}

#[test]
fn open_string_enums_drop_copy() {
    let mut settings = TypeSpaceSettings::default();
    settings.with_open_enum_variant("Other");
    let space = TypeSpace::new(settings);
    let mut e = colors(&["Red", "Blue"]);
    e.finalize(&space);
    let plan = enum_plan(&space, &vec![], &e);
    assert_eq!(plan.open_variant, Some("Other".to_string()));
    assert_eq!(
        plan.derives,
        strings(&[
            "::serde::Deserialize",
            "::serde::Serialize",
            "Clone",
            "Debug",
            "Eq",
            "Hash",
            "Ord",
            "PartialEq",
            "PartialOrd",
        ])
    );

    let mut declared = colors(&["Red", "Other"]);
    declared.finalize(&space);
    let plan = enum_plan(&space, &vec![], &declared);
    assert_eq!(plan.open_variant, None);
    assert!(plan.derives.contains(&"Copy".to_string()));

    let mut internal = colors(&["Red"]);
    internal.tag_type = EnumTagType::Internal { tag: "t".to_string() };
    internal.finalize(&space);
    assert_eq!(enum_plan(&space, &vec![], &internal).open_variant, None);

    let mut closed = colors(&["Red", "Blue"]);
    let plain = TypeSpace::default();
    closed.finalize(&plain);
    assert_eq!(enum_plan(&plain, &vec![], &closed).open_variant, None);
}

#[test]
fn string_newtype_convenience_impls() {
    let mut space = TypeSpace::default();
    let string = space.assign_type(TypeEntry::from_details(TypeEntryDetails::String));
    let plain = newtype_details(string, TypeEntryNewtypeConstraints::Unconstrained);
    let code = newtype_details(
        string,
        TypeEntryNewtypeConstraints::String { max_length: None, min_length: None, pattern: Some("^[a-z]+$".to_string()) },
    );
    let p = newtype_plan(&space, &vec![], &plain);
    assert!(!p.str_conveniences && !p.from_str_ref && p.proxy_display);
    let c = newtype_plan(&space, &vec![], &code);
    assert!(!c.str_conveniences && !c.from_str_ref && !c.proxy_display);

    let mut settings = TypeSpaceSettings::default();
    settings.with_string_newtype_conveniences(true);
    let mut space = TypeSpace::new(settings);
    let string = space.assign_type(TypeEntry::from_details(TypeEntryDetails::String));
    let plain = newtype_details(string, TypeEntryNewtypeConstraints::Unconstrained);
    let code = newtype_details(
        string,
        TypeEntryNewtypeConstraints::String { max_length: None, min_length: None, pattern: Some("^[a-z]+$".to_string()) },
    );
    let p = newtype_plan(&space, &vec![], &plain);
    assert!(p.str_conveniences && p.from_str_ref && !p.proxy_display);
    let c = newtype_plan(&space, &vec![], &code);
    assert!(c.str_conveniences && !c.from_str_ref && !c.proxy_display && c.validating);
}
