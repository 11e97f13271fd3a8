use typify::emit::SerdeOption;
use typify::enum_impls::{enum_impls, enum_item, error_mod, serde_attr};
use typify::json::JsonValue;
use typify::output::newtype_item;
use typify::partition::{module_tree, partitioned_output, tree_output, ModuleNode};
use typify::settings::TypeSpaceSettings;
use typify::space::TypeSpace;
use typify::struct_output::{builder_item, struct_item, FieldDefault};
use typify::type_entry::{
    name_variants, x_elided, EnumTagType, StructProperty, StructPropertyRename, StructPropertyState, TypeEntry,
    TypeEntryDetails, TypeEntryEnum, TypeEntryNewtype, TypeEntryNewtypeConstraints,
    TypeEntryStruct, Variant, VariantDetails,
};
use typify::TypeId;

fn strings(xs: &[&str]) -> Vec<String> {
    xs.iter().map(|x| x.to_string()).collect()
}

fn parses(text: &str) -> bool {
    syn::parse_file(text).is_ok()
}

fn newtype(inner: TypeId, constraints: TypeEntryNewtypeConstraints) -> TypeEntryNewtype {
    TypeEntryNewtype {
        name: "Id".to_string(),
        rename: None,
        description: None,
        default: None,
        type_id: inner,
        constraints,
        schema: JsonValue::Bool(true),
    }
}

fn variant(raw: &str, ident: &str, details: VariantDetails) -> Variant {
    let mut v = Variant::new(raw.to_string(), None, details);
    v.ident_name = Some(ident.to_string());
    v
}

fn shape(tag_type: EnumTagType, variants: Vec<Variant>) -> TypeEntryEnum {
    TypeEntryEnum {
        name: "Shape".to_string(),
        rename: None,
        description: None,
        default: None,
        tag_type,
        variants,
        deny_unknown_fields: false,
        bespoke_impls: vec![],
        schema: JsonValue::Bool(true),
    }
}

fn property(name: &str, type_id: TypeId) -> StructProperty {
    StructProperty {
        name: name.to_string(),
        wire_name: name.to_string(),
        api_name: name.to_string(),
        rename: StructPropertyRename::Unchanged,
        state: StructPropertyState::Required,
        description: None,
        type_id,
    }
}

fn pet(properties: Vec<StructProperty>) -> TypeEntryStruct {
    TypeEntryStruct {
        name: "Pet".to_string(),
        rename: None,
        description: None,
        default: None,
        properties,
        deny_unknown_fields: false,
        schema: JsonValue::Bool(true),
    }
}

fn struct_entry(name: &str) -> TypeEntry {
    let mut s = pet(vec![]);
    s.name = name.to_string();
    TypeEntry::from_details(TypeEntryDetails::Struct(s))
}

#[test]
fn string_newtype_refuses_longer_values() {
    let mut space = TypeSpace::default();
    let string = space.assign_type(TypeEntry::from_details(TypeEntryDetails::String));
    let n = newtype(
        string,
        TypeEntryNewtypeConstraints::String { max_length: Some(3), min_length: None, pattern: None },
    );
    let item = newtype_item(&space, &vec![], &vec![], &n, &strings(&["An id."]), "", &vec![], &vec![]);
    assert!(item.starts_with("#[doc = \"An id.\"]"));
    assert!(item.contains("#[serde(transparent)]pub struct Id(::std::string::String);"));
    assert!(item.contains(
        "if value.chars().count() > 3usize { return Err(\"longer than 3 characters\".into()); }"
    ));
    assert!(!item.contains("shorter than"));
    assert!(item.contains("impl ::std::convert::TryFrom<&str> for Id"));
    assert!(parses(&item));
}

#[test]
fn string_newtype_checks_minimum_and_pattern() {
    let mut space = TypeSpace::default();
    let string = space.assign_type(TypeEntry::from_details(TypeEntryDetails::String));
    let n = newtype(
        string,
        TypeEntryNewtypeConstraints::String {
            max_length: None,
            min_length: Some(2),
            pattern: Some("^a+$".to_string()),
        },
    );
    let item = newtype_item(&space, &vec![], &vec![], &n, &vec![], "", &vec![], &vec![]);
    assert!(item.contains(
        "if value.chars().count() < 2usize { return Err(\"shorter than 2 characters\".into()); }"
    ));
    assert!(item.contains("::regress::Regex::new(\"^a+$\")"));
    assert!(item.contains("return Err(\"doesn't match pattern \\\"^a+$\\\"\".into());"));
    assert!(parses(&item));
}

#[test]
fn unconstrained_newtype_proxies_its_inner_type() {
    let mut space = TypeSpace::default();
    let int = space.assign_type(TypeEntry::new_integer("u32"));
    let n = newtype(int, TypeEntryNewtypeConstraints::Unconstrained);
    let item = newtype_item(&space, &vec![], &vec![], &n, &vec![], "", &vec![], &vec![]);
    assert!(item.contains("pub struct Id(pub u32);"));
    assert!(item.contains("impl ::std::ops::Deref for Id { type Target = u32;"));
    assert!(item.contains(
        "impl ::std::str::FromStr for Id { type Err = <u32 as ::std::str::FromStr>::Err;"
    ));
    assert!(item.contains("impl ::std::convert::TryFrom<String> for Id"));
    assert!(item.contains("impl ::std::fmt::Display for Id"));
    assert!(parses(&item));
}

#[test]
fn valued_newtypes_check_their_lists() {
    let mut space = TypeSpace::default();
    let int = space.assign_type(TypeEntry::new_integer("u32"));
    let denied = newtype(int, TypeEntryNewtypeConstraints::DenyValue(vec![JsonValue::Null]));
    let item = newtype_item(&space, &vec![], &vec![], &denied, &vec![], "", &strings(&["7"]), &strings(&["7"]));
    assert!(item.contains(
        "if [7,].contains(&value) { Err(\"invalid value\".into()) } else { Ok(Self(value)) }"
    ));
    assert!(parses(&item));

    let mut allowed = newtype(int, TypeEntryNewtypeConstraints::EnumValue(vec![JsonValue::Null]));
    allowed.default = Some(JsonValue::Null);
    let item = newtype_item(&space, &vec![], &vec![], &allowed, &vec![], "Id(7)", &strings(&["7", "8"]), &strings(&["7", "8"]));
    assert!(item.contains("if ![7,8,].contains(&value)"));
    assert!(item.contains("impl ::std::default::Default for Id { fn default() -> Self { Id(7) } }"));
    assert!(parses(&item));
}

#[test]
fn closed_string_enum_converts_by_wire_names() {
    let space = TypeSpace::default();
    let mut e = shape(
        EnumTagType::External,
        vec![variant("a", "A", VariantDetails::Simple), variant("b-x", "BX", VariantDetails::Simple)],
    );
    e.finalize(&space);
    let item = enum_item(
        &space,
        &vec![],
        &vec![],
        &e,
        &vec![],
        "#[serde(rename = \"a\")] A, #[serde(rename = \"b-x\")] BX,",
        "",
    );
    assert!(item.contains("Copy"));
    assert!(item.contains("pub enum Shape { #[serde(rename = \"a\")] A,"));
    assert!(item.contains(
        "match *self { Self::A => f.write_str(\"a\"),Self::BX => f.write_str(\"b-x\"), }"
    ));
    assert!(item.contains(
        "match value { \"a\" => Ok(Self::A),\"b-x\" => Ok(Self::BX),_ => Err(\"invalid value\".into()), }"
    ));
    assert!(item.contains("impl ::std::convert::TryFrom<::std::string::String> for Shape"));
    assert!(parses(&item));
}

#[test]
fn opened_string_enum_keeps_other_values() {
    let mut settings = TypeSpaceSettings::default();
    settings.with_open_enum_variant("Other");
    let space = TypeSpace::new(settings);
    let mut e = shape(EnumTagType::External, vec![variant("a", "A", VariantDetails::Simple)]);
    e.finalize(&space);
    let item = enum_item(&space, &vec![], &vec![], &e, &vec![], "A,", "");
    assert!(!item.contains("Copy"));
    assert!(item.contains("#[serde(untagged)]Other(::std::string::String), }"));
    assert!(item.contains("match self { Self::A => f.write_str(\"a\"),Self::Other(value) => f.write_str(value.as_str()), }"));
    assert!(item.contains("_ => Ok(Self::Other(value.to_string())),"));
    assert!(parses(&item));
}

#[test]
fn enum_default_is_its_first_unit_variant() {
    let mut settings = TypeSpaceSettings::default();
    settings.with_enum_first_variant_default(true);
    let space = TypeSpace::new(settings);
    let mut e = shape(
        EnumTagType::External,
        vec![variant("b", "B", VariantDetails::Simple), variant("c", "C", VariantDetails::Simple)],
    );
    e.finalize(&space);
    let impls = enum_impls(&space, &e, "");
    assert!(impls.contains("impl ::std::default::Default for Shape { fn default() -> Self { Self::B } }"));
}

#[test]
fn untagged_enum_parses_and_displays_through_variants() {
    let mut space = TypeSpace::default();
    let int = space.assign_type(TypeEntry::new_integer("u64"));
    let mut e = shape(EnumTagType::Untagged, vec![variant("n", "N", VariantDetails::Item(int))]);
    e.finalize(&space);
    let item = enum_item(&space, &vec![], &vec![], &e, &vec![], "N(u64),", "");
    assert!(item.contains("#[serde(untagged)]pub enum Shape"));
    assert!(item.contains(
        "if let Ok(v) = value.parse() { Ok(Self::N(v)) } else { Err(\"string conversion failed for all variants\".into()) }"
    ));
    assert!(item.contains("match self { Self::N(x) => x.fmt(f), }"));
    assert!(item.contains(
        "impl ::std::convert::From<u64> for Shape { fn from(value: u64) -> Self { Self::N(value) } }"
    ));
    assert!(parses(&item));
}

#[test]
fn tuple_variants_are_built_from_tuples() {
    let mut space = TypeSpace::default();
    let int = space.assign_type(TypeEntry::new_integer("u64"));
    let mut e = shape(
        EnumTagType::External,
        vec![
            variant("pair", "Pair", VariantDetails::Tuple(vec![int, int])),
            variant("one", "One", VariantDetails::Tuple(vec![int])),
        ],
    );
    e.finalize(&space);
    let impls = enum_impls(&space, &e, "");
    assert!(impls.contains(
        "impl ::std::convert::From<(u64, u64)> for Shape { fn from(value: (u64, u64)) -> Self { Self::Pair(value.0,value.1,) } }"
    ));
    assert!(impls.contains("impl ::std::convert::From<(u64,)> for Shape"));
    assert!(parses(&impls));
}

#[test]
fn shared_error_module_parses() {
    let m = error_mod();
    assert!(m.contains("pub struct ConversionError(::std::borrow::Cow<'static, str>);"));
    assert!(m.contains("impl From<String> for ConversionError"));
    assert!(parses(&m));
}

#[test]
fn serde_attributes_list_their_options() {
    assert_eq!(serde_attr(&vec![]), "");
    let line = serde_attr(&vec![SerdeOption::Rename("old".to_string()), SerdeOption::Tag("kind".to_string())]);
    assert_eq!(line, "#[serde(rename = \"old\", tag = \"kind\")]");
    assert_eq!(serde_attr(&vec![SerdeOption::DenyUnknownFields]), "#[serde(deny_unknown_fields)]");
}

#[test]
fn struct_fields_and_default_impl() {
    let mut space = TypeSpace::default();
    let int = space.assign_type(TypeEntry::new_integer("u32"));
    let s = pet(vec![property("x", int), property("y", int)]);
    let attrs = strings(&["", "#[serde(default)]"]);
    let item = struct_item(
        &space,
        &vec![],
        &vec![],
        &s,
        &vec![],
        &attrs,
        &vec![FieldDefault::NoDefault, FieldDefault::Default],
        "",
    );
    assert!(item.contains("pub struct Pet { pub x: u32,#[serde(default)]pub y: u32, }"));
    assert!(!item.contains("impl ::std::default::Default"));
    assert!(!item.contains("builder"));
    assert!(parses(&item));

    let item = struct_item(
        &space,
        &vec![],
        &vec![],
        &s,
        &vec![],
        &attrs,
        &vec![FieldDefault::Default, FieldDefault::Custom("defaults::seven".to_string())],
        "",
    );
    assert!(item.contains(
        "impl ::std::default::Default for Pet { fn default() -> Self { Self { x: Default::default(),y: defaults::seven(), } } }"
    ));
    assert!(parses(&item));
}

#[test]
fn struct_builder_holds_results() {
    let mut settings = TypeSpaceSettings::default();
    settings.with_struct_builder(true);
    let mut space = TypeSpace::new(settings);
    let int = space.assign_type(TypeEntry::new_integer("u32"));
    let s = pet(vec![property("x", int), property("y", int)]);
    let defaults = vec![FieldDefault::NoDefault, FieldDefault::Custom("defaults::seven".to_string())];
    let item = struct_item(&space, &vec![], &vec![], &s, &vec![], &strings(&["", ""]), &defaults, "");
    assert!(item.contains("impl Pet { pub fn builder() -> builder::Pet { Default::default() } }"));

    let b = builder_item(&space, &s, &defaults);
    assert!(b.contains("pub struct Pet { x: ::std::result::Result<u32, ::std::string::String>,"));
    assert!(b.contains("x: Err(\"no value supplied for x\".to_string()),y: Ok(super::defaults::seven()),"));
    assert!(b.contains("format!(\"error converting supplied value for y: {e}\")"));
    assert!(b.contains("Ok(Self { x: value.x?,y: value.y?, })"));
    assert!(b.contains("Self { x: Ok(value.x),y: Ok(value.y), }"));
    assert!(parses(&b));

    let empty = builder_item(&space, &pet(vec![]), &vec![]);
    assert!(empty.contains("fn try_from(_value: Pet)"));
    assert!(parses(&empty));
}

#[test]
fn module_tree_orders_nodes_and_places_types() {
    let mut space = TypeSpace::default();
    space.assign_type(TypeEntry::new_integer("u32"));
    let a = space.assign_type(struct_entry("A"));
    let b = space.assign_type(struct_entry("B"));
    let c = space.assign_type(struct_entry("C"));
    let partition = vec![("A".to_string(), "ops/x".to_string()), ("B".to_string(), "shared".to_string())];
    let imports = vec![("zeta".to_string(), "use super::shared::*;".to_string())];
    let tree = module_tree(&space, &partition, "types", &imports);
    let paths: Vec<String> = tree.iter().map(|n| n.path.join("/")).collect();
    assert_eq!(paths, vec!["ops", "ops/x", "shared", "types", "zeta"]);
    let leaves: Vec<bool> = tree.iter().map(|n| n.leaf).collect();
    assert_eq!(leaves, vec![false, true, true, true, true]);
    assert!(tree[0].types.is_empty());
    assert_eq!(tree[1].types, vec![a]);
    assert_eq!(tree[2].types, vec![b]);
    assert_eq!(tree[3].types, vec![c]);
    assert_eq!(tree[4].preamble, "use super::shared::*;");
    assert_eq!(tree[0].preamble, "");
}

#[test]
fn module_tree_text_nests_and_closes() {
    let node = |path: &[&str], leaf: bool, types: Vec<TypeId>| ModuleNode {
        path: strings(path),
        preamble: String::new(),
        types,
        leaf,
    };
    let nodes = vec![
        node(&["a"], false, vec![]),
        node(&["a", "b"], true, vec![TypeId(1)]),
        node(&["c"], true, vec![]),
    ];
    let items = vec![(TypeId(1), "pub struct B;".to_string())];
    let text = tree_output(&nodes, "pub struct E;", "pub fn d() {}", &items);
    assert_eq!(
        text,
        "pub mod a {  pub mod b {  pub mod error { pub struct E; } pub mod defaults { pub fn d() {} } pub struct B; } }\
pub mod c {  pub mod error { pub struct E; } pub mod defaults { pub fn d() {} }  }"
    );
    assert!(parses(&text));
    let space = TypeSpace::default();
    let flat = partitioned_output(&space, &vec![], "types", &vec![], "pub struct E;", "", &vec![]);
    assert_eq!(flat, "pub mod types {  pub mod error { pub struct E; }  }");
}

#[test]
fn second_naming_pass_marks_elided_characters() {
    assert_eq!(x_elided("a_b-c.d"), "aXbXcXd");
    assert_eq!(x_elided("plain9"), "plain9");
    assert_eq!(x_elided("ünï"), "ünï");
}

#[test]
fn variants_take_the_first_distinct_naming() {
    let vs = vec![
        Variant::new("a-b".to_string(), None, VariantDetails::Simple),
        Variant::new("a_b".to_string(), None, VariantDetails::Simple),
    ];
    let named = name_variants(vs, &strings(&["AB", "AB"]), &strings(&["AXb", "AXB"]));
    assert_eq!(named[0].ident_name.as_deref(), Some("AXb"));
    assert_eq!(named[1].ident_name.as_deref(), Some("AXB"));
    assert_eq!(named[1].raw_name, "a_b");

    let vs = vec![
        Variant::new("x".to_string(), None, VariantDetails::Simple),
        Variant::new("y".to_string(), None, VariantDetails::Simple),
    ];
    let named = name_variants(vs, &strings(&["X", "Y"]), &strings(&["X", "X"]));
    assert_eq!(named[0].ident_name.as_deref(), Some("X"));
    assert_eq!(named[1].ident_name.as_deref(), Some("Y"));
}
