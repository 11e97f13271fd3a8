use proc_macro2::{Group, Punct, Spacing, TokenStream, TokenTree};
use typify::json::JsonValue;
use typify::settings::TypeSpaceSettings;
use typify::space::TypeSpace;
use typify::type_entry::{
    StructProperty, StructPropertyRename, StructPropertyState, TypeEntry, TypeEntryDetails,
    TypeEntryStruct,
};

/// Joins punctuation as `quote!` does: only `::` and a lifetime's quote
/// are joint.
fn quote_spacing(stream: TokenStream) -> TokenStream {
    stream
        .into_iter()
        .map(|tree| match tree {
            TokenTree::Group(g) => {
                let mut inner = Group::new(g.delimiter(), quote_spacing(g.stream()));
                inner.set_span(g.span());
                TokenTree::Group(inner)
            }
            TokenTree::Punct(p) => {
                let joint = p.as_char() == '\'' || (p.as_char() == ':' && p.spacing() == Spacing::Joint);
                let spacing = if joint { Spacing::Joint } else { Spacing::Alone };
                TokenTree::Punct(Punct::new(p.as_char(), spacing))
            }
            other => other,
        })
        .collect()
}

/// Type expressions are produced as Rust source text; the generator parses
/// them into tokens, whose printed form is what these tests compare.
fn tokens(text: &str) -> String {
    quote_spacing(text.parse::<TokenStream>().unwrap()).to_string()
}

fn struct_entry(name: &str, properties: Vec<StructProperty>) -> TypeEntry {
    TypeEntry::from_details(TypeEntryDetails::Struct(TypeEntryStruct {
        name: name.to_string(),
        rename: None,
        description: None,
        default: None,
        properties,
        deny_unknown_fields: false,
        schema: JsonValue::Bool(false),
    }))
}

#[test]
fn test_ident() {
    let ts = TypeSpace::default();

    let type_mod = Some("the_mod".to_string());

    let t = TypeEntry::new_integer("u32");
    let ident = t.type_ident(&ts, &type_mod);
    assert_eq!(tokens(&ident), "u32");
    let parameter = t.type_parameter_ident(&ts, None);
    assert_eq!(tokens(&parameter), "u32");

    let t = TypeEntry::from_details(TypeEntryDetails::String);
    let ident = t.type_ident(&ts, &type_mod);
    assert_eq!(tokens(&ident), ":: std :: string :: String");
    let parameter = t.type_parameter_ident(&ts, None);
    assert_eq!(tokens(&parameter), "& str");
    let parameter = t.type_parameter_ident(&ts, Some("static"));
    assert_eq!(tokens(&parameter), "& 'static str");

    let t = TypeEntry::from_details(TypeEntryDetails::Unit);
    let ident = t.type_ident(&ts, &type_mod);
    assert_eq!(tokens(&ident), "()");
    let parameter = t.type_parameter_ident(&ts, None);
    assert_eq!(tokens(&parameter), "()");

    let t = struct_entry("SomeType", vec![]);

    let ident = t.type_ident(&ts, &type_mod);
    assert_eq!(tokens(&ident), "the_mod :: SomeType");
    let parameter = t.type_parameter_ident(&ts, None);
    assert_eq!(tokens(&parameter), "& SomeType");
    let parameter = t.type_parameter_ident(&ts, Some("a"));
    assert_eq!(tokens(&parameter), "& 'a SomeType");
}

/// The struct that the schema of `struct TestStruct { x: u32 }` becomes.
fn test_struct(space: &mut TypeSpace) -> typify::TypeId {
    let x = space.assign_type(TypeEntry::new_integer("u32"));
    space.assign_type(struct_entry(
        "TestStruct",
        vec![StructProperty {
            name: "x".to_string(),
            wire_name: "x".to_string(),
            api_name: "x".to_string(),
            rename: StructPropertyRename::Unchanged,
            state: StructPropertyState::Required,
            description: None,
            type_id: x,
        }],
    ))
}

#[test]
fn test_builder_name() {
    let mut type_space = TypeSpace::default();
    let type_id = test_struct(&mut type_space);
    let ty = type_space.get_type(type_id).unwrap();

    assert!(ty.builder().is_none());

    let mut settings = TypeSpaceSettings::default();
    settings.with_struct_builder(true);
    let mut type_space = TypeSpace::new(settings);
    let type_id = test_struct(&mut type_space);
    let ty = type_space.get_type(type_id).unwrap();

    assert_eq!(
        ty.builder().map(|ts| tokens(&ts)),
        Some("builder :: TestStruct".to_string())
    );

    let mut settings = TypeSpaceSettings::default();
    settings.with_type_mod("types").with_struct_builder(true);
    let mut type_space = TypeSpace::new(settings);
    let type_id = test_struct(&mut type_space);
    let ty = type_space.get_type(type_id).unwrap();

    assert_eq!(
        ty.builder().map(|ts| tokens(&ts)),
        Some("types :: builder :: TestStruct".to_string())
    );

    // The enum `enum TestEnum { X, Y }`.
    let mut settings = TypeSpaceSettings::default();
    settings.with_type_mod("types").with_struct_builder(true);
    let mut type_space = TypeSpace::new(settings);
    let mut variants = Vec::new();
    for name in ["X", "Y"] {
        let mut v = typify::type_entry::Variant::new(
            name.to_string(),
            None,
            typify::type_entry::VariantDetails::Simple,
        );
        v.ident_name = Some(name.to_string());
        variants.push(v);
    }
    let type_id = type_space.assign_type(TypeEntry::from_details(TypeEntryDetails::Enum(
        typify::type_entry::TypeEntryEnum {
            name: "TestEnum".to_string(),
            rename: None,
            description: None,
            default: None,
            tag_type: typify::type_entry::EnumTagType::External,
            variants,
            deny_unknown_fields: false,
            bespoke_impls: vec![],
            schema: JsonValue::Bool(true),
        },
    )));
    let ty = type_space.get_type(type_id).unwrap();
    assert!(ty.builder().is_none());
}
