use typify::attrs::{
    compute_derive_list_denying, deep_patch_allowed, deep_patch_inner, deep_patch_name,
    sorted_union, str_lt, strings_to_attrs, type_attr_lists,
};
use typify::cli::{
    is_crate, kinds_filter, parse_kinds_filter, use_builder, CrateSpecArg, CrateSpecError,
    MacroCrateSpec,
};
use typify::json::JsonValue;
use typify::settings::{
    AttrPosition, CrateVers, DeepPatchPolicy, MapType, TypeSpacePatch, TypeSpaceSettings,
    UnknownPolicy,
};
use typify::space::{TypeDetails, TypeEnumVariant, TypeSpace};
use typify::type_entry::{
    EnumTagType, StructProperty, StructPropertyRename, StructPropertyState, TypeEntry,
    TypeEntryDetails, TypeEntryEnum, TypeEntryEnumImpl, TypeEntryNative,
    TypeEntryNewtype, TypeEntryNewtypeConstraints, TypeEntryStruct, Variant, VariantDetails,
};
use typify::{show_type_name, Error, Name, TypeId, TypeKind, TypeKindFilter, TypeSpaceImpl};

fn strings(xs: &[&str]) -> Vec<String> {
    xs.iter().map(|x| x.to_string()).collect()
}

fn struct_entry(name: &str, default: bool, properties: Vec<StructProperty>) -> TypeEntry {
    TypeEntry::from_details(TypeEntryDetails::Struct(TypeEntryStruct {
        name: name.to_string(),
        rename: None,
        description: None,
        default: if default { Some(JsonValue::Null) } else { None },
        properties,
        deny_unknown_fields: false,
        schema: JsonValue::Bool(true),
    }))
}

fn newtype_entry(name: &str, inner: TypeId, constraints: TypeEntryNewtypeConstraints) -> TypeEntry {
    TypeEntry::from_details(TypeEntryDetails::Newtype(TypeEntryNewtype {
        name: name.to_string(),
        rename: None,
        description: Some("a newtype".to_string()),
        default: None,
        type_id: inner,
        constraints,
        schema: JsonValue::Bool(true),
    }))
}

fn enum_entry(name: &str, tag_type: EnumTagType, variants: Vec<Variant>) -> TypeEntryEnum {
    TypeEntryEnum {
        name: name.to_string(),
        rename: None,
        description: None,
        default: None,
        tag_type,
        variants,
        deny_unknown_fields: false,
        bespoke_impls: vec![],
        schema: JsonValue::Bool(true),
    }
}

fn variant(name: &str, details: VariantDetails) -> Variant {
    let mut v = Variant::new(name.to_string(), None, details);
    v.ident_name = Some(name.to_string());
    v
}

fn property(name: &str, state: StructPropertyState, type_id: TypeId) -> StructProperty {
    StructProperty {
        name: name.to_string(),
        wire_name: name.to_string(),
        api_name: name.to_string(),
        rename: StructPropertyRename::Unchanged,
        state,
        description: None,
        type_id,
    }
}

#[test]
fn show_type_name_falls_back_to_unknown() {
    assert_eq!(show_type_name(Some("Pet")), "Pet");
    assert_eq!(show_type_name(None), "<unknown type>");
}

#[test]
fn invalid_value_error() {
    assert!(matches!(Error::invalid_value(), Error::InvalidValue));
}

#[test]
fn name_append_and_into_option() {
    match Name::Required("Pet".to_string()).append("tag") {
        Name::Suggested(n) => assert_eq!(n, "Pet_tag"),
        _ => panic!("expected a suggested name"),
    }
    match Name::Suggested("a".to_string()).append("b") {
        Name::Suggested(n) => assert_eq!(n, "a_b"),
        _ => panic!("expected a suggested name"),
    }
    assert!(matches!(Name::Unknown.append("x"), Name::Unknown));
    assert_eq!(Name::Required("x".to_string()).into_option(), Some("x".to_string()));
    assert_eq!(Name::Suggested("y".to_string()).into_option(), Some("y".to_string()));
    assert_eq!(Name::Unknown.into_option(), None);
}

#[test]
fn type_space_impl_parsing() {
    assert_eq!("FromStr".parse::<TypeSpaceImpl>(), Ok(TypeSpaceImpl::FromStr));
    assert_eq!("Display".parse::<TypeSpaceImpl>(), Ok(TypeSpaceImpl::Display));
    assert_eq!("Default".parse::<TypeSpaceImpl>(), Ok(TypeSpaceImpl::Default));
    assert_eq!(
        "FromStringIrrefutable".parse::<TypeSpaceImpl>(),
        Err("FromStringIrrefutable is not a valid trait specifier".to_string())
    );
    assert_eq!(
        TypeSpaceImpl::parse("Clone"),
        Err("Clone is not a valid trait specifier".to_string())
    );
}

#[test]
fn type_kind_filters_select_their_kinds() {
    let all = TypeKindFilter::all();
    assert!(all.matches(TypeKind::Struct) && all.matches(TypeKind::Enum) && all.matches(TypeKind::Newtype));
    let s = TypeKindFilter::structs_only();
    assert!(s.matches(TypeKind::Struct) && !s.matches(TypeKind::Enum) && !s.matches(TypeKind::Newtype));
    let e = TypeKindFilter::enums_only();
    assert!(!e.matches(TypeKind::Struct) && e.matches(TypeKind::Enum) && !e.matches(TypeKind::Newtype));
    let n = TypeKindFilter::newtypes_only();
    assert!(!n.matches(TypeKind::Struct) && !n.matches(TypeKind::Enum) && n.matches(TypeKind::Newtype));
}

#[test]
fn settings_derives_and_attrs_are_deduplicated() {
    let mut settings = TypeSpaceSettings::new();
    settings
        .with_derive("A".to_string())
        .with_derive("B".to_string())
        .with_derive("A".to_string())
        .with_attr("#[x]".to_string())
        .with_attr("#[x]".to_string())
        .with_struct_builder(true);
    assert_eq!(settings.extra_derives, strings(&["A", "B"]));
    assert_eq!(settings.extra_attrs, strings(&["#[x]"]));
    assert!(settings.struct_builder);
}

#[test]
fn conditional_and_unconditional_settings_are_deduplicated() {
    let mut settings = TypeSpaceSettings::new();
    settings
        .with_conditional_derive("patch", "struct_patch::Patch")
        .with_conditional_derive_for("patch", "struct_patch::Patch", TypeKindFilter::structs_only())
        .with_conditional_derive_for("other", "struct_patch::Patch", TypeKindFilter::structs_only());
    assert_eq!(settings.conditional_derives.len(), 2);
    assert_eq!(settings.conditional_derives[0].kinds, TypeKindFilter::all());

    settings
        .with_conditional_attr("f", "serde_with::skip_serializing_none")
        .with_conditional_attr_for("f", "serde_with::skip_serializing_none", TypeKindFilter::structs_only())
        .with_conditional_attr_at("f", "serde_with::skip_serializing_none", AttrPosition::AfterDerive, TypeKindFilter::all());
    assert_eq!(settings.conditional_attrs.len(), 2);

    settings
        .with_unconditional_attr("a")
        .with_unconditional_attr_for("a", TypeKindFilter::structs_only())
        .with_unconditional_attr_at("a", AttrPosition::BeforeDerive, TypeKindFilter::all());
    assert_eq!(settings.unconditional_attrs.len(), 2);

    settings
        .with_unconditional_derive("Debug")
        .with_unconditional_derive("Debug")
        .with_unconditional_derive_for("Debug", TypeKindFilter::enums_only());
    assert_eq!(settings.unconditional_derives.len(), 2);
}

#[test]
fn settings_keyed_options_keep_the_last_value() {
    let mut patch = TypeSpacePatch::new();
    patch.with_rename("Renamed").with_derive("Eq").with_attr("#[a]").with_derive("Hash");
    assert_eq!(patch.rename, Some("Renamed".to_string()));
    assert_eq!(patch.derives, strings(&["Eq", "Hash"]));
    assert_eq!(patch.attrs, strings(&["#[a]"]));

    let mut settings = TypeSpaceSettings::new();
    settings.with_patch("Pet", &patch);
    let mut second = TypeSpacePatch::new();
    second.with_rename("Animal");
    settings.with_patch("Pet", &second).with_patch("Tag", &patch);
    assert_eq!(settings.patch.len(), 2);
    assert_eq!(settings.patch[0].0, "Pet");
    assert_eq!(settings.patch[0].1.rename, Some("Animal".to_string()));

    settings
        .with_replacement("Id", "::uuid::Uuid", &[TypeSpaceImpl::Display])
        .with_replacement("Id", "::my::Id", &[]);
    assert_eq!(settings.replace.len(), 1);
    assert_eq!(settings.replace[0].1.replace_type, "::my::Id");

    settings
        .with_crate("oxnet", CrateVers::Any, None)
        .with_crate("oxnet", CrateVers::Never, Some(&"net".to_string()));
    assert_eq!(settings.crates.len(), 1);
    assert!(matches!(settings.crates[0].1.version, CrateVers::Never));
    assert_eq!(settings.crates[0].1.rename, Some("net".to_string()));
}

#[test]
fn settings_simple_options() {
    let mut settings = TypeSpaceSettings::new();
    assert_eq!(settings.map_type.path, "::std::collections::HashMap");
    settings
        .with_type_mod("types")
        .with_unknown_crates(UnknownPolicy::Deny)
        .with_map_type(MapType::try_new("::std::collections::BTreeMap").unwrap())
        .with_date_type("::time::Date")
        .with_date_time_type("::time::OffsetDateTime")
        .with_uuid_type("::std::string::String")
        .with_unconstrained_string(true)
        .with_unconstrained_int(true)
        .with_elide_option_field_defaults(true)
        .with_deep_patches(DeepPatchPolicy::AllOptionStructs)
        .with_schema_in_docs(false)
        .with_struct_rename_all("camelCase")
        .with_enum_first_variant_default(true);
    assert_eq!(settings.type_mod, Some("types".to_string()));
    assert_eq!(settings.unknown_crates, UnknownPolicy::Deny);
    assert_eq!(settings.map_type.path, "::std::collections::BTreeMap");
    assert_eq!(settings.date_type, Some("::time::Date".to_string()));
    assert_eq!(settings.date_time_type, Some("::time::OffsetDateTime".to_string()));
    assert_eq!(settings.uuid_type, Some("::std::string::String".to_string()));
    assert!(settings.unconstrained_string && settings.unconstrained_int);
    assert!(settings.elide_option_field_defaults());
    assert_eq!(settings.deep_patches(), DeepPatchPolicy::AllOptionStructs);
    assert!(!settings.include_schema_in_docs);
    assert_eq!(settings.struct_rename_all(), Some("camelCase"));
    assert!(settings.enum_first_variant_default());
    assert!(MapType::try_new("not a type!").is_none());
}

#[test]
fn conversions_are_kept_in_order_and_fill_the_cache() {
    let mut settings = TypeSpaceSettings::new();
    let number = vec![("type".to_string(), JsonValue::String("number".to_string()))];
    let string = vec![
        ("type".to_string(), JsonValue::String("string".to_string())),
        ("title".to_string(), JsonValue::String("ignored".to_string())),
    ];
    settings
        .with_conversion(number.clone(), "::rust_decimal::Decimal", &[TypeSpaceImpl::Display])
        .with_conversion(string, "::my::Text", &[]);
    assert_eq!(settings.convert.len(), 2);
    let space = TypeSpace::new(settings);
    assert_eq!(space.cache.conversions.len(), 2);
    assert_eq!(space.cache.conversions[1].0.len(), 1);
    match space.cache.lookup(&number) {
        Some(entry) => match &entry.details {
            TypeEntryDetails::Native(n) => assert_eq!(n.path, "::rust_decimal::Decimal"),
            _ => panic!("expected a native type"),
        },
        None => panic!("expected a conversion"),
    }
}

#[test]
fn crate_names() {
    assert!(is_crate("serde"));
    assert!(is_crate("_private-crate_2"));
    assert!(is_crate("ünïcode"));
    assert!(!is_crate(""));
    assert!(!is_crate("2fast"));
    assert!(!is_crate("-dash"));
    assert!(!is_crate("has space"));
    assert!(!is_crate("a@b"));
}

#[test]
fn crate_version_parsing() {
    assert!(matches!(CrateVers::parse("!"), Some(CrateVers::Never)));
    assert!(matches!(CrateVers::parse("*"), Some(CrateVers::Any)));
    match CrateVers::parse("1.2.3") {
        Some(CrateVers::Version(v)) => assert_eq!((v.major, v.minor, v.patch), (1, 2, 3)),
        _ => panic!("expected a version"),
    }
    assert!(CrateVers::parse("1.2").is_none());
    assert!(CrateVers::parse("latest").is_none());
}

#[test]
fn command_line_crate_specifiers() {
    let spec = CrateSpecArg::parse("oxnet@0.1.0").unwrap();
    assert_eq!(spec.name, "oxnet");
    assert!(spec.rename.is_none());
    assert!(matches!(spec.version, CrateVers::Version(_)));

    let spec = CrateSpecArg::parse("net=oxnet@*").unwrap();
    assert_eq!(spec.name, "oxnet");
    assert_eq!(spec.rename, Some("net".to_string()));
    assert!(matches!(spec.version, CrateVers::Any));

    let spec = CrateSpecArg::parse("uuid@!").unwrap();
    assert!(matches!(spec.version, CrateVers::Never));

    let message = "crate specifier must be of the form 'cratename@version'";
    assert_eq!(CrateSpecArg::parse("oxnet").unwrap_err(), message);
    assert_eq!(CrateSpecArg::parse("1net=oxnet@*").unwrap_err(), message);
    assert_eq!(CrateSpecArg::parse("ox net@*").unwrap_err(), message);
    assert_eq!(CrateSpecArg::parse("oxnet@one").unwrap_err(), message);
}

#[test]
fn macro_crate_specifiers() {
    let spec = MacroCrateSpec::parse("1.0.0").unwrap();
    assert!(spec.original.is_none());
    assert!(matches!(spec.version, CrateVers::Version(_)));
    let spec = MacroCrateSpec::parse("oxnet@*").unwrap();
    assert_eq!(spec.original, Some("oxnet".to_string()));
    assert!(matches!(spec.version, CrateVers::Any));
    assert_eq!(MacroCrateSpec::parse("9x@*").unwrap_err(), CrateSpecError::InvalidCrateName);
    assert_eq!(MacroCrateSpec::parse("oxnet@x.y").unwrap_err(), CrateSpecError::InvalidVersion);
    assert_eq!(MacroCrateSpec::parse("nope").unwrap_err(), CrateSpecError::InvalidVersion);
}

#[test]
fn macro_kinds_filters() {
    assert_eq!(kinds_filter(None), TypeKindFilter::all());
    assert_eq!(kinds_filter(Some("all")), TypeKindFilter::all());
    assert_eq!(kinds_filter(Some("structs")), TypeKindFilter::structs_only());
    assert_eq!(kinds_filter(Some("enums")), TypeKindFilter::enums_only());
    assert_eq!(kinds_filter(Some("newtypes")), TypeKindFilter::newtypes_only());
    assert_eq!(parse_kinds_filter(Some("unions")), None);
}

#[test]
fn builder_is_the_default_style() {
    assert!(use_builder(false));
    assert!(!use_builder(true));
}

#[test]
fn native_name_match() {
    let native = TypeEntryNative {
        path: "::chrono::naive::NaiveDate".to_string(),
        impls: vec![],
        parameters: vec![],
    };
    assert!(native.name_match(&Name::Required("NaiveDate".to_string())));
    assert!(!native.name_match(&Name::Required("Date".to_string())));
    assert!(!native.name_match(&Name::Suggested("NaiveDate".to_string())));
    assert!(!native.name_match(&Name::Unknown));
    let generic = TypeEntryNative {
        path: "Wrapper".to_string(),
        impls: vec![],
        parameters: vec![TypeId(3)],
    };
    assert!(generic.name_match(&Name::Unknown));
    let bare = TypeEntryNative {
        path: "Plain".to_string(),
        impls: vec![],
        parameters: vec![],
    };
    assert!(bare.name_match(&Name::Required("Plain".to_string())));
}

#[test]
fn entry_descriptions() {
    assert_eq!(struct_entry("Pet", false, vec![]).describe(), "struct Pet");
    assert_eq!(newtype_entry("Id", TypeId(7), TypeEntryNewtypeConstraints::Unconstrained).describe(), "newtype Id 7");
    assert_eq!(TypeEntry::from_details(TypeEntryDetails::Option(TypeId(12))).describe(), "option 12");
    assert_eq!(TypeEntry::from_details(TypeEntryDetails::MapOf(TypeId(1), TypeId(2))).describe(), "map 1 2");
    assert_eq!(TypeEntry::from_details(TypeEntryDetails::Tuple(vec![TypeId(1), TypeId(20), TypeId(3)])).describe(), "tuple (1, 20, 3)");
    assert_eq!(TypeEntry::from_details(TypeEntryDetails::Tuple(vec![])).describe(), "tuple ()");
    assert_eq!(TypeEntry::from_details(TypeEntryDetails::Array(TypeId(4), 16)).describe(), "array 4; 16");
    assert_eq!(TypeEntry::new_boolean().describe(), "bool");
    assert_eq!(TypeEntry::new_integer("u32").describe(), "u32");
    assert_eq!(TypeEntry::new_float("f64").describe(), "f64");
    assert_eq!(TypeEntry::new_native("::uuid::Uuid", &[]).describe(), "::uuid::Uuid");
    assert_eq!(TypeEntry::from_details(TypeEntryDetails::Unit).describe(), "()");
    assert_eq!(TypeEntry::from_details(TypeEntryDetails::String).describe(), "string");
    assert_eq!(TypeEntry::from_details(TypeEntryDetails::JsonValue).describe(), "json value");
    assert_eq!(TypeEntry::from_details(TypeEntryDetails::Vec(TypeId(0))).describe(), "vec 0");
}

#[test]
fn assign_type_deduplicates_and_resolves_references() {
    let mut space = TypeSpace::new(TypeSpaceSettings::new());
    let string = space.assign_type(TypeEntry::from_details(TypeEntryDetails::String));
    assert_eq!(string, TypeId(1));
    assert_eq!(space.assign_type(TypeEntry::from_details(TypeEntryDetails::String)), TypeId(1));
    let opt = space.id_to_option(string);
    assert_eq!(opt, TypeId(2));
    assert_eq!(space.id_to_option(string), TypeId(2));
    let pet = space.assign_type(struct_entry("Pet", false, vec![]));
    assert_eq!(pet, TypeId(3));
    assert_eq!(space.assign_type(struct_entry("Pet", true, vec![])), TypeId(3));
    assert_eq!(space.assign_type(TypeEntry::from_details(TypeEntryDetails::Reference(TypeId(42)))), TypeId(42));
    let boxed = space.id_to_box(pet);
    assert_eq!(boxed, TypeId(4));
    assert_eq!(space.next_id, 5);
    assert_eq!(space.iter_types().len(), 4);
    assert!(matches!(space.get_type(TypeId(9)), Err(Error::InvalidTypeId)));
    assert_eq!(space.get_type(pet).unwrap().describe(), "struct Pet");
    assert!(!space.uses_chrono() && !space.uses_uuid() && !space.uses_serde_json() && !space.uses_regress());
}

#[test]
fn has_impl_follows_type_ids() {
    let mut space = TypeSpace::new(TypeSpaceSettings::new());
    let string = space.assign_type(TypeEntry::from_details(TypeEntryDetails::String));
    let int = space.assign_type(TypeEntry::new_integer("u32"));
    let json = space.assign_type(TypeEntry::from_details(TypeEntryDetails::JsonValue));
    let pet = space.assign_type(struct_entry("Pet", true, vec![]));
    let tag = space.assign_type(struct_entry("Tag", false, vec![]));
    let boxed_pet = space.id_to_box(pet);
    let pair = space.assign_type(TypeEntry::from_details(TypeEntryDetails::Tuple(vec![string, int])));
    let with_tag = space.assign_type(TypeEntry::from_details(TypeEntryDetails::Tuple(vec![tag, string])));
    let wide = space.assign_type(TypeEntry::from_details(TypeEntryDetails::Tuple(vec![int; 13])));
    let small_array = space.assign_type(TypeEntry::from_details(TypeEntryDetails::Array(int, 32)));
    let big_array = space.assign_type(TypeEntry::from_details(TypeEntryDetails::Array(int, 33)));
    let id = space.assign_type(newtype_entry("Id", string, TypeEntryNewtypeConstraints::Unconstrained));
    let code = space.assign_type(newtype_entry(
        "Code",
        int,
        TypeEntryNewtypeConstraints::String { max_length: Some(3), min_length: None, pattern: None },
    ));
    let native = space.assign_type(TypeEntry::new_native("::uuid::Uuid", &[TypeSpaceImpl::FromStr]));

    let has = |id: TypeId, imp: TypeSpaceImpl| space.get_type(id).unwrap().has_impl(imp);
    for imp in [TypeSpaceImpl::Default, TypeSpaceImpl::FromStr, TypeSpaceImpl::Display, TypeSpaceImpl::FromStringIrrefutable] {
        assert!(has(string, imp));
        assert!(!has(json, imp));
    }
    assert!(has(int, TypeSpaceImpl::Display));
    assert!(!has(int, TypeSpaceImpl::FromStringIrrefutable));
    assert!(has(pet, TypeSpaceImpl::Default));
    assert!(!has(pet, TypeSpaceImpl::Display));
    assert!(!has(tag, TypeSpaceImpl::Default));
    assert!(has(boxed_pet, TypeSpaceImpl::Default));
    assert!(!has(boxed_pet, TypeSpaceImpl::FromStr));
    assert!(has(pair, TypeSpaceImpl::Default));
    assert!(!has(pair, TypeSpaceImpl::Display));
    assert!(!has(with_tag, TypeSpaceImpl::Default));
    assert!(!has(wide, TypeSpaceImpl::Default));
    assert!(has(small_array, TypeSpaceImpl::Default));
    assert!(!has(big_array, TypeSpaceImpl::Default));
    assert!(has(id, TypeSpaceImpl::FromStringIrrefutable));
    assert!(!has(id, TypeSpaceImpl::Default));
    assert!(has(code, TypeSpaceImpl::FromStr));
    assert!(has(code, TypeSpaceImpl::Display));
    assert!(!has(code, TypeSpaceImpl::FromStringIrrefutable));
    assert!(has(native, TypeSpaceImpl::FromStr));
    assert!(!has(native, TypeSpaceImpl::Display));
}

#[test]
fn type_idents() {
    let mut settings = TypeSpaceSettings::new();
    settings.with_type_mod("the_mod");
    let mut space = TypeSpace::new(settings);
    let string = space.assign_type(TypeEntry::from_details(TypeEntryDetails::String));
    let int = space.assign_type(TypeEntry::new_integer("u32"));
    let json = space.assign_type(TypeEntry::from_details(TypeEntryDetails::JsonValue));
    let some = space.assign_type(struct_entry("SomeType", false, vec![]));
    let opt = space.id_to_option(some);
    let opt_opt = space.id_to_option(opt);
    let vec = space.assign_type(TypeEntry::from_details(TypeEntryDetails::Vec(int)));
    let plain_map = space.assign_type(TypeEntry::from_details(TypeEntryDetails::MapOf(string, json)));
    let map = space.assign_type(TypeEntry::from_details(TypeEntryDetails::MapOf(string, int)));
    let set = space.assign_type(TypeEntry::from_details(TypeEntryDetails::SetOf(int)));
    let one = space.assign_type(TypeEntry::from_details(TypeEntryDetails::Tuple(vec![int])));
    let two = space.assign_type(TypeEntry::from_details(TypeEntryDetails::Tuple(vec![int, string])));
    let array = space.assign_type(TypeEntry::from_details(TypeEntryDetails::Array(int, 4)));
    let generic = space.assign_type(TypeEntry::new_native_params("::my::Pair", &[int, some]));

    let name = |id: TypeId| space.get_type(id).unwrap().name();
    let ident = |id: TypeId| space.get_type(id).unwrap().ident();
    assert_eq!(name(int), "u32");
    assert_eq!(ident(int), "u32");
    assert_eq!(name(string), "::std::string::String");
    assert_eq!(ident(some), "the_mod::SomeType");
    assert_eq!(name(some), "SomeType");
    assert_eq!(name(opt), "::std::option::Option<SomeType>");
    assert_eq!(name(opt_opt), "::std::option::Option<SomeType>");
    assert_eq!(name(vec), "::std::vec::Vec<u32>");
    assert_eq!(name(plain_map), "::serde_json::Map<::std::string::String, ::serde_json::Value>");
    assert_eq!(name(map), "::std::collections::HashMap<::std::string::String, u32>");
    assert_eq!(name(set), "Vec<u32>");
    assert_eq!(name(one), "(u32,)");
    assert_eq!(name(two), "(u32, ::std::string::String)");
    assert_eq!(name(array), "[u32; 4]");
    assert_eq!(ident(generic), "::my::Pair<u32, the_mod::SomeType, >");
    assert_eq!(name(json), "::serde_json::Value");
}

#[test]
fn type_details_and_views() {
    let mut space = TypeSpace::new(TypeSpaceSettings::new());
    let string = space.assign_type(TypeEntry::from_details(TypeEntryDetails::String));
    let int = space.assign_type(TypeEntry::new_integer("i64"));
    let pet = space.assign_type(struct_entry(
        "Pet",
        false,
        vec![
            property("name", StructPropertyState::Required, string),
            property("age", StructPropertyState::Optional, int),
        ],
    ));
    let id = space.assign_type(newtype_entry("Id", string, TypeEntryNewtypeConstraints::Unconstrained));
    let e = TypeEntryEnum {
        description: None,
        ..enum_entry(
            "Shape",
            EnumTagType::External,
            vec![
                variant("Dot", VariantDetails::Simple),
                variant("Circle", VariantDetails::Item(int)),
                variant("Pair", VariantDetails::Tuple(vec![int, int])),
                variant("Named", VariantDetails::Struct(vec![property("label", StructPropertyState::Required, string)])),
            ],
        )
    };
    let shape = space.assign_type(TypeEntry::from_details(TypeEntryDetails::Enum(e)));
    let tuple = space.assign_type(TypeEntry::from_details(TypeEntryDetails::Tuple(vec![int, string])));

    match space.get_type(pet).unwrap().details() {
        TypeDetails::Struct(s) => {
            assert_eq!(s.properties(), vec![("name", string), ("age", int)]);
            let info = s.properties_info();
            assert_eq!(info.len(), 2);
            assert!(info[0].required && !info[1].required);
            assert_eq!(info[1].name, "age");
            assert_eq!(info[1].type_id, int);
        }
        _ => panic!("expected a struct"),
    }
    match space.get_type(id).unwrap().details() {
        TypeDetails::Newtype(n) => assert_eq!(n.inner(), string),
        _ => panic!("expected a newtype"),
    }
    match space.get_type(shape).unwrap().details() {
        TypeDetails::Enum(en) => {
            let info = en.variants_info();
            assert_eq!(info.len(), 4);
            assert_eq!(info[1].name, "Circle");
            assert!(matches!(&info[0].details, TypeEnumVariant::Simple));
            assert!(matches!(&info[1].details, TypeEnumVariant::Tuple(ids) if ids == &vec![int]));
            assert!(matches!(&info[2].details, TypeEnumVariant::Tuple(ids) if ids == &vec![int, int]));
            assert!(matches!(&info[3].details, TypeEnumVariant::Struct(props) if props == &vec![("label", string)]));
            let variants = en.variants();
            assert_eq!(variants.iter().map(|(n, _)| *n).collect::<Vec<_>>(), vec!["Dot", "Circle", "Pair", "Named"]);
        }
        _ => panic!("expected an enum"),
    }
    assert!(matches!(space.get_type(int).unwrap().details(), TypeDetails::Builtin("i64")));
    assert!(matches!(space.get_type(string).unwrap().details(), TypeDetails::String));
    assert!(matches!(space.get_type(tuple).unwrap().details(), TypeDetails::Tuple(ids) if ids == vec![int, string]));
}

#[test]
fn enum_finalize_caches_bespoke_impls() {
    let mut space = TypeSpace::new(TypeSpaceSettings::new());
    let string = space.assign_type(TypeEntry::from_details(TypeEntryDetails::String));
    let int = space.assign_type(TypeEntry::new_integer("u64"));

    let mut simple = enum_entry(
        "Color",
        EnumTagType::External,
        vec![variant("Red", VariantDetails::Simple), variant("Blue", VariantDetails::Simple)],
    );
    simple.finalize(&space);
    assert_eq!(simple.bespoke_impls, vec![TypeEntryEnumImpl::AllSimpleVariants]);

    let mut numbers = enum_entry(
        "Number",
        EnumTagType::Untagged,
        vec![variant("A", VariantDetails::Item(int))],
    );
    numbers.finalize(&space);
    assert_eq!(
        numbers.bespoke_impls,
        vec![TypeEntryEnumImpl::UntaggedFromStr, TypeEntryEnumImpl::UntaggedDisplay]
    );

    let mut text = enum_entry(
        "Text",
        EnumTagType::Untagged,
        vec![variant("A", VariantDetails::Item(int)), variant("B", VariantDetails::Item(string))],
    );
    text.finalize(&space);
    assert_eq!(
        text.bespoke_impls,
        vec![TypeEntryEnumImpl::UntaggedDisplay, TypeEntryEnumImpl::UntaggedFromStringIrrefutable]
    );

    let mut empty = enum_entry("Empty", EnumTagType::External, vec![]);
    empty.finalize(&space);
    assert!(empty.bespoke_impls.is_empty());
}

#[test]
fn derive_lists() {
    let base = strings(&["::serde::Serialize", "::serde::Deserialize", "Debug", "Clone"]);
    let settings = TypeSpaceSettings::new();
    let list = compute_derive_list_denying(
        &settings,
        TypeKind::Struct,
        &base,
        &strings(&["Eq", "Clone"]),
        &strings(&["PartialEq"]),
        &strings(&["::serde::Deserialize"]),
    );
    assert_eq!(list, strings(&["::serde::Serialize", "Clone", "Debug", "Eq", "PartialEq"]));

    let mut settings = TypeSpaceSettings::new();
    settings
        .with_unconditional_derive("Default")
        .with_unconditional_derive_for("Debug", TypeKindFilter::structs_only())
        .with_unconditional_derive_for("Hash", TypeKindFilter::enums_only());
    let list = compute_derive_list_denying(
        &settings,
        TypeKind::Struct,
        &base,
        &strings(&["Zed", "Debug"]),
        &strings(&["Alpha"]),
        &strings(&[]),
    );
    assert_eq!(list, strings(&["Default", "Debug", "Alpha", "Zed"]));
}

#[test]
fn attribute_lists_by_kind_and_position() {
    let mut settings = TypeSpaceSettings::new();
    settings
        .with_unconditional_attr("serde_with::skip_serializing_none")
        .with_unconditional_attr_at("patch(attribute(derive(Debug)))", AttrPosition::AfterDerive, TypeKindFilter::structs_only())
        .with_conditional_attr_at("f", "a", AttrPosition::AfterDerive, TypeKindFilter::all())
        .with_conditional_attr_for("g", "b", TypeKindFilter::enums_only())
        .with_conditional_derive_for("patch", "struct_patch::Patch", TypeKindFilter::structs_only());
    let lists = type_attr_lists(&settings, TypeKind::Struct);
    assert_eq!(lists.uncond_pre, strings(&["serde_with::skip_serializing_none"]));
    assert_eq!(lists.uncond_post, strings(&["patch(attribute(derive(Debug)))"]));
    assert!(lists.cond_pre.is_empty());
    assert_eq!(lists.cond_post, vec![("f".to_string(), "a".to_string())]);
    assert_eq!(lists.cond_derives, vec![("patch".to_string(), "struct_patch::Patch".to_string())]);
    let lists = type_attr_lists(&settings, TypeKind::Enum);
    assert!(lists.uncond_post.is_empty());
    assert_eq!(lists.cond_pre, vec![("g".to_string(), "b".to_string())]);
    assert!(lists.cond_derives.is_empty());
    assert_eq!(
        strings_to_attrs(&strings(&["b", "a"]), &strings(&["c", "a"])),
        strings(&["a", "b", "c"])
    );
}

#[test]
fn sorted_strings() {
    assert!(str_lt("Clone", "Debug"));
    assert!(str_lt("::serde", "Clone"));
    assert!(str_lt("a", "ab"));
    assert!(!str_lt("ab", "a"));
    assert!(!str_lt("x", "x"));
    assert_eq!(sorted_union(&strings(&["b", "a", "b"]), &strings(&["c", "a"])), strings(&["a", "b", "c"]));
}

#[test]
fn deep_patch_decisions() {
    let mut settings = TypeSpaceSettings::new();
    settings.with_deep_patches(DeepPatchPolicy::AllOptionStructs);
    let mut space = TypeSpace::new(settings);
    let inner = space.assign_type(struct_entry("Inner", false, vec![]));
    let boxed = space.id_to_box(inner);
    let opt = space.id_to_option(inner);
    let opt_boxed = space.id_to_option(boxed);
    let int = space.assign_type(TypeEntry::new_integer("u8"));
    let opt_int = space.id_to_option(int);

    let field = property("inner", StructPropertyState::Optional, opt);
    assert_eq!(deep_patch_inner(&space, &field, false), Some("Inner"));
    let field = property("boxed", StructPropertyState::Optional, opt_boxed);
    assert_eq!(deep_patch_inner(&space, &field, false), Some("Inner"));
    let field = property("bare", StructPropertyState::Required, inner);
    assert_eq!(deep_patch_inner(&space, &field, false), None);
    let field = property("number", StructPropertyState::Optional, opt_int);
    assert_eq!(deep_patch_inner(&space, &field, false), None);
    let mut flat = property("base", StructPropertyState::Optional, opt);
    flat.rename = StructPropertyRename::Flatten;
    assert_eq!(deep_patch_inner(&space, &flat, true), None);

    assert!(deep_patch_allowed(&space.settings, None));
    assert!(!deep_patch_allowed(&space.settings, Some(false)));
    assert!(!deep_patch_allowed(&TypeSpaceSettings::new(), None));
    assert_eq!(deep_patch_name("Inner"), "Option<InnerPatch>");

    let plain = TypeSpace::new(TypeSpaceSettings::new());
    let field = property("inner", StructPropertyState::Optional, opt);
    assert_eq!(deep_patch_inner(&plain, &field, false), None);
}
