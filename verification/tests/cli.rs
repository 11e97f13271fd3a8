use typify::cli::{
    cli_settings, format_type_key, macro_settings, parse_all_of_strategy, parse_unknown_policy,
    use_builder, CrateSpecArg, MacroConditional, MacroCrateSpec, MacroOptions,
};
use typify::json::JsonValue;
use typify::settings::{
    AllOfStrategy, ArrayOptionality, AttrPosition, CrateVers, DeepPatchPolicy,
    DefaultBoolOptionality, DefaultedFieldOptionality, MapType, TypeSpacePatch,
    TypeSpaceSettings, UnknownPolicy,
};
use typify::{TypeKindFilter, TypeSpaceImpl};

fn strings(xs: &[&str]) -> Vec<String> {
    xs.iter().map(|x| x.to_string()).collect()
}

/// The settings for the options of `cargo typify input.json` with the given
/// builder flags and map type, and nothing else.
fn settings(no_builder: bool, map_type: Option<&str>) -> TypeSpaceSettings {
    cli_settings(
        no_builder,
        &vec![],
        &vec![],
        vec![],
        map_type.map(|m| MapType::try_new(m).unwrap()),
        None,
        None,
        None,
        false,
    )
}

#[test]
fn test_builder_as_default_style() {
    // `builder: false, no_builder: false`
    assert!(use_builder(false));
    assert!(settings(false, None).struct_builder);
}

#[test]
fn test_no_builder() {
    // `builder: false, no_builder: true`
    assert!(!use_builder(true));
    assert!(!settings(true, None).struct_builder);
}

#[test]
fn test_builder_opt_in() {
    // `builder: true, no_builder: false`
    assert!(use_builder(false));
    assert!(settings(false, None).struct_builder);
}

#[test]
fn test_use_btree_map() {
    let s = settings(false, Some("::std::collections::BTreeMap"));
    assert_eq!(s.map_type.path, "::std::collections::BTreeMap".to_string());
    assert_eq!(settings(false, None).map_type.path, "::std::collections::HashMap");
}

#[test]
fn option_values() {
    assert_eq!(parse_unknown_policy("generate"), Some(UnknownPolicy::Generate));
    assert_eq!(parse_unknown_policy("allow"), Some(UnknownPolicy::Allow));
    assert_eq!(parse_unknown_policy("deny"), Some(UnknownPolicy::Deny));
    assert_eq!(parse_unknown_policy("Deny"), None);
    assert_eq!(parse_all_of_strategy("merge"), Some(AllOfStrategy::Merge));
    assert_eq!(parse_all_of_strategy("compose"), Some(AllOfStrategy::Compose));
    assert_eq!(parse_all_of_strategy("flatten"), None);
}

#[test]
fn command_line_settings() {
    let crates = vec![
        CrateSpecArg::parse("uuid@1.0.0").unwrap(),
        CrateSpecArg::parse("chrono@*").unwrap(),
        CrateSpecArg::parse("my_uuid=uuid@!").unwrap(),
    ];
    let s = cli_settings(
        false,
        &strings(&["Eq", "Hash", "Eq"]),
        &strings(&["serde_with::skip_serializing_none"]),
        crates,
        None,
        Some("deny"),
        Some("compose"),
        Some("Other"),
        true,
    );
    assert!(s.struct_builder);
    assert_eq!(s.extra_derives, strings(&["Eq", "Hash"]));
    assert_eq!(s.extra_attrs, strings(&["serde_with::skip_serializing_none"]));
    assert_eq!(s.crates.len(), 2);
    assert_eq!(s.crates[0].0, "uuid");
    assert!(matches!(s.crates[0].1.version, CrateVers::Never));
    assert_eq!(s.crates[0].1.rename, Some("my_uuid".to_string()));
    assert_eq!(s.crates[1].0, "chrono");
    assert!(matches!(s.crates[1].1.version, CrateVers::Any));
    assert_eq!(s.unknown_crates, UnknownPolicy::Deny);
    assert_eq!(s.allof_strategy, AllOfStrategy::Compose);
    assert_eq!(s.open_enum_variant, Some("Other".to_string()));
    assert!(!s.include_schema_in_docs);
    assert_eq!(s.map_type.path, "::std::collections::HashMap");

    let d = settings(true, None);
    assert!(d.extra_derives.is_empty() && d.crates.is_empty());
    assert_eq!(d.unknown_crates, UnknownPolicy::Generate);
    assert_eq!(d.allof_strategy, AllOfStrategy::Merge);
    assert!(d.include_schema_in_docs);
    assert!(d.open_enum_variant.is_none());
}

fn macro_options() -> MacroOptions {
    MacroOptions {
        derives: vec![],
        attrs: vec![],
        struct_builder: false,
        unknown_crates: UnknownPolicy::Generate,
        crates: vec![],
        map_type: None,
        patch: vec![],
        replace: vec![],
        convert: vec![],
        date_type: None,
        date_time_type: None,
        uuid_type: None,
        unconstrained_string: false,
        unconstrained_int: false,
        array_optionality: ArrayOptionality::Bare,
        default_bool_optionality: DefaultBoolOptionality::Bare,
        defaulted_field_optionality: DefaultedFieldOptionality::Bare,
        elide_option_field_defaults: false,
        deep_patches: DeepPatchPolicy::Off,
        allof_strategy: AllOfStrategy::Merge,
        include_schema_in_docs: None,
        string_newtype_conveniences: false,
        conditional_derives: vec![],
        conditional_attrs: vec![],
    }
}

#[test]
fn macro_settings_from_options() {
    // The options `derives = [::foo::Foo, ::bar::Bar], replace = { Baz =
    // ::baz::Baz }, struct_builder = true, map_type = ::my::map::Type`.
    let mut opts = macro_options();
    opts.derives = strings(&[":: foo :: Foo", ":: bar :: Bar"]);
    opts.replace = vec![("Baz".to_string(), ":: baz :: Baz".to_string(), vec![])];
    opts.struct_builder = true;
    opts.map_type = MapType::try_new("::my::map::Type");
    let s = macro_settings(opts);
    assert_eq!(s.extra_derives, strings(&[":: foo :: Foo", ":: bar :: Bar"]));
    assert_eq!(s.replace.len(), 1);
    assert_eq!(s.replace[0].0, "Baz");
    assert_eq!(s.replace[0].1.replace_type, ":: baz :: Baz");
    assert!(s.struct_builder);
    assert_eq!(s.map_type.path, "::my::map::Type");
    assert!(s.include_schema_in_docs);
}

#[test]
fn macro_settings_record_everything_in_order() {
    let mut opts = macro_options();
    opts.attrs = strings(&["serde_with::skip_serializing_none", "serde_with::skip_serializing_none"]);
    opts.unknown_crates = UnknownPolicy::Allow;
    opts.crates = vec![
        ("uuid".to_string(), MacroCrateSpec::parse("1.0.0").unwrap()),
        ("my_chrono".to_string(), MacroCrateSpec::parse("chrono@*").unwrap()),
        ("uuid".to_string(), MacroCrateSpec::parse("!").unwrap()),
    ];
    opts.patch = vec![
        ("Pet".to_string(), TypeSpacePatch::from_parts(Some("Animal"), &strings(&["Eq"]), &vec![])),
        ("Pet".to_string(), TypeSpacePatch::from_parts(None, &vec![], &strings(&["non_exhaustive"]))),
    ];
    opts.convert = vec![(
        vec![("type".to_string(), JsonValue::String("string".to_string()))],
        "::my::Text".to_string(),
        vec![TypeSpaceImpl::Display],
    )];
    opts.date_type = Some("::time::Date".to_string());
    opts.unconstrained_int = true;
    opts.deep_patches = DeepPatchPolicy::AllOptionStructs;
    opts.include_schema_in_docs = Some(false);
    opts.string_newtype_conveniences = true;
    opts.conditional_derives = vec![MacroConditional {
        feature: "schemars".to_string(),
        body: "schemars :: JsonSchema".to_string(),
        kinds: Some("structs".to_string()),
    }];
    opts.conditional_attrs = vec![MacroConditional {
        feature: "strict".to_string(),
        body: "serde (deny_unknown_fields)".to_string(),
        kinds: None,
    }];
    let s = macro_settings(opts);
    assert_eq!(s.extra_attrs, strings(&["serde_with::skip_serializing_none"]));
    assert_eq!(s.unknown_crates, UnknownPolicy::Allow);
    assert_eq!(s.crates.len(), 2);
    assert_eq!(s.crates[0].0, "uuid");
    assert!(matches!(s.crates[0].1.version, CrateVers::Never));
    assert_eq!(s.crates[0].1.rename, None);
    assert_eq!(s.crates[1].0, "chrono");
    assert!(matches!(s.crates[1].1.version, CrateVers::Any));
    assert_eq!(s.crates[1].1.rename, Some("my_chrono".to_string()));
    assert_eq!(s.patch.len(), 1);
    assert_eq!(s.patch[0].1.rename, None);
    assert_eq!(s.patch[0].1.attrs, strings(&["non_exhaustive"]));
    assert_eq!(s.convert.len(), 1);
    assert_eq!(s.convert[0].name, "::my::Text");
    assert_eq!(s.date_type, Some("::time::Date".to_string()));
    assert!(s.unconstrained_int && !s.unconstrained_string);
    assert_eq!(s.deep_patches, DeepPatchPolicy::AllOptionStructs);
    assert!(!s.include_schema_in_docs);
    assert!(s.string_newtype_conveniences);
    assert_eq!(s.conditional_derives.len(), 1);
    assert_eq!(s.conditional_derives[0].cfg, "schemars");
    assert_eq!(s.conditional_derives[0].kinds, TypeKindFilter::structs_only());
    assert_eq!(s.conditional_attrs.len(), 1);
    assert_eq!(s.conditional_attrs[0].position, AttrPosition::BeforeDerive);
    assert_eq!(s.conditional_attrs[0].kinds, TypeKindFilter::all());
}

#[test]
fn format_type_keys() {
    assert_eq!(
        format_type_key("string/date-time").unwrap(),
        ("string".to_string(), "date-time".to_string())
    );
    assert_eq!(format_type_key("a/b/c").unwrap(), ("a".to_string(), "b/c".to_string()));
    assert_eq!(
        format_type_key("decimal").unwrap_err(),
        "format_types key \"decimal\" must be \"<instance-type>/<format>\", e.g. \"string/date-time\""
    );
    assert_eq!(
        format_type_key("a\"b\\c").unwrap_err(),
        "format_types key \"a\\\"b\\\\c\" must be \"<instance-type>/<format>\", e.g. \"string/date-time\""
    );
}

#[test]
fn crate_versions_keep_their_parts() {
    match CrateVers::parse("1.2.3-alpha.1+build.5") {
        Some(CrateVers::Version(v)) => {
            assert_eq!((v.major, v.minor, v.patch), (1, 2, 3));
            assert_eq!(v.pre, "alpha.1");
            assert_eq!(v.build, "build.5");
        }
        other => panic!("unexpected {:?}", other),
    }
    let spec = CrateSpecArg::parse("serde@1.0.0").unwrap();
    assert_eq!(spec.name, "serde");
    assert!(spec.rename.is_none());
    match spec.version {
        CrateVers::Version(v) => {
            assert_eq!((v.major, v.minor, v.patch), (1, 0, 0));
            assert!(v.pre.is_empty() && v.build.is_empty());
        }
        other => panic!("unexpected {:?}", other),
    }
    let spec = CrateSpecArg::parse("foo=bar@*").unwrap();
    assert_eq!(spec.name, "bar");
    assert_eq!(spec.rename, Some("foo".to_string()));
    assert!(matches!(spec.version, CrateVers::Any));
    assert!(matches!(CrateSpecArg::parse("bar@!").unwrap().version, CrateVers::Never));
    for bad in ["serde", "1x@1.0.0", "serde@1.0"] {
        assert_eq!(
            CrateSpecArg::parse(bad).unwrap_err(),
            "crate specifier must be of the form 'cratename@version'"
        );
    }
    match MacroCrateSpec::parse("2.10.0").unwrap().version {
        CrateVers::Version(v) => assert_eq!((v.major, v.minor, v.patch), (2, 10, 0)),
        other => panic!("unexpected {:?}", other),
    }
}

#[test]
fn patches_from_parts() {
    let p = TypeSpacePatch::from_parts(Some("Animal"), &strings(&["Eq", "Hash"]), &strings(&["non_exhaustive"]));
    assert_eq!(p.rename, Some("Animal".to_string()));
    assert_eq!(p.derives, strings(&["Eq", "Hash"]));
    assert_eq!(p.attrs, strings(&["non_exhaustive"]));
    let p = TypeSpacePatch::from_parts(None, &vec![], &vec![]);
    assert!(p.rename.is_none() && p.derives.is_empty() && p.attrs.is_empty());
}
