//! What the item generated for a user-defined type holds: its derives, its
//! container-level serde options, where its `Default` impl comes from, and
//! which optional impls accompany it. The code that writes the item turns
//! these decisions into tokens.

use vstd::prelude::*;

use crate::attrs::{
    compute_derive_list, compute_derive_list_denying, is_derive_list, without, without_exec,
};
use crate::settings::{contains_string, seq_has, strings_view, TypeSpaceSettings};
use crate::ident::{ident_defined, ident_within, spec_ident};
use crate::space::{
    all_simple, entry_of, has_impl_checked, impl_defined, spec_has_impl, TypeSpace,
};
use crate::strings::{str_equal, string_of};
use crate::type_entry::{
    last_path_segment, path_last_segment, EnumTagType, TypeEntry, TypeEntryDetails,
    TypeEntryEnum, TypeEntryEnumImpl, TypeEntryNewtype, TypeEntryNewtypeConstraints,
    TypeEntryStruct, Variant, VariantDetails,
};
use crate::{TypeId, TypeKind, TypeSpaceImpl};

verus! {

/// A container-level `#[serde(..)]` option.
#[derive(Debug)]
pub enum SerdeOption {
    Rename(String),
    RenameAll(String),
    Tag(String),
    Content(String),
    Untagged,
    DenyUnknownFields,
}

/// A serde option with its text as characters.
pub enum SerdeOptionView {
    Rename(Seq<char>),
    RenameAll(Seq<char>),
    Tag(Seq<char>),
    Content(Seq<char>),
    Untagged,
    DenyUnknownFields,
}

impl View for SerdeOption {
    type V = SerdeOptionView;

    open spec fn view(&self) -> SerdeOptionView {
        match self {
            SerdeOption::Rename(s) => SerdeOptionView::Rename(s@),
            SerdeOption::RenameAll(s) => SerdeOptionView::RenameAll(s@),
            SerdeOption::Tag(s) => SerdeOptionView::Tag(s@),
            SerdeOption::Content(s) => SerdeOptionView::Content(s@),
            SerdeOption::Untagged => SerdeOptionView::Untagged,
            SerdeOption::DenyUnknownFields => SerdeOptionView::DenyUnknownFields,
        }
    }
}

/// The views of a list of serde options.
pub open spec fn options_view(s: Seq<SerdeOption>) -> Seq<SerdeOptionView> {
    s.map_values(|o: SerdeOption| o@)
}

/// The `rename` option of a type renamed from its schema name.
pub open spec fn rename_option(rename: Option<String>) -> Seq<SerdeOptionView> {
    match rename {
        Some(n) => seq![SerdeOptionView::Rename(n@)],
        None => seq![],
    }
}

/// The `deny_unknown_fields` option, where asked for.
pub open spec fn deny_option(deny: bool) -> Seq<SerdeOptionView> {
    if deny {
        seq![SerdeOptionView::DenyUnknownFields]
    } else {
        seq![]
    }
}

/// The options that an enum's tagging calls for.
pub open spec fn tagging_options(t: EnumTagType) -> Seq<SerdeOptionView> {
    match t {
        EnumTagType::External => seq![],
        EnumTagType::Internal { tag } => seq![SerdeOptionView::Tag(tag@)],
        EnumTagType::Adjacent { tag, content } => seq![
            SerdeOptionView::Tag(tag@),
            SerdeOptionView::Content(content@),
        ],
        EnumTagType::Untagged => seq![SerdeOptionView::Untagged],
    }
}

/// The serde options of a generated enum: its rename, then what its tagging
/// calls for, then `deny_unknown_fields`.
pub open spec fn spec_enum_serde_options(e: TypeEntryEnum) -> Seq<SerdeOptionView> {
    rename_option(e.rename) + tagging_options(e.tag_type) + deny_option(e.deny_unknown_fields)
}

/// The struct-wide `rename_all` option: configured, and no field case set.
pub open spec fn rename_all_option(settings: TypeSpaceSettings) -> Seq<SerdeOptionView> {
    match (settings.serde_field_case, settings.struct_rename_all) {
        (None, Some(case)) => seq![SerdeOptionView::RenameAll(case@)],
        _ => seq![],
    }
}

/// The serde options of a generated struct: its rename, then the
/// struct-wide `rename_all` where one is configured and no field case is
/// set, then `deny_unknown_fields`.
pub open spec fn spec_struct_serde_options(settings: TypeSpaceSettings, s: TypeEntryStruct) -> Seq<SerdeOptionView> {
    rename_option(s.rename) + rename_all_option(settings) + deny_option(s.deny_unknown_fields)
}

fn push_rename(out: &mut Vec<SerdeOption>, rename: &Option<String>)
    ensures
        options_view(final(out)@) == options_view(old(out)@) + rename_option(*rename),
{
    let ghost before = options_view(out@);
    if let Some(n) = rename {
        out.push(SerdeOption::Rename(n.clone()));
    }
    assert(options_view(out@) =~= before + rename_option(*rename));
}

fn push_deny(out: &mut Vec<SerdeOption>, deny: bool)
    ensures
        options_view(final(out)@) == options_view(old(out)@) + deny_option(deny),
{
    let ghost before = options_view(out@);
    if deny {
        out.push(SerdeOption::DenyUnknownFields);
    }
    assert(options_view(out@) =~= before + deny_option(deny));
}

/// The container-level serde options of a generated enum.
pub fn enum_serde_options(e: &TypeEntryEnum) -> (r: Vec<SerdeOption>)
    ensures
        options_view(r@) == spec_enum_serde_options(*e),
{
    let mut out: Vec<SerdeOption> = Vec::new();
    assert(options_view(out@) =~= Seq::<SerdeOptionView>::empty());
    push_rename(&mut out, &e.rename);
    let ghost before = options_view(out@);
    match &e.tag_type {
        EnumTagType::External => {},
        EnumTagType::Internal { tag } => {
            out.push(SerdeOption::Tag(tag.clone()));
        },
        EnumTagType::Adjacent { tag, content } => {
            out.push(SerdeOption::Tag(tag.clone()));
            out.push(SerdeOption::Content(content.clone()));
        },
        EnumTagType::Untagged => {
            out.push(SerdeOption::Untagged);
        },
    }
    assert(options_view(out@) =~= before + tagging_options(e.tag_type));
    push_deny(&mut out, e.deny_unknown_fields);
    out
}

/// The container-level serde options of a generated struct.
pub fn struct_serde_options(settings: &TypeSpaceSettings, s: &TypeEntryStruct) -> (r: Vec<SerdeOption>)
    ensures
        options_view(r@) == spec_struct_serde_options(*settings, *s),
{
    let mut out: Vec<SerdeOption> = Vec::new();
    assert(options_view(out@) =~= Seq::<SerdeOptionView>::empty());
    push_rename(&mut out, &s.rename);
    let ghost before = options_view(out@);
    if settings.serde_field_case.is_none() {
        if let Some(case) = &settings.struct_rename_all {
            out.push(SerdeOption::RenameAll(case.clone()));
        }
    }
    assert(options_view(out@) =~= before + rename_all_option(*settings));
    push_deny(&mut out, s.deny_unknown_fields);
    out
}

/// Where the `Default` impl of a generated type comes from.
#[derive(Debug)]
pub enum DefaultPlan {
    /// No impl is written.
    NoImpl,
    /// The impl builds the schema's default value.
    SchemaValue,
    /// The impl builds each field from the field's own default.
    FieldDefaults,
    /// The impl gives the named unit variant.
    Variant(String),
}

/// A default plan with the variant name as characters.
pub enum DefaultPlanView {
    NoImpl,
    SchemaValue,
    FieldDefaults,
    Variant(Seq<char>),
}

impl View for DefaultPlan {
    type V = DefaultPlanView;

    open spec fn view(&self) -> DefaultPlanView {
        match self {
            DefaultPlan::NoImpl => DefaultPlanView::NoImpl,
            DefaultPlan::SchemaValue => DefaultPlanView::SchemaValue,
            DefaultPlan::FieldDefaults => DefaultPlanView::FieldDefaults,
            DefaultPlan::Variant(n) => DefaultPlanView::Variant(n@),
        }
    }
}

/// Whether an unconditional derive of `Default` selects the kind: the
/// derive then provides the impl, and a hand-written one would clash.
pub open spec fn default_derived_for(settings: TypeSpaceSettings, kind: TypeKind) -> bool {
    exists|i: int|
        0 <= i < settings.unconditional_derives@.len()
            && (#[trigger] settings.unconditional_derives@[i]).derive@ == "Default"@
            && settings.unconditional_derives@[i].kinds.selects(kind)
}

/// Whether an unconditional derive of `Default` selects the kind.
pub fn unconditional_default(settings: &TypeSpaceSettings, kind: TypeKind) -> (r: bool)
    ensures
        r == default_derived_for(*settings, kind),
{
    let mut i: usize = 0;
    while i < settings.unconditional_derives.len()
        invariant
            i <= settings.unconditional_derives.len(),
            forall|k: int| 0 <= k < i ==> !((#[trigger] settings.unconditional_derives@[k]).derive@ == "Default"@
                && settings.unconditional_derives@[k].kinds.selects(kind)),
        decreases settings.unconditional_derives.len() - i,
    {
        let u = &settings.unconditional_derives[i];
        if str_equal(u.derive.as_str(), "Default") && u.kinds.matches(kind) {
            return true;
        }
        i = i + 1;
    }
    false
}

/// The identifier of the first unit variant that has one.
pub open spec fn first_simple_ident(vs: Seq<Variant>) -> Option<Seq<char>>
    decreases vs.len(),
{
    if vs.len() == 0 {
        None
    } else if vs[0].details is Simple && vs[0].ident_name is Some {
        Some(vs[0].ident_name->0@)
    } else {
        first_simple_ident(vs.drop_first())
    }
}

fn first_simple_variant(vs: &Vec<Variant>) -> (r: Option<String>)
    ensures
        match r {
            Some(n) => first_simple_ident(vs@) == Some(n@),
            None => first_simple_ident(vs@) is None,
        },
{
    let mut i: usize = 0;
    assert(vs@.skip(0) =~= vs@);
    while i < vs.len()
        invariant
            i <= vs.len(),
            first_simple_ident(vs@.skip(i as int)) == first_simple_ident(vs@),
        decreases vs.len() - i,
    {
        let ghost rest = vs@.skip(i as int);
        assert(rest[0] == vs@[i as int]);
        assert(rest.drop_first() =~= vs@.skip(i + 1));
        if let VariantDetails::Simple = vs[i].details {
            if let Some(n) = &vs[i].ident_name {
                return Some(n.clone());
            }
        }
        i = i + 1;
    }
    None
}

/// The default of a generated enum: the schema's default value, else, where
/// the settings ask for it, its first unit variant.
pub open spec fn spec_enum_default(settings: TypeSpaceSettings, e: TypeEntryEnum) -> DefaultPlanView {
    if e.default is Some {
        DefaultPlanView::SchemaValue
    } else if settings.enum_first_variant_default {
        match first_simple_ident(e.variants@) {
            Some(n) => DefaultPlanView::Variant(n),
            None => DefaultPlanView::NoImpl,
        }
    } else {
        DefaultPlanView::NoImpl
    }
}

/// The default of a generated struct, unless a derive provides it: the
/// schema's default value, else the fields' own defaults where every field
/// has one.
pub open spec fn spec_struct_default(settings: TypeSpaceSettings, s: TypeEntryStruct, field_defaults: Seq<bool>) -> DefaultPlanView {
    if default_derived_for(settings, TypeKind::Struct) {
        DefaultPlanView::NoImpl
    } else if s.default is Some {
        DefaultPlanView::SchemaValue
    } else if forall|k: int| 0 <= k < field_defaults.len() ==> #[trigger] field_defaults[k] {
        DefaultPlanView::FieldDefaults
    } else {
        DefaultPlanView::NoImpl
    }
}

/// The default of a generated enum.
pub fn enum_default(settings: &TypeSpaceSettings, e: &TypeEntryEnum) -> (r: DefaultPlan)
    ensures
        r@ == spec_enum_default(*settings, *e),
{
    if e.default.is_some() {
        DefaultPlan::SchemaValue
    } else if settings.enum_first_variant_default {
        match first_simple_variant(&e.variants) {
            Some(n) => DefaultPlan::Variant(n),
            None => DefaultPlan::NoImpl,
        }
    } else {
        DefaultPlan::NoImpl
    }
}

/// The default of a generated struct, given for each field whether it has
/// a default of its own.
pub fn struct_default(settings: &TypeSpaceSettings, s: &TypeEntryStruct, field_defaults: &Vec<bool>) -> (r: DefaultPlan)
    ensures
        r@ == spec_struct_default(*settings, *s, field_defaults@),
{
    if unconditional_default(settings, TypeKind::Struct) {
        return DefaultPlan::NoImpl;
    }
    if s.default.is_some() {
        return DefaultPlan::SchemaValue;
    }
    let mut i: usize = 0;
    while i < field_defaults.len()
        invariant
            i <= field_defaults.len(),
            !default_derived_for(*settings, TypeKind::Struct),
            s.default is None,
            forall|k: int| 0 <= k < i ==> #[trigger] field_defaults@[k],
        decreases field_defaults.len() - i,
    {
        if !field_defaults[i] {
            assert(!field_defaults@[i as int]);
            return DefaultPlan::NoImpl;
        }
        i = i + 1;
    }
    DefaultPlan::FieldDefaults
}

/// The type ids that a variant wraps, as the key of the `From` impl that
/// would build it: the item of a newtype variant, the items of a tuple
/// variant; none for other variants.
pub open spec fn variant_key(v: Variant) -> Option<Seq<TypeId>> {
    match v.details {
        VariantDetails::Item(t) => Some(seq![t]),
        VariantDetails::Tuple(ts) => Some(ts@),
        _ => None,
    }
}

/// Whether variant `i` has a key that no other variant shares.
pub open spec fn key_unique(vs: Seq<Variant>, i: int) -> bool {
    &&& variant_key(vs[i]) is Some
    &&& forall|j: int| 0 <= j < vs.len() && j != i ==> variant_key(#[trigger] vs[j]) != variant_key(vs[i])
}

/// Whether an entry is a string type: `String`, or the native
/// `::std::string::String`.
pub open spec fn is_string_entry(e: TypeEntry) -> bool {
    ||| e.details is String
    ||| (e.details matches TypeEntryDetails::Native(n) && n.path@ == "::std::string::String"@)
}

/// Whether the enum gets a `From` impl building variant `i` from what it
/// wraps: its key is unique, and a newtype variant does not wrap a string
/// (whose `From` would collide with the string conversions).
pub open spec fn from_variant(space: TypeSpace, vs: Seq<Variant>, i: int) -> bool {
    &&& key_unique(vs, i)
    &&& match vs[i].details {
        VariantDetails::Item(t) => !is_string_entry(entry_of(space, t)->0),
        _ => true,
    }
}

/// The indices below `n` of the variants that get a `From` impl, in order.
pub open spec fn from_indices(space: TypeSpace, vs: Seq<Variant>, n: nat) -> Seq<usize>
    decreases n,
{
    if n == 0 {
        seq![]
    } else {
        let prev = from_indices(space, vs, (n - 1) as nat);
        if from_variant(space, vs, n - 1) {
            prev.push((n - 1) as usize)
        } else {
            prev
        }
    }
}

fn same_key(a: &Variant, b: &Variant) -> (r: bool)
    ensures
        r == (variant_key(*a) is Some && variant_key(*a) == variant_key(*b)),
{
    match (&a.details, &b.details) {
        (VariantDetails::Item(x), VariantDetails::Item(y)) => {
            if *x == *y {
                assert(seq![*x] =~= seq![*y]);
                true
            } else {
                assert(seq![*x][0] != seq![*y][0]);
                false
            }
        },
        (VariantDetails::Item(x), VariantDetails::Tuple(ys)) => {
            if ys.len() == 1 && ys[0] == *x {
                assert(ys@ =~= seq![*x]);
                true
            } else {
                assert(ys@.len() != 1 || ys@[0] != seq![*x][0]);
                false
            }
        },
        (VariantDetails::Tuple(xs), VariantDetails::Item(y)) => {
            if xs.len() == 1 && xs[0] == *y {
                assert(xs@ =~= seq![*y]);
                true
            } else {
                assert(xs@.len() != 1 || xs@[0] != seq![*y][0]);
                false
            }
        },
        (VariantDetails::Tuple(xs), VariantDetails::Tuple(ys)) => crate::space::same_ids(xs, ys),
        _ => false,
    }
}

fn string_entry(space: &TypeSpace, id: TypeId) -> (r: bool)
    requires
        entry_of(*space, id) is Some,
    ensures
        r == is_string_entry(entry_of(*space, id)->0),
{
    match space.get_entry(id) {
        Some(e) => match &e.details {
            TypeEntryDetails::String => true,
            TypeEntryDetails::Native(n) => str_equal(n.path.as_str(), "::std::string::String"),
            _ => false,
        },
        None => false,
    }
}

/// The indices of the variants that get a `From` impl building them from
/// what they wrap, in order (see [`from_variant`]). The newtype variants
/// with unique keys must wrap types of the type space.
pub fn convenience_from_variants(space: &TypeSpace, vs: &Vec<Variant>) -> (r: Vec<usize>)
    requires
        forall|i: int| 0 <= i < vs@.len() && key_unique(vs@, i) ==> match #[trigger] vs@[i].details {
            VariantDetails::Item(t) => entry_of(*space, t) is Some,
            _ => true,
        },
    ensures
        r@ == from_indices(*space, vs@, vs@.len()),
{
    let mut out: Vec<usize> = Vec::new();
    let mut i: usize = 0;
    while i < vs.len()
        invariant
            i <= vs.len(),
            out@ == from_indices(*space, vs@, i as nat),
            forall|i: int| 0 <= i < vs@.len() && key_unique(vs@, i) ==> match #[trigger] vs@[i].details {
                VariantDetails::Item(t) => entry_of(*space, t) is Some,
                _ => true,
            },
        decreases vs.len() - i,
    {
        let keyed = match &vs[i].details {
            VariantDetails::Item(_) | VariantDetails::Tuple(_) => true,
            _ => false,
        };
        let mut unique = keyed;
        let mut j: usize = 0;
        while unique && j < vs.len()
            invariant
                i < vs.len(),
                j <= vs.len(),
                keyed == (variant_key(vs@[i as int]) is Some),
                unique ==> keyed && forall|k: int| 0 <= k < j && k != i ==> variant_key(#[trigger] vs@[k]) != variant_key(vs@[i as int]),
                !unique ==> !key_unique(vs@, i as int),
            decreases vs.len() - j,
        {
            if j != i && same_key(&vs[i], &vs[j]) {
                unique = false;
            }
            j = j + 1;
        }
        assert(unique == key_unique(vs@, i as int));
        let selected = if unique {
            match &vs[i].details {
                VariantDetails::Item(t) => !string_entry(space, *t),
                _ => true,
            }
        } else {
            false
        };
        assert(selected == from_variant(*space, vs@, i as int));
        if selected {
            out.push(i);
        }
        i = i + 1;
    }
    out
}

/// The derives every generated type starts from.
pub open spec fn base_derives() -> Seq<Seq<char>> {
    seq!["::serde::Serialize"@, "::serde::Deserialize"@, "Debug"@, "Clone"@]
}

/// The comparison and hashing derives.
pub open spec fn ordering_derives() -> Seq<Seq<char>> {
    seq!["PartialOrd"@, "Ord"@, "PartialEq"@, "Eq"@, "Hash"@]
}

/// The derives an enum starts from: those of every type, and, where all
/// its variants are unit variants, the comparison and hashing derives and,
/// unless it is opened with a catch-all variant that holds a `String`,
/// `Copy`.
pub open spec fn enum_base_derives(all_unit: bool, opened: bool) -> Seq<Seq<char>> {
    if all_unit {
        base_derives() + (if opened { seq![] } else { seq!["Copy"@] }) + ordering_derives()
    } else {
        base_derives()
    }
}

/// Whether a newtype's constraints are a list of values it takes or refuses.
pub open spec fn value_constrained(c: TypeEntryNewtypeConstraints) -> bool {
    c is EnumValue || c is DenyValue
}

/// The derives a newtype starts from before its `JsonSchema` derive is
/// considered: those of every type, the comparison and hashing derives for
/// a string newtype, and the extra derives of the settings; a constrained
/// newtype deserializes by hand, so without `::serde::Deserialize`.
pub open spec fn newtype_derive_start(settings: TypeSpaceSettings, inner_is_string: bool, c: TypeEntryNewtypeConstraints) -> Seq<Seq<char>> {
    let s0 = base_derives() + (if inner_is_string { ordering_derives() } else { seq![] })
        + strings_view(settings.extra_derives@);
    if c is Unconstrained {
        s0
    } else {
        without(s0, seq!["::serde::Deserialize"@])
    }
}

/// Whether a newtype constrained to or away from a list of values writes
/// its `JsonSchema` impl by hand: a `JsonSchema` derive was asked for.
pub open spec fn newtype_json_schema(settings: TypeSpaceSettings, inner_is_string: bool, c: TypeEntryNewtypeConstraints) -> bool {
    let s1 = newtype_derive_start(settings, inner_is_string, c);
    value_constrained(c) && (seq_has(s1, "schemars::JsonSchema"@) || seq_has(s1, "::schemars::JsonSchema"@))
}

/// The derives a newtype starts from: where it writes its `JsonSchema` impl
/// by hand, without the first spelling of that derive found
/// (`schemars::JsonSchema`, else `::schemars::JsonSchema`).
pub open spec fn newtype_derive_set(settings: TypeSpaceSettings, inner_is_string: bool, c: TypeEntryNewtypeConstraints) -> Seq<Seq<char>> {
    let s1 = newtype_derive_start(settings, inner_is_string, c);
    if !value_constrained(c) {
        s1
    } else if seq_has(s1, "schemars::JsonSchema"@) {
        without(s1, seq!["schemars::JsonSchema"@])
    } else {
        without(s1, seq!["::schemars::JsonSchema"@])
    }
}

/// The derives that a constrained newtype's own impls replace.
pub open spec fn newtype_denied(c: TypeEntryNewtypeConstraints) -> Seq<Seq<char>> {
    if c is Unconstrained {
        seq![]
    } else {
        seq!["::serde::Deserialize"@, "Deserialize"@]
    }
}

fn strings_of(xs: &[&str]) -> (r: Vec<String>)
    ensures
        strings_view(r@) == xs@.map_values(|x: &str| x@),
{
    let mut out: Vec<String> = Vec::new();
    let mut i: usize = 0;
    while i < xs.len()
        invariant
            i <= xs.len(),
            strings_view(out@) == xs@.take(i as int).map_values(|x: &str| x@),
        decreases xs.len() - i,
    {
        out.push(string_of(xs[i]));
        assert(xs@.take(i + 1).map_values(|x: &str| x@) =~= xs@.take(i as int).map_values(|x: &str| x@).push(xs@[i as int]@));
        assert(strings_view(out@) =~= strings_view(out@.drop_last()).push(out@.last()@));
        i = i + 1;
    }
    assert(xs@.take(xs@.len() as int) =~= xs@);
    out
}

fn base_derive_vec(extended: bool, copy: bool) -> (r: Vec<String>)
    ensures
        strings_view(r@) == base_derives() + (if extended {
            (if copy { seq!["Copy"@] } else { seq![] }) + ordering_derives()
        } else {
            seq![]
        }),
{
    let mut v = strings_of(&["::serde::Serialize", "::serde::Deserialize", "Debug", "Clone"]);
    let ghost v0 = strings_view(v@);
    assert(v0 =~= base_derives());
    if extended {
        if copy {
            v.push(string_of("Copy"));
        }
        let ghost v1 = strings_view(v@);
        assert(v1 =~= base_derives() + (if copy { seq!["Copy"@] } else { seq![] }));
        let mut o = strings_of(&["PartialOrd", "Ord", "PartialEq", "Eq", "Hash"]);
        assert(strings_view(o@) =~= ordering_derives());
        v.append(&mut o);
        assert(strings_view(v@) =~= v1 + ordering_derives());
    } else {
        assert(strings_view(v@) =~= base_derives() + seq![]);
    }
    v
}

/// Whether every variant is a unit variant.
pub fn variants_all_simple(vs: &Vec<Variant>) -> (r: bool)
    ensures
        r == all_simple(vs@),
{
    let mut i: usize = 0;
    while i < vs.len()
        invariant
            i <= vs.len(),
            forall|k: int| 0 <= k < i ==> (#[trigger] vs@[k]).details is Simple,
        decreases vs.len() - i,
    {
        match vs[i].details {
            VariantDetails::Simple => {},
            _ => {
                return false;
            },
        }
        i = i + 1;
    }
    true
}

/// The derive list of a generated enum, given the type's own derives and
/// whether it is opened with a catch-all variant.
pub fn enum_derives(settings: &TypeSpaceSettings, own: &Vec<String>, e: &TypeEntryEnum, opened: bool) -> (r: Vec<String>)
    ensures
        is_derive_list(strings_view(r@), *settings, TypeKind::Enum, enum_base_derives(all_simple(e.variants@), opened),
            strings_view(own@), strings_view(settings.extra_derives@), Seq::empty()),
{
    let unit = variants_all_simple(&e.variants);
    let base = base_derive_vec(unit, !opened);
    assert(strings_view(base@) =~= enum_base_derives(unit, opened));
    compute_derive_list(settings, TypeKind::Enum, &base, own, &settings.extra_derives)
}

/// The derive list of a generated struct, given the type's own derives.
pub fn struct_derives(settings: &TypeSpaceSettings, own: &Vec<String>) -> (r: Vec<String>)
    ensures
        is_derive_list(strings_view(r@), *settings, TypeKind::Struct, base_derives(),
            strings_view(own@), strings_view(settings.extra_derives@), Seq::empty()),
{
    let base = base_derive_vec(false, false);
    assert(strings_view(base@) =~= base_derives());
    compute_derive_list(settings, TypeKind::Struct, &base, own, &settings.extra_derives)
}

/// The derive list of a generated newtype, given the type's own derives and
/// whether its inner type is `String`; the extra derives of the settings
/// are part of the set it starts from. Also whether it writes its
/// `JsonSchema` impl by hand.
pub fn newtype_derives(settings: &TypeSpaceSettings, own: &Vec<String>, inner_is_string: bool, c: &TypeEntryNewtypeConstraints) -> (r: (Vec<String>, bool))
    ensures
        is_derive_list(strings_view(r.0@), *settings, TypeKind::Newtype, newtype_derive_set(*settings, inner_is_string, *c),
            strings_view(own@), Seq::empty(), newtype_denied(*c)),
        r.1 == newtype_json_schema(*settings, inner_is_string, *c),
{
    let mut s0 = base_derive_vec(inner_is_string, false);
    let ghost a = strings_view(s0@);
    let mut i: usize = 0;
    while i < settings.extra_derives.len()
        invariant
            i <= settings.extra_derives.len(),
            strings_view(s0@) == a + strings_view(settings.extra_derives@).take(i as int),
        decreases settings.extra_derives.len() - i,
    {
        let ghost before = strings_view(s0@);
        s0.push(settings.extra_derives[i].clone());
        assert(strings_view(s0@) =~= before.push(settings.extra_derives@[i as int]@));
        assert(strings_view(settings.extra_derives@).take(i + 1) =~= strings_view(settings.extra_derives@).take(i as int).push(settings.extra_derives@[i as int]@));
        assert(a + strings_view(settings.extra_derives@).take(i + 1) =~= (a + strings_view(settings.extra_derives@).take(i as int)).push(settings.extra_derives@[i as int]@));
        i = i + 1;
    }
    assert(strings_view(settings.extra_derives@).take(settings.extra_derives.len() as int) =~= strings_view(settings.extra_derives@));
    assert(a =~= base_derives() + (if inner_is_string { ordering_derives() } else { seq![] })) by {
        if inner_is_string {
            assert(seq![] + ordering_derives() =~= ordering_derives());
        }
    }
    let unconstrained = match c {
        TypeEntryNewtypeConstraints::Unconstrained => true,
        _ => false,
    };
    let valued = match c {
        TypeEntryNewtypeConstraints::EnumValue(_) | TypeEntryNewtypeConstraints::DenyValue(_) => true,
        _ => false,
    };
    let s1 = if unconstrained {
        s0
    } else {
        let d = strings_of(&["::serde::Deserialize"]);
        assert(strings_view(d@) =~= seq!["::serde::Deserialize"@]);
        without_exec(&s0, &d)
    };
    let mut json_schema = false;
    let set = if !valued {
        s1
    } else if contains_string(&s1, "schemars::JsonSchema") {
        json_schema = true;
        let d = strings_of(&["schemars::JsonSchema"]);
        assert(strings_view(d@) =~= seq!["schemars::JsonSchema"@]);
        without_exec(&s1, &d)
    } else {
        json_schema = contains_string(&s1, "::schemars::JsonSchema");
        let d = strings_of(&["::schemars::JsonSchema"]);
        assert(strings_view(d@) =~= seq!["::schemars::JsonSchema"@]);
        without_exec(&s1, &d)
    };
    let denied = if unconstrained {
        Vec::new()
    } else {
        strings_of(&["::serde::Deserialize", "Deserialize"])
    };
    assert(strings_view(denied@) =~= newtype_denied(*c));
    let none: Vec<String> = Vec::new();
    assert(strings_view(none@) =~= Seq::<Seq<char>>::empty());
    let r = compute_derive_list_denying(settings, TypeKind::Newtype, &set, own, &none, &denied);
    (r, json_schema)
}

/// `s` without the character `c`.
pub open spec fn drop_char(s: Seq<char>, c: char) -> Seq<char>
    decreases s.len(),
{
    if s.len() == 0 {
        s
    } else if s.last() == c {
        drop_char(s.drop_last(), c)
    } else {
        drop_char(s.drop_last(), c).push(s.last())
    }
}

/// Whether a type expression names `String` by one of its paths.
pub open spec fn is_string_path(s: Seq<char>) -> bool {
    let t = drop_char(s, ' ');
    t == "::std::string::String"@ || t == "std::string::String"@ || t == "String"@
}

fn string_path(s: &str) -> (r: bool)
    ensures
        r == is_string_path(s@),
{
    let cs = crate::strings::chars_of(s);
    let mut t = String::new();
    let mut i: usize = 0;
    assert(s@.take(0) =~= Seq::<char>::empty());
    while i < cs.len()
        invariant
            i <= cs.len(),
            cs@ == s@,
            t@ == drop_char(s@.take(i as int), ' '),
        decreases cs.len() - i,
    {
        assert(s@.take(i + 1).drop_last() =~= s@.take(i as int));
        if cs[i] != ' ' {
            crate::strings::push_char(&mut t, cs[i]);
        }
        i = i + 1;
    }
    assert(s@.take(cs.len() as int) =~= s@);
    str_equal(t.as_str(), "::std::string::String") || str_equal(t.as_str(), "std::string::String")
        || str_equal(t.as_str(), "String")
}

/// The default of a generated newtype, unless a derive provides it: the
/// schema's default value.
pub open spec fn spec_newtype_default(settings: TypeSpaceSettings, n: TypeEntryNewtype) -> DefaultPlanView {
    if n.default is Some && !default_derived_for(settings, TypeKind::Newtype) {
        DefaultPlanView::SchemaValue
    } else {
        DefaultPlanView::NoImpl
    }
}

/// What the item generated for a newtype holds besides its definition.
#[derive(Debug)]
pub struct NewtypePlan {
    /// The derive list.
    pub derives: Vec<String>,
    /// The inner type's expression.
    pub inner_ident: String,
    /// Whether the inner value is public: the newtype is unconstrained.
    pub public_inner: bool,
    /// An unconstrained string newtype: `FromStr` that cannot fail.
    pub string_from_str: bool,
    /// An unconstrained newtype, not of a string, whose inner type parses
    /// from a string: `FromStr` and `TryFrom<&str>` through the inner type.
    pub proxy_from_str: bool,
    /// Besides those, `TryFrom<String>`: the inner type is not `String`
    /// by path (a blanket impl would collide).
    pub try_from_string: bool,
    /// An unconstrained newtype whose inner type displays, other than a
    /// string newtype with the convenience impls: `Display` through the
    /// inner type.
    pub proxy_display: bool,
    /// A string newtype with the convenience impls: `AsRef<str>` and
    /// `Display`.
    pub str_conveniences: bool,
    /// An unconstrained string newtype with the convenience impls:
    /// `From<&str>`.
    pub from_str_ref: bool,
    /// A constrained newtype: a validating constructor and `Deserialize` by
    /// hand.
    pub validating: bool,
    /// A newtype constrained to or away from a list of values, asked to
    /// derive `JsonSchema`: that impl by hand.
    pub json_schema: bool,
    /// Where its `Default` impl comes from.
    pub default: DefaultPlan,
}

/// The inner entry of a newtype.
pub open spec fn newtype_inner(space: TypeSpace, n: TypeEntryNewtype) -> TypeEntry {
    entry_of(space, n.type_id)->0
}

/// What the item generated for the newtype `n` holds, given the type's own
/// derives. Its inner type must be an entry whose expression is defined;
/// where unconstrained, whether it parses and displays must be defined
/// too; a newtype constrained to a list of values does not wrap `String`
/// (such a schema becomes an enum).
pub fn newtype_plan(space: &TypeSpace, own: &Vec<String>, n: &TypeEntryNewtype) -> (r: NewtypePlan)
    requires
        entry_of(*space, n.type_id) is Some,
        ident_defined(*space, newtype_inner(*space, *n), None),
        n.constraints is Unconstrained ==> impl_defined(*space, newtype_inner(*space, *n), TypeSpaceImpl::FromStr)
            && impl_defined(*space, newtype_inner(*space, *n), TypeSpaceImpl::Display),
        !(n.constraints is EnumValue && newtype_inner(*space, *n).details is String),
    ensures
        ({
            let inner = newtype_inner(*space, *n);
            let is_str = inner.details is String;
            let unconstrained = n.constraints is Unconstrained;
            &&& is_derive_list(strings_view(r.derives@), space.settings, TypeKind::Newtype,
                newtype_derive_set(space.settings, is_str, n.constraints), strings_view(own@), Seq::empty(),
                newtype_denied(n.constraints))
            &&& r.json_schema == newtype_json_schema(space.settings, is_str, n.constraints)
            &&& r.inner_ident@ == spec_ident(*space, inner, None)
            &&& r.public_inner == unconstrained
            &&& r.string_from_str == (unconstrained && is_str)
            &&& r.proxy_from_str == (unconstrained && !is_str && spec_has_impl(*space, inner, TypeSpaceImpl::FromStr))
            &&& r.try_from_string == (r.proxy_from_str && !is_string_path(spec_ident(*space, inner, None)))
            &&& r.proxy_display == (unconstrained && spec_has_impl(*space, inner, TypeSpaceImpl::Display)
                && !(is_str && space.settings.string_newtype_conveniences))
            &&& r.str_conveniences == (is_str && space.settings.string_newtype_conveniences)
            &&& r.from_str_ref == (is_str && space.settings.string_newtype_conveniences && unconstrained)
            &&& r.validating == !unconstrained
            &&& r.default@ == spec_newtype_default(space.settings, *n)
        }),
{
    let inner = match space.get_entry(n.type_id) {
        Some(e) => e,
        None => {
            assert(false);
            return NewtypePlan {
                derives: Vec::new(),
                inner_ident: String::new(),
                public_inner: false,
                string_from_str: false,
                proxy_from_str: false,
                try_from_string: false,
                proxy_display: false,
                str_conveniences: false,
                from_str_ref: false,
                validating: false,
                json_schema: false,
                default: DefaultPlan::NoImpl,
            };
        },
    };
    let is_str = match inner.details {
        TypeEntryDetails::String => true,
        _ => false,
    };
    let no_mod: Option<String> = None;
    let inner_ident = inner.type_ident(space, &no_mod);
    proof {
        let f = choose|f: nat| #[trigger] ident_within(*space, *inner, None, f) is Some;
        assert(ident_within(*space, *inner, None, f) is Some);
    }
    let (derives, json_schema) = newtype_derives(&space.settings, own, is_str, &n.constraints);
    let unconstrained = match n.constraints {
        TypeEntryNewtypeConstraints::Unconstrained => true,
        _ => false,
    };
    let (proxy_from_str, try_from_string, proxy_display) = if unconstrained {
        let from_str = has_impl_checked(space, inner, TypeSpaceImpl::FromStr) && !is_str;
        let try_from_string = from_str && !string_path(inner_ident.as_str());
        let display = has_impl_checked(space, inner, TypeSpaceImpl::Display)
            && !(is_str && space.string_newtype_conveniences());
        (from_str, try_from_string, display)
    } else {
        (false, false, false)
    };
    let default = if n.default.is_some() && !unconditional_default(&space.settings, TypeKind::Newtype) {
        DefaultPlan::SchemaValue
    } else {
        DefaultPlan::NoImpl
    };
    NewtypePlan {
        derives,
        inner_ident,
        public_inner: unconstrained,
        string_from_str: unconstrained && is_str,
        proxy_from_str,
        try_from_string,
        proxy_display,
        str_conveniences: is_str && space.string_newtype_conveniences(),
        from_str_ref: is_str && space.string_newtype_conveniences() && unconstrained,
        validating: !unconstrained,
        json_schema,
        default,
    }
}

/// Whitespace, as far as it can surround a path's segment.
pub open spec fn is_ws(c: char) -> bool {
    c == ' ' || c == '\t' || c == '\n' || c == '\r' || c == '\x0b' || c == '\x0c'
}

/// `s` without leading and trailing whitespace.
pub open spec fn trim_ws(s: Seq<char>) -> Seq<char>
    decreases s.len(),
{
    if s.len() == 0 {
        s
    } else if is_ws(s[0]) {
        trim_ws(s.drop_first())
    } else if is_ws(s.last()) {
        trim_ws(s.drop_last())
    } else {
        s
    }
}

fn ws(c: char) -> (r: bool)
    ensures
        r == is_ws(c),
{
    c == ' ' || c == '\t' || c == '\n' || c == '\r' || c == '\x0b' || c == '\x0c'
}

fn trimmed(s: &str) -> (r: String)
    ensures
        r@ == trim_ws(s@),
{
    let cs = crate::strings::chars_of(s);
    let mut a: usize = 0;
    let mut b: usize = cs.len();
    assert(s@.subrange(0, cs.len() as int) =~= s@);
    while a < b && (ws(cs[a]) || ws(cs[b - 1]))
        invariant
            a <= b <= cs.len(),
            cs@ == s@,
            trim_ws(s@.subrange(a as int, b as int)) == trim_ws(s@),
        decreases b - a,
    {
        let ghost sub = s@.subrange(a as int, b as int);
        assert(sub[0] == cs@[a as int]);
        assert(sub.last() == cs@[b - 1]);
        if ws(cs[a]) {
            assert(sub.drop_first() =~= s@.subrange(a + 1, b as int));
            a = a + 1;
        } else {
            assert(sub.drop_last() =~= s@.subrange(a as int, b - 1));
            b = b - 1;
        }
    }
    let mut r = String::new();
    let mut k: usize = a;
    while k < b
        invariant
            a <= k <= b <= cs.len(),
            cs@ == s@,
            r@ == s@.subrange(a as int, k as int),
        decreases b - k,
    {
        crate::strings::push_char(&mut r, cs[k]);
        assert(s@.subrange(a as int, k + 1) =~= s@.subrange(a as int, k as int).push(cs@[k as int]));
        k = k + 1;
    }
    proof {
        let sub = s@.subrange(a as int, b as int);
        if a < b {
            assert(sub[0] == cs@[a as int]);
            assert(sub.last() == cs@[b - 1]);
        }
        assert(trim_ws(sub) == sub);
    }
    r
}

/// Whether a derive path names `Patch`: its last segment, trimmed.
pub open spec fn names_patch(d: Seq<char>) -> bool {
    trim_ws(last_path_segment(d)) == "Patch"@
}

fn derives_patch(derives: &Vec<String>) -> (r: bool)
    ensures
        r == exists|i: int| 0 <= i < derives@.len() && names_patch(#[trigger] derives@[i]@),
{
    let mut i: usize = 0;
    while i < derives.len()
        invariant
            i <= derives.len(),
            forall|k: int| 0 <= k < i ==> !names_patch(#[trigger] derives@[k]@),
        decreases derives.len() - i,
    {
        let seg = path_last_segment(derives[i].as_str());
        let t = trimmed(seg.as_str());
        if str_equal(t.as_str(), "Patch") {
            assert(names_patch(derives@[i as int]@));
            return true;
        }
        i = i + 1;
    }
    false
}

/// What the item generated for a struct holds besides its fields.
#[derive(Debug)]
pub struct StructPlan {
    /// The derive list.
    pub derives: Vec<String>,
    /// The container-level serde options.
    pub serde: Vec<SerdeOption>,
    /// Whether a derive names `Patch`: a renamed field then also carries
    /// its name for the derived patch type.
    pub patch_mirror: bool,
    /// Where its `Default` impl comes from.
    pub default: DefaultPlan,
    /// Whether a builder type accompanies it.
    pub builder: bool,
}

/// What the item generated for the struct `s` holds, given the type's own
/// derives and, for each field, whether it has a default of its own.
pub fn struct_plan(settings: &TypeSpaceSettings, own: &Vec<String>, s: &TypeEntryStruct, field_defaults: &Vec<bool>) -> (r: StructPlan)
    ensures
        is_derive_list(strings_view(r.derives@), *settings, TypeKind::Struct, base_derives(),
            strings_view(own@), strings_view(settings.extra_derives@), Seq::empty()),
        options_view(r.serde@) == spec_struct_serde_options(*settings, *s),
        r.patch_mirror == exists|i: int| 0 <= i < r.derives@.len() && names_patch(#[trigger] r.derives@[i]@),
        r.default@ == spec_struct_default(*settings, *s, field_defaults@),
        r.builder == settings.struct_builder,
{
    let derives = struct_derives(settings, own);
    let patch_mirror = derives_patch(&derives);
    let ghost d = derives@;
    let r = StructPlan {
        derives,
        serde: struct_serde_options(settings, s),
        patch_mirror,
        default: struct_default(settings, s, field_defaults),
        builder: settings.struct_builder,
    };
    assert(r.derives@ == d);
    r
}

/// The number of unit variants.
pub open spec fn simple_count(vs: Seq<Variant>) -> nat
    decreases vs.len(),
{
    if vs.len() == 0 {
        0
    } else {
        simple_count(vs.drop_last()) + if vs.last().details is Simple { 1nat } else { 0nat }
    }
}

/// The catch-all variant that opens an enum: configured, the enum is a
/// plain string enum (externally tagged, all unit variants), and none of
/// its variants already has that name.
pub open spec fn spec_open_variant(settings: TypeSpaceSettings, e: TypeEntryEnum) -> Option<Seq<char>> {
    match settings.open_enum_variant {
        Some(n) => if e.tag_type is External && seq_has(e.bespoke_impls@, TypeEntryEnumImpl::AllSimpleVariants)
            && forall|k: int| 0 <= k < e.variants@.len() ==> !((#[trigger] e.variants@[k]).ident_name matches Some(m) && m@ == n@) {
            Some(n@)
        } else {
            None
        },
        None => None,
    }
}

pub(crate) fn open_variant(settings: &TypeSpaceSettings, e: &TypeEntryEnum) -> (r: Option<String>)
    ensures
        match (r, spec_open_variant(*settings, *e)) {
            (Some(a), Some(b)) => a@ == b,
            (None, None) => true,
            _ => false,
        },
{
    let name = match &settings.open_enum_variant {
        Some(n) => n,
        None => {
            return None;
        },
    };
    let external = match e.tag_type {
        EnumTagType::External => true,
        _ => false,
    };
    if !external || !has_bespoke(&e.bespoke_impls, TypeEntryEnumImpl::AllSimpleVariants) {
        return None;
    }
    let mut i: usize = 0;
    while i < e.variants.len()
        invariant
            i <= e.variants.len(),
            settings.open_enum_variant == Some(*name),
            e.tag_type is External,
            seq_has(e.bespoke_impls@, TypeEntryEnumImpl::AllSimpleVariants),
            forall|k: int| 0 <= k < i ==> !((#[trigger] e.variants@[k]).ident_name matches Some(m) && m@ == name@),
        decreases e.variants.len() - i,
    {
        if let Some(m) = &e.variants[i].ident_name {
            if str_equal(m.as_str(), name.as_str()) {
                assert(e.variants@[i as int].ident_name matches Some(mm) && mm@ == name@);
                return None;
            }
        }
        i = i + 1;
    }
    Some(name.clone())
}

/// What the item generated for an enum holds besides its variants.
#[derive(Debug)]
pub struct EnumPlan {
    /// The derive list.
    pub derives: Vec<String>,
    /// The container-level serde options.
    pub serde: Vec<SerdeOption>,
    /// Where its `Default` impl comes from.
    pub default: DefaultPlan,
    /// The variants built by a `From` impl from what they wrap, by index.
    pub from_variants: Vec<usize>,
    /// All variants are unit variants: `Display`, `FromStr` and `TryFrom`
    /// of strings by their names.
    pub simple_impls: bool,
    /// An untagged enum of variants that parse: `FromStr` trying each.
    pub untagged_from_str: bool,
    /// An untagged enum of variants that display: `Display` through them.
    pub untagged_display: bool,
    /// The catch-all variant, holding the raw string, that opens a plain
    /// string enum: its `Display` writes the string and its `FromStr`
    /// cannot fail.
    pub open_variant: Option<String>,
}

/// What the item generated for the enum `e` holds, given the type's own
/// derives. The enum's cached facts must be computed; an untagged enum has
/// at most one unit variant; the newtype variants that would get a `From`
/// impl wrap types of the type space.
pub fn enum_plan(space: &TypeSpace, own: &Vec<String>, e: &TypeEntryEnum) -> (r: EnumPlan)
    requires
        e.tag_type is Untagged ==> simple_count(e.variants@) <= 1,
        forall|i: int| 0 <= i < e.variants@.len() && key_unique(e.variants@, i) ==> match #[trigger] e.variants@[i].details {
            VariantDetails::Item(t) => entry_of(*space, t) is Some,
            _ => true,
        },
    ensures
        is_derive_list(strings_view(r.derives@), space.settings, TypeKind::Enum,
            enum_base_derives(all_simple(e.variants@), spec_open_variant(space.settings, *e) is Some),
            strings_view(own@), strings_view(space.settings.extra_derives@), Seq::empty()),
        match (r.open_variant, spec_open_variant(space.settings, *e)) {
            (Some(a), Some(b)) => a@ == b,
            (None, None) => true,
            _ => false,
        },
        options_view(r.serde@) == spec_enum_serde_options(*e),
        r.default@ == spec_enum_default(space.settings, *e),
        r.from_variants@ == from_indices(*space, e.variants@, e.variants@.len()),
        r.simple_impls == seq_has(e.bespoke_impls@, TypeEntryEnumImpl::AllSimpleVariants),
        r.untagged_from_str == seq_has(e.bespoke_impls@, TypeEntryEnumImpl::UntaggedFromStr),
        r.untagged_display == seq_has(e.bespoke_impls@, TypeEntryEnumImpl::UntaggedDisplay),
{
    let open = open_variant(&space.settings, e);
    EnumPlan {
        derives: enum_derives(&space.settings, own, e, open.is_some()),
        serde: enum_serde_options(e),
        default: enum_default(&space.settings, e),
        from_variants: convenience_from_variants(space, &e.variants),
        simple_impls: has_bespoke(&e.bespoke_impls, TypeEntryEnumImpl::AllSimpleVariants),
        untagged_from_str: has_bespoke(&e.bespoke_impls, TypeEntryEnumImpl::UntaggedFromStr),
        untagged_display: has_bespoke(&e.bespoke_impls, TypeEntryEnumImpl::UntaggedDisplay),
        open_variant: open,
    }
}

pub(crate) fn has_bespoke(s: &Vec<TypeEntryEnumImpl>, x: TypeEntryEnumImpl) -> (r: bool)
    ensures
        r == seq_has(s@, x),
{
    let mut i: usize = 0;
    while i < s.len()
        invariant
            i <= s.len(),
            forall|k: int| 0 <= k < i ==> s@[k] != x,
        decreases s.len() - i,
    {
        if s[i] == x {
            return true;
        }
        i = i + 1;
    }
    false
}

/// A newtype that deserializes by hand (it is constrained) never derives
/// `Deserialize`, under either spelling, whatever derives it is given: the
/// item never holds both the derive and the impl that replaces it.
pub proof fn law_validating_newtype_derives_no_deserialize(
    r: Seq<Seq<char>>,
    settings: TypeSpaceSettings,
    inner_is_string: bool,
    c: TypeEntryNewtypeConstraints,
    own: Seq<Seq<char>>,
)
    requires
        !(c is Unconstrained),
        is_derive_list(r, settings, TypeKind::Newtype, newtype_derive_set(settings, inner_is_string, c), own,
            Seq::empty(), newtype_denied(c)),
    ensures
        !seq_has(r, "::serde::Deserialize"@),
        !seq_has(r, "Deserialize"@),
{
    crate::attrs::law_derive_list_clean(r, settings, TypeKind::Newtype, newtype_derive_set(settings, inner_is_string, c),
        own, Seq::empty(), newtype_denied(c));
    let denied = newtype_denied(c);
    assert(denied[0] == "::serde::Deserialize"@);
    assert(denied[1] == "Deserialize"@);
    if seq_has(r, "::serde::Deserialize"@) {
        let k = choose|k: int| 0 <= k < r.len() && r[k] == "::serde::Deserialize"@;
        assert(seq_has(denied, r[k]));
    }
    if seq_has(r, "Deserialize"@) {
        let k = choose|k: int| 0 <= k < r.len() && r[k] == "Deserialize"@;
        assert(seq_has(denied, r[k]));
    }
}

/// The doc strings of a generated type, one `#[doc]` attribute each: its
/// description (else its name in backticks), then, where the schema is
/// embedded, a collapsed block holding the schema's pretty-printed JSON
/// lines.
pub open spec fn spec_doc_lines(include_schema: bool, description: Seq<char>, schema_lines: Seq<Seq<char>>) -> Seq<Seq<char>> {
    if !include_schema {
        seq![description]
    } else {
        seq![description, ""@, " <details><summary>JSON schema</summary>"@, ""@, " ```json"@] + schema_lines
            + seq![" ```"@, " </details>"@]
    }
}

/// The doc strings of a generated type named `name`, given its schema's
/// pretty-printed JSON lines.
pub fn doc_lines(include_schema: bool, name: &str, description: Option<&String>, schema_lines: &Vec<String>) -> (r: Vec<String>)
    ensures
        strings_view(r@) == spec_doc_lines(
            include_schema,
            match description {
                Some(d) => d@,
                None => "`"@ + name@ + "`"@,
            },
            strings_view(schema_lines@),
        ),
{
    let desc = crate::attrs::doc_description(name, description);
    let ghost d = desc@;
    let mut out: Vec<String> = Vec::new();
    out.push(desc);
    if !include_schema {
        assert(strings_view(out@) =~= seq![d]);
        return out;
    }
    let mut head = strings_of(&["", " <details><summary>JSON schema</summary>", "", " ```json"]);
    let ghost o0 = out@;
    let ghost h0 = head@;
    out.append(&mut head);
    assert(out@ == o0 + h0);
    assert(strings_view(out@) =~= strings_view(o0) + strings_view(h0));
    let ghost h = strings_view(out@);
    assert(h =~= seq![d, ""@, " <details><summary>JSON schema</summary>"@, ""@, " ```json"@]);
    let mut i: usize = 0;
    while i < schema_lines.len()
        invariant
            i <= schema_lines.len(),
            strings_view(out@) == h + strings_view(schema_lines@).take(i as int),
        decreases schema_lines.len() - i,
    {
        let ghost before = strings_view(out@);
        out.push(schema_lines[i].clone());
        assert(strings_view(out@) =~= before.push(schema_lines@[i as int]@));
        assert(strings_view(schema_lines@).take(i + 1) =~= strings_view(schema_lines@).take(i as int).push(schema_lines@[i as int]@));
        assert(h + strings_view(schema_lines@).take(i + 1) =~= (h + strings_view(schema_lines@).take(i as int)).push(schema_lines@[i as int]@));
        i = i + 1;
    }
    assert(strings_view(schema_lines@).take(schema_lines.len() as int) =~= strings_view(schema_lines@));
    let ghost m = strings_view(out@);
    let mut tail = strings_of(&[" ```", " </details>"]);
    let ghost o1 = out@;
    let ghost t0 = tail@;
    out.append(&mut tail);
    assert(out@ == o1 + t0);
    assert(strings_view(out@) =~= strings_view(o1) + strings_view(t0));
    assert(strings_view(out@) =~= m + seq![" ```"@, " </details>"@]);
    out
}

/// An enum opened with a catch-all variant does not derive `Copy` (its
/// catch-all holds a `String`) unless the settings' extra or unconditional
/// derives, or the type's own derives, ask for it.
pub proof fn law_opened_enum_drops_copy(
    r: Seq<Seq<char>>,
    settings: TypeSpaceSettings,
    e: TypeEntryEnum,
    own: Seq<Seq<char>>,
)
    requires
        spec_open_variant(settings, e) is Some,
        is_derive_list(r, settings, TypeKind::Enum, enum_base_derives(all_simple(e.variants@), true), own,
            strings_view(settings.extra_derives@), Seq::empty()),
        seq_has(r, "Copy"@),
    ensures
        seq_has(strings_view(settings.extra_derives@), "Copy"@) || seq_has(own, "Copy"@)
            || seq_has(crate::attrs::selected_derives(settings.unconditional_derives@, TypeKind::Enum), "Copy"@),
{
    let base = enum_base_derives(all_simple(e.variants@), true);
    crate::attrs::law_derive_list_members(r, settings, TypeKind::Enum, base, own,
        strings_view(settings.extra_derives@), Seq::empty());
    let k = choose|k: int| 0 <= k < r.len() && r[k] == "Copy"@;
    assert(seq_has(base, r[k]) || seq_has(strings_view(settings.extra_derives@), r[k]) || seq_has(own, r[k])
        || seq_has(crate::attrs::selected_derives(settings.unconditional_derives@, TypeKind::Enum), r[k]));
    reveal_strlit("Copy");
    reveal_strlit("::serde::Serialize");
    reveal_strlit("::serde::Deserialize");
    reveal_strlit("Debug");
    reveal_strlit("Clone");
    reveal_strlit("PartialOrd");
    reveal_strlit("Ord");
    reveal_strlit("PartialEq");
    reveal_strlit("Eq");
    reveal_strlit("Hash");
    assert(!seq_has(base, "Copy"@)) by {
        if all_simple(e.variants@) {
            assert(base =~= base_derives() + ordering_derives());
        }
        assert forall|i: int| 0 <= i < base.len() implies base[i] != "Copy"@ by {
            assert(base[i].len() != 4 || base[i][0] != 'C' || base[i][1] != 'o');
        }
    }
}

/// An enum that already has a variant named like the configured catch-all
/// stays closed.
pub proof fn law_declared_name_stays_closed(settings: TypeSpaceSettings, e: TypeEntryEnum, k: int)
    requires
        0 <= k < e.variants@.len(),
        settings.open_enum_variant matches Some(n) && (e.variants@[k].ident_name matches Some(m) && m@ == n@),
    ensures
        spec_open_variant(settings, e) is None,
{
}

} // verus!
