//! Settings that alter type generation, and the builder methods that
//! assemble them.

use vstd::prelude::*;

use crate::json::JsonValue;
use crate::strings::{str_equal, string_of};
use crate::{TypeKindFilter, TypeSpaceImpl};

verus! {

/// Whether `x` occurs in `s`.
pub open spec fn seq_has<T>(s: Seq<T>, x: T) -> bool {
    exists|i: int| 0 <= i < s.len() && s[i] == x
}

/// `s` with `x` appended unless it is already there.
pub open spec fn push_unique<T>(s: Seq<T>, x: T) -> Seq<T> {
    if seq_has(s, x) {
        s
    } else {
        s.push(x)
    }
}

/// The characters of each string of `s`.
pub open spec fn strings_view(s: Seq<String>) -> Seq<Seq<char>> {
    s.map_values(|x: String| x@)
}

/// Whether no value occurs twice in `s`.
pub open spec fn no_duplicates<T>(s: Seq<T>) -> bool {
    forall|i: int, j: int| 0 <= i < j < s.len() ==> s[i] != s[j]
}

/// Per-field serde naming mode for generated struct properties.
#[derive(Debug, Clone, Copy, PartialEq, Eq, Structural)]
pub enum SerdeFieldCase {
    /// Serialize exact schema property names and accept snake_case aliases.
    Wire,
    /// Serialize snake_case property names and accept exact schema names.
    Snake,
}

/// Where an emitted attribute is placed relative to the type's main
/// `#[derive(...)]` attribute.
#[derive(Debug, Default, Clone, Copy, PartialEq, Eq, Structural)]
pub enum AttrPosition {
    /// Before the main derive (the historical position).
    #[default]
    BeforeDerive,
    /// After the main derive and any type-level `#[serde(...)]` line.
    AfterDerive,
}

/// How arrays that are not required are emitted on a generated struct.
#[derive(Debug, Default, Clone, Copy, PartialEq, Eq, Structural)]
pub enum ArrayOptionality {
    /// Bare `Vec<T>`, skipped when empty.
    #[default]
    Bare,
    /// `Option<Vec<T>>`, telling an absent array from an empty one.
    OptionalIfNotRequired,
}

/// How booleans with a schema-level default are emitted.
#[derive(Debug, Default, Clone, Copy, PartialEq, Eq, Structural)]
pub enum DefaultBoolOptionality {
    /// Bare `bool` with `#[serde(default)]`.
    #[default]
    Bare,
    /// `Option<bool>` when not required.
    AlwaysOption,
}

/// How non-required, non-bool fields with a schema-level default are
/// emitted.
#[derive(Debug, Default, Clone, Copy, PartialEq, Eq, Structural)]
pub enum DefaultedFieldOptionality {
    /// Lift the schema default into the type via a generated helper.
    #[default]
    Bare,
    /// Drop the schema default and wrap the field in `Option<T>`.
    AlwaysOption,
}

/// Whether deep-patch naming attributes are emitted on
/// `Option<{InnerStruct}>` fields.
#[derive(Debug, Default, Clone, Copy, PartialEq, Eq, Structural)]
pub enum DeepPatchPolicy {
    /// Emit none.
    #[default]
    Off,
    /// Emit one above every `Option<{InnerStruct}>` field.
    AllOptionStructs,
}

/// How schema `allOf` compositions are rendered.
#[derive(Debug, Default, Clone, Copy, PartialEq, Eq, Structural)]
pub enum AllOfStrategy {
    /// Merge the subschemas into one flat schema.
    #[default]
    Merge,
    /// Embed a referenced base type as a flattened field where possible.
    Compose,
}

/// Policy for external types of crates that are not explicitly specified.
#[derive(Debug, Default, Clone, Copy, PartialEq, Eq, Structural)]
pub enum UnknownPolicy {
    /// Generate the type according to the schema.
    #[default]
    Generate,
    /// Use the specified type by path.
    Allow,
    /// Report the crate that must be specified.
    Deny,
}

/// A semantic version: its numbers, and its pre-release and build texts
/// (empty where there are none).
#[derive(Debug)]
pub struct SemVer {
    pub major: u64,
    pub minor: u64,
    pub patch: u64,
    pub pre: String,
    pub build: String,
}

/// What `semver::Version::parse` gives for `s`, where it accepts `s`: the
/// major, minor and patch numbers, and the pre-release and build texts.
pub uninterp spec fn semver_parts(s: Seq<char>) -> Option<(u64, u64, u64, Seq<char>, Seq<char>)>;

/// Whether `semver::Version::parse` accepts `s`.
pub open spec fn semver_parses(s: Seq<char>) -> bool {
    semver_parts(s) is Some
}

/// Whether a version has the given parts.
pub open spec fn semver_is(v: SemVer, p: (u64, u64, u64, Seq<char>, Seq<char>)) -> bool {
    v.major == p.0 && v.minor == p.1 && v.patch == p.2 && v.pre@ == p.3 && v.build@ == p.4
}

/// `semver::Version::parse`: the version that `s` denotes, where `s` is a
/// valid semantic version, with its numbers and its pre-release and build
/// texts (`Prerelease::as_str`, `BuildMetadata::as_str`); nothing where it
/// is refused.
#[verifier::external_body]
fn parse_semver(s: &str) -> (r: Option<SemVer>)
    ensures
        match (r, semver_parts(s@)) {
            (Some(v), Some(p)) => semver_is(v, p),
            (None, None) => true,
            _ => false,
        },
{
    match semver::Version::parse(s) {
        Ok(v) => Some(SemVer {
            major: v.major,
            minor: v.minor,
            patch: v.patch,
            pre: v.pre.as_str().to_string(),
            build: v.build.as_str().to_string(),
        }),
        Err(_) => None,
    }
}

/// The version of a named crate to consider for type use.
#[derive(Debug)]
pub enum CrateVers {
    /// An explicit version.
    Version(SemVer),
    /// Any version.
    Any,
    /// Never use the given crate.
    Never,
}

/// Whether `v` is the version that `text` denotes: `!` never, `*` any,
/// else the semantic version with the parts that `text` parses to.
pub open spec fn crate_vers_is(v: CrateVers, text: Seq<char>) -> bool {
    if text == "!"@ {
        v is Never
    } else if text == "*"@ {
        v is Any
    } else {
        v matches CrateVers::Version(x) && semver_parts(text) matches Some(p) && semver_is(x, p)
    }
}

impl CrateVers {
    /// Parses `!` (never), `*` (any) or a semantic version.
    pub fn parse(s: &str) -> (r: Option<Self>)
        ensures
            s@ == "!"@ ==> r matches Some(CrateVers::Never),
            s@ == "*"@ ==> r matches Some(CrateVers::Any),
            s@ != "!"@ && s@ != "*"@ ==> match (r, semver_parts(s@)) {
                (Some(CrateVers::Version(v)), Some(p)) => semver_is(v, p),
                (None, None) => true,
                _ => false,
            },
    {
        proof {
            reveal_strlit("!");
            reveal_strlit("*");
            assert("!"@[0] != "*"@[0]);
        }
        if crate::strings::is_str(s, "!") {
            Some(CrateVers::Never)
        } else if crate::strings::is_str(s, "*") {
            Some(CrateVers::Any)
        } else {
            match parse_semver(s) {
                Some(v) => Some(CrateVers::Version(v)),
                None => None,
            }
        }
    }
}

/// How a crate named by a schema extension is used.
#[derive(Debug)]
pub struct CrateSpec {
    pub version: CrateVers,
    pub rename: Option<String>,
}

/// Whether `syn` parses `s` as a Rust type.
pub uninterp spec fn parses_as_rust_type(s: Seq<char>) -> bool;

/// `syn::parse_str::<syn::Type>`: whether `s` parses as a Rust type.
#[verifier::external_body]
fn is_rust_type(s: &str) -> (r: bool)
    ensures
        r == parses_as_rust_type(s@),
{
    syn::parse_str::<syn::Type>(s).is_ok()
}

/// The map-like type used in generated code, by its path.
#[derive(Debug)]
pub struct MapType {
    pub path: String,
}

impl MapType {
    /// The map type with the given path, which must parse as a Rust type.
    pub fn new(s: &str) -> (r: Self)
        requires
            parses_as_rust_type(s@),
        ensures
            r.path@ == s@,
    {
        MapType { path: string_of(s) }
    }

    /// The map type with the given path, if it parses as a Rust type.
    pub fn try_new(s: &str) -> (r: Option<Self>)
        ensures
            r is Some == parses_as_rust_type(s@),
            r matches Some(m) ==> m.path@ == s@,
    {
        if is_rust_type(s) {
            Some(MapType::new(s))
        } else {
            None
        }
    }

    /// `::std::collections::HashMap`.
    pub fn default_map() -> (r: Self)
        ensures
            r.path@ == "::std::collections::HashMap"@,
    {
        MapType { path: string_of("::std::collections::HashMap") }
    }
}

/// A derive emitted as `#[cfg_attr(feature = "<cfg>", derive(<derive>))]`.
#[derive(Debug)]
pub struct ConditionalDerive {
    pub cfg: String,
    pub derive: String,
    pub kinds: TypeKindFilter,
}

/// An attribute emitted as `#[cfg_attr(feature = "<cfg>", <attr>)]`.
#[derive(Debug)]
pub struct ConditionalAttr {
    pub cfg: String,
    pub attr: String,
    pub position: AttrPosition,
    pub kinds: TypeKindFilter,
}

/// An attribute emitted on every generated type matching `kinds`.
#[derive(Debug)]
pub struct UnconditionalAttr {
    pub attr: String,
    pub position: AttrPosition,
    pub kinds: TypeKindFilter,
}

/// A derive emitted in the main derive list of every generated type
/// matching `kinds`.
#[derive(Debug)]
pub struct UnconditionalDerive {
    pub derive: String,
    pub kinds: TypeKindFilter,
}

/// A set of modifications that may be applied to an existing type.
#[derive(Debug)]
pub struct TypeSpacePatch {
    pub rename: Option<String>,
    pub derives: Vec<String>,
    pub attrs: Vec<String>,
}

impl TypeSpacePatch {
    /// A patch that changes nothing.
    pub fn new() -> (r: Self)
        ensures
            r.rename is None,
            r.derives@.len() == 0,
            r.attrs@.len() == 0,
    {
        TypeSpacePatch { rename: None, derives: Vec::new(), attrs: Vec::new() }
    }

    /// A copy of the patch.
    pub fn copy(&self) -> (r: Self)
        ensures
            r.rename == self.rename,
            r.derives@ == self.derives@,
            r.attrs@ == self.attrs@,
    {
        let rename = match &self.rename {
            Some(n) => Some(n.clone()),
            None => None,
        };
        TypeSpacePatch { rename, derives: copy_strings(&self.derives), attrs: copy_strings(&self.attrs) }
    }

    /// Specify the new name for the patched type.
    pub fn with_rename(&mut self, rename: &str) -> (r: &mut Self)
        ensures
            r.rename matches Some(n) && n@ == rename@,
            r.derives == old(self).derives,
            r.attrs == old(self).attrs,
            *final(self) == *final(r),
    {
        self.rename = Some(string_of(rename));
        self
    }

    /// Specify an additional derive to apply to the patched type.
    pub fn with_derive(&mut self, derive: &str) -> (r: &mut Self)
        ensures
            strings_view(r.derives@) == strings_view(old(self).derives@).push(derive@),
            r.rename == old(self).rename,
            r.attrs == old(self).attrs,
            *final(self) == *final(r),
    {
        self.derives.push(string_of(derive));
        assert(strings_view(self.derives@) =~= strings_view(old(self).derives@).push(derive@));
        self
    }

    /// Specify an additional attribute to apply to the patched type.
    pub fn with_attr(&mut self, attr: &str) -> (r: &mut Self)
        ensures
            strings_view(r.attrs@) == strings_view(old(self).attrs@).push(attr@),
            r.rename == old(self).rename,
            r.derives == old(self).derives,
            *final(self) == *final(r),
    {
        self.attrs.push(string_of(attr));
        assert(strings_view(self.attrs@) =~= strings_view(old(self).attrs@).push(attr@));
        self
    }

    /// The patch with the given rename, derives and attributes, in order.
    pub fn from_parts(rename: Option<&str>, derives: &Vec<String>, attrs: &Vec<String>) -> (r: Self)
        ensures
            match (r.rename, rename) {
                (Some(a), Some(b)) => a@ == b@,
                (None, None) => true,
                _ => false,
            },
            strings_view(r.derives@) == strings_view(derives@),
            strings_view(r.attrs@) == strings_view(attrs@),
    {
        let mut patch = TypeSpacePatch::new();
        if let Some(n) = rename {
            patch.with_rename(n);
        }
        let mut i: usize = 0;
        assert(strings_view(patch.derives@) =~= strings_view(derives@).take(0));
        while i < derives.len()
            invariant
                i <= derives.len(),
                match (patch.rename, rename) {
                    (Some(a), Some(b)) => a@ == b@,
                    (None, None) => true,
                    _ => false,
                },
                patch.attrs@.len() == 0,
                strings_view(patch.derives@) == strings_view(derives@).take(i as int),
            decreases derives.len() - i,
        {
            patch.with_derive(derives[i].as_str());
            assert(strings_view(derives@).take(i + 1) =~= strings_view(derives@).take(i as int).push(derives@[i as int]@));
            i = i + 1;
        }
        assert(strings_view(derives@).take(derives.len() as int) =~= strings_view(derives@));
        let mut i: usize = 0;
        assert(strings_view(patch.attrs@) =~= strings_view(attrs@).take(0));
        while i < attrs.len()
            invariant
                i <= attrs.len(),
                match (patch.rename, rename) {
                    (Some(a), Some(b)) => a@ == b@,
                    (None, None) => true,
                    _ => false,
                },
                strings_view(patch.derives@) == strings_view(derives@),
                strings_view(patch.attrs@) == strings_view(attrs@).take(i as int),
            decreases attrs.len() - i,
        {
            patch.with_attr(attrs[i].as_str());
            assert(strings_view(attrs@).take(i + 1) =~= strings_view(attrs@).take(i as int).push(attrs@[i as int]@));
            i = i + 1;
        }
        assert(strings_view(attrs@).take(attrs.len() as int) =~= strings_view(attrs@));
        patch
    }
}

/// The replacement of an existing type by a named type.
#[derive(Debug)]
pub struct TypeSpaceReplace {
    pub replace_type: String,
    pub impls: Vec<TypeSpaceImpl>,
}

/// A schema to be replaced by a named type: the entries of the serialized
/// schema, the type's path and its trait implementations.
#[derive(Debug)]
pub struct TypeSpaceConversion {
    pub schema: Vec<(String, JsonValue)>,
    pub name: String,
    pub impls: Vec<TypeSpaceImpl>,
}

/// The index of the first entry of `s` whose key is `k`.
pub open spec fn key_pos<V>(s: Seq<(String, V)>, k: Seq<char>) -> Option<int>
    decreases s.len(),
{
    if s.len() == 0 {
        None
    } else {
        match key_pos(s.drop_last(), k) {
            Some(i) => Some(i),
            None => if s.last().0@ == k {
                Some(s.len() - 1)
            } else {
                None
            },
        }
    }
}

/// Whether `new` is `old` with the value of key `k` set to `v`: the entry
/// of the first occurrence of `k` is replaced, or one is appended.
pub open spec fn keyed_insert<V>(old: Seq<(String, V)>, new: Seq<(String, V)>, k: Seq<char>, v: V) -> bool {
    match key_pos(old, k) {
        Some(i) => new.len() == old.len() && new[i].0@ == k && new[i].1 == v && forall|j: int|
            0 <= j < old.len() && j != i ==> new[j] == old[j],
        None => new.len() == old.len() + 1 && new.last().0@ == k && new.last().1 == v && forall|
            j: int,
        | 0 <= j < old.len() ==> new[j] == old[j],
    }
}

pub proof fn lemma_key_pos<V>(s: Seq<(String, V)>, k: Seq<char>)
    ensures
        key_pos(s, k) matches Some(i) ==> 0 <= i < s.len() && s[i].0@ == k && forall|j: int|
            0 <= j < i ==> s[j].0@ != k,
        key_pos(s, k) is None ==> forall|j: int| 0 <= j < s.len() ==> s[j].0@ != k,
    decreases s.len(),
{
    if s.len() > 0 {
        lemma_key_pos(s.drop_last(), k);
        assert forall|j: int| 0 <= j < s.len() - 1 implies s.drop_last()[j] == s[j] by {}
    }
}

pub proof fn lemma_key_pos_prefix<V>(s: Seq<(String, V)>, k: Seq<char>, i: int)
    requires
        0 <= i < s.len(),
        s[i].0@ == k,
        key_pos(s.take(i), k) is None,
    ensures
        key_pos(s, k) == Some(i),
    decreases s.len(),
{
    if i < s.len() - 1 {
        assert(s.drop_last().take(i) =~= s.take(i));
        lemma_key_pos_prefix(s.drop_last(), k, i);
    } else {
        assert(s.drop_last() =~= s.take(i));
    }
}

/// The index of the first entry of `v` whose key is `k`.
pub fn find_keyed<V>(v: &Vec<(String, V)>, k: &str) -> (r: Option<usize>)
    ensures
        match r {
            Some(i) => key_pos(v@, k@) == Some(i as int) && i < v@.len(),
            None => key_pos(v@, k@) is None,
        },
{
    let mut i: usize = 0;
    while i < v.len()
        invariant
            i <= v.len(),
            key_pos(v@.take(i as int), k@) is None,
        decreases v.len() - i,
    {
        assert(v@.take(i + 1).drop_last() =~= v@.take(i as int));
        if str_equal(v[i].0.as_str(), k) {
            proof {
                lemma_key_pos_prefix(v@, k@, i as int);
            }
            return Some(i);
        }
        i = i + 1;
    }
    assert(v@.take(v.len() as int) =~= v@);
    None
}

/// Sets the value of key `k` in `v`.
pub fn insert_keyed<V>(v: &mut Vec<(String, V)>, k: String, value: V)
    ensures
        keyed_insert(old(v)@, final(v)@, k@, value),
{
    let ghost kv = k@;
    match find_keyed(v, k.as_str()) {
        Some(i) => {
            proof {
                lemma_key_pos(v@, kv);
            }
            v.set(i, (k, value));
        },
        None => {
            v.push((k, value));
        },
    }
}

/// The keys by which conditional derives are told apart: feature and
/// derive.
pub open spec fn conditional_derive_keys(s: Seq<ConditionalDerive>) -> Seq<(Seq<char>, Seq<char>)> {
    s.map_values(|c: ConditionalDerive| (c.cfg@, c.derive@))
}

/// The keys by which conditional attributes are told apart: feature,
/// attribute and position.
pub open spec fn conditional_attr_keys(s: Seq<ConditionalAttr>) -> Seq<(Seq<char>, Seq<char>, AttrPosition)> {
    s.map_values(|c: ConditionalAttr| (c.cfg@, c.attr@, c.position))
}

/// The keys by which unconditional attributes are told apart: attribute,
/// position and kinds.
pub open spec fn unconditional_attr_keys(s: Seq<UnconditionalAttr>) -> Seq<(Seq<char>, AttrPosition, TypeKindFilter)> {
    s.map_values(|u: UnconditionalAttr| (u.attr@, u.position, u.kinds))
}

/// The keys by which unconditional derives are told apart: derive and
/// kinds.
pub open spec fn unconditional_derive_keys(s: Seq<UnconditionalDerive>) -> Seq<(Seq<char>, TypeKindFilter)> {
    s.map_values(|u: UnconditionalDerive| (u.derive@, u.kinds))
}

/// Whether `new` is `old` after adding the conditional derive: unchanged
/// where one with the same feature and derive is there, else with it
/// appended.
pub open spec fn added_conditional_derive(old: Seq<ConditionalDerive>, new: Seq<ConditionalDerive>, cfg: Seq<char>, derive: Seq<char>, kinds: TypeKindFilter) -> bool {
    if seq_has(conditional_derive_keys(old), (cfg, derive)) {
        new == old
    } else {
        new.len() == old.len() + 1 && new.drop_last() == old && new.last().cfg@ == cfg
            && new.last().derive@ == derive && new.last().kinds == kinds
    }
}

/// Whether `new` is `old` after adding the conditional attribute: unchanged
/// where one with the same feature, attribute and position is there, else
/// with it appended.
pub open spec fn added_conditional_attr(old: Seq<ConditionalAttr>, new: Seq<ConditionalAttr>, cfg: Seq<char>, attr: Seq<char>, position: AttrPosition, kinds: TypeKindFilter) -> bool {
    if seq_has(conditional_attr_keys(old), (cfg, attr, position)) {
        new == old
    } else {
        new.len() == old.len() + 1 && new.drop_last() == old && new.last().cfg@ == cfg
            && new.last().attr@ == attr && new.last().position == position && new.last().kinds == kinds
    }
}

/// Whether `new` is `old` after adding the unconditional attribute:
/// unchanged where one with the same attribute, position and kinds is
/// there, else with it appended.
pub open spec fn added_unconditional_attr(old: Seq<UnconditionalAttr>, new: Seq<UnconditionalAttr>, attr: Seq<char>, position: AttrPosition, kinds: TypeKindFilter) -> bool {
    if seq_has(unconditional_attr_keys(old), (attr, position, kinds)) {
        new == old
    } else {
        new.len() == old.len() + 1 && new.drop_last() == old && new.last().attr@ == attr
            && new.last().position == position && new.last().kinds == kinds
    }
}

/// Whether `new` is `old` after adding the unconditional derive: unchanged
/// where one with the same derive and kinds is there, else with it
/// appended.
pub open spec fn added_unconditional_derive(old: Seq<UnconditionalDerive>, new: Seq<UnconditionalDerive>, derive: Seq<char>, kinds: TypeKindFilter) -> bool {
    if seq_has(unconditional_derive_keys(old), (derive, kinds)) {
        new == old
    } else {
        new.len() == old.len() + 1 && new.drop_last() == old && new.last().derive@ == derive
            && new.last().kinds == kinds
    }
}

pub proof fn lemma_seq_has_push<T>(s: Seq<T>, x: T, y: T)
    ensures
        seq_has(s.push(x), y) == (seq_has(s, y) || x == y),
{
    if seq_has(s, y) {
        let i = choose|i: int| 0 <= i < s.len() && s[i] == y;
        assert(s.push(x)[i] == y);
    }
    if x == y {
        assert(s.push(x)[s.len() as int] == y);
    }
    if seq_has(s.push(x), y) {
        let i = choose|i: int| 0 <= i < s.push(x).len() && s.push(x)[i] == y;
        if i < s.len() {
            assert(s[i] == y);
        }
    }
}

/// Settings that alter type generation.
#[derive(Debug)]
pub struct TypeSpaceSettings {
    pub type_mod: Option<String>,
    pub extra_derives: Vec<String>,
    pub conditional_derives: Vec<ConditionalDerive>,
    pub extra_attrs: Vec<String>,
    pub conditional_attrs: Vec<ConditionalAttr>,
    pub unconditional_attrs: Vec<UnconditionalAttr>,
    pub unconditional_derives: Vec<UnconditionalDerive>,
    pub deep_patches: DeepPatchPolicy,
    pub defaulted_field_optionality: DefaultedFieldOptionality,
    pub elide_option_field_defaults: bool,
    pub struct_rename_all: Option<String>,
    pub serde_field_case: Option<SerdeFieldCase>,
    pub enum_first_variant_default: bool,
    pub struct_builder: bool,
    pub unknown_crates: UnknownPolicy,
    pub crates: Vec<(String, CrateSpec)>,
    pub map_type: MapType,
    pub patch: Vec<(String, TypeSpacePatch)>,
    pub replace: Vec<(String, TypeSpaceReplace)>,
    pub convert: Vec<TypeSpaceConversion>,
    pub date_type: Option<String>,
    pub date_time_type: Option<String>,
    pub uuid_type: Option<String>,
    pub unconstrained_string: bool,
    pub unconstrained_int: bool,
    pub array_optionality: ArrayOptionality,
    pub default_bool_optionality: DefaultBoolOptionality,
    pub allof_strategy: AllOfStrategy,
    /// Whether each generated type's doc comment embeds its pretty-printed
    /// schema after its description (the default).
    pub include_schema_in_docs: bool,
    /// The name of the catch-all variant that opens plain string enums:
    /// values outside the documented set round-trip through it.
    pub open_enum_variant: Option<String>,
    /// Whether string newtypes get `AsRef<str>` and `Display` (and, when
    /// unconstrained, `From<&str>`).
    pub string_newtype_conveniences: bool,
}

impl TypeSpaceSettings {
    /// Whether every option is at its default.
    pub open spec fn is_default(&self) -> bool {
        &&& self.type_mod is None
        &&& self.extra_derives@.len() == 0
        &&& self.conditional_derives@.len() == 0
        &&& self.extra_attrs@.len() == 0
        &&& self.conditional_attrs@.len() == 0
        &&& self.unconditional_attrs@.len() == 0
        &&& self.unconditional_derives@.len() == 0
        &&& self.deep_patches == DeepPatchPolicy::Off
        &&& self.defaulted_field_optionality == DefaultedFieldOptionality::Bare
        &&& !self.elide_option_field_defaults
        &&& self.struct_rename_all is None
        &&& self.serde_field_case is None
        &&& !self.enum_first_variant_default
        &&& !self.struct_builder
        &&& self.unknown_crates == UnknownPolicy::Generate
        &&& self.crates@.len() == 0
        &&& self.map_type.path@ == "::std::collections::HashMap"@
        &&& self.patch@.len() == 0
        &&& self.replace@.len() == 0
        &&& self.convert@.len() == 0
        &&& self.date_type is None
        &&& self.date_time_type is None
        &&& self.uuid_type is None
        &&& !self.unconstrained_string
        &&& !self.unconstrained_int
        &&& self.array_optionality == ArrayOptionality::Bare
        &&& self.default_bool_optionality == DefaultBoolOptionality::Bare
        &&& self.allof_strategy == AllOfStrategy::Merge
        &&& self.include_schema_in_docs
        &&& self.open_enum_variant is None
        &&& !self.string_newtype_conveniences
    }

    /// Settings with every option at its default.
    pub fn new() -> (r: Self)
        ensures
            r.is_default(),
    {
        TypeSpaceSettings {
            type_mod: None,
            extra_derives: Vec::new(),
            conditional_derives: Vec::new(),
            extra_attrs: Vec::new(),
            conditional_attrs: Vec::new(),
            unconditional_attrs: Vec::new(),
            unconditional_derives: Vec::new(),
            deep_patches: DeepPatchPolicy::Off,
            defaulted_field_optionality: DefaultedFieldOptionality::Bare,
            elide_option_field_defaults: false,
            struct_rename_all: None,
            serde_field_case: None,
            enum_first_variant_default: false,
            struct_builder: false,
            unknown_crates: UnknownPolicy::Generate,
            crates: Vec::new(),
            map_type: MapType::default_map(),
            patch: Vec::new(),
            replace: Vec::new(),
            convert: Vec::new(),
            date_type: None,
            date_time_type: None,
            uuid_type: None,
            unconstrained_string: false,
            unconstrained_int: false,
            array_optionality: ArrayOptionality::Bare,
            default_bool_optionality: DefaultBoolOptionality::Bare,
            allof_strategy: AllOfStrategy::Merge,
            include_schema_in_docs: true,
            open_enum_variant: None,
            string_newtype_conveniences: false,
        }
    }

    /// Set the name of the path prefix for types defined in this type space.
    pub fn with_type_mod(&mut self, type_mod: &str) -> (r: &mut Self)
        ensures
            r.type_mod matches Some(m) && m@ == type_mod@,
            *r == (TypeSpaceSettings { type_mod: r.type_mod, ..*old(self) }),
            *final(self) == *final(r),
    {
        self.type_mod = Some(string_of(type_mod));
        self
    }

    /// Add an additional derive macro to apply to all defined types; one
    /// already added is not added again.
    pub fn with_derive(&mut self, derive: String) -> (r: &mut Self)
        ensures
            strings_view(r.extra_derives@) == push_unique(
                strings_view(old(self).extra_derives@),
                derive@,
            ),
            *r == (TypeSpaceSettings { extra_derives: r.extra_derives, ..*old(self) }),
            *final(self) == *final(r),
    {
        if !contains_string(&self.extra_derives, derive.as_str()) {
            self.extra_derives.push(derive);
            assert(strings_view(self.extra_derives@) =~= strings_view(old(self).extra_derives@).push(
                derive@,
            ));
        }
        self
    }

    /// Add an additional attribute to apply to all defined types; one
    /// already added is not added again.
    pub fn with_attr(&mut self, attr: String) -> (r: &mut Self)
        ensures
            strings_view(r.extra_attrs@) == push_unique(
                strings_view(old(self).extra_attrs@),
                attr@,
            ),
            *r == (TypeSpaceSettings { extra_attrs: r.extra_attrs, ..*old(self) }),
            *final(self) == *final(r),
    {
        if !contains_string(&self.extra_attrs, attr.as_str()) {
            self.extra_attrs.push(attr);
            assert(strings_view(self.extra_attrs@) =~= strings_view(old(self).extra_attrs@).push(
                attr@,
            ));
        }
        self
    }

    /// For structs, include a builder type that can be used to construct
    /// them.
    pub fn with_struct_builder(&mut self, struct_builder: bool) -> (r: &mut Self)
        ensures
            *r == (TypeSpaceSettings { struct_builder, ..*old(self) }),
            *final(self) == *final(r),
    {
        self.struct_builder = struct_builder;
        self
    }

    /// Set the policy for crates named by schema extensions that are not explicitly specified.
    pub fn with_unknown_crates(&mut self, unknown_crates: UnknownPolicy) -> (r: &mut Self)
        ensures
            *r == (TypeSpaceSettings { unknown_crates, ..*old(self) }),
            *final(self) == *final(r),
    {
        self.unknown_crates = unknown_crates;
        self
    }

    /// Specify the map-like type to be used in generated code.
    pub fn with_map_type(&mut self, map_type: MapType) -> (r: &mut Self)
        ensures
            *r == (TypeSpaceSettings { map_type, ..*old(self) }),
            *final(self) == *final(r),
    {
        self.map_type = map_type;
        self
    }

    /// Override the Rust type used for `date` strings.
    pub fn with_date_type(&mut self, name: &str) -> (r: &mut Self)
        ensures
            r.date_type matches Some(t) && t@ == name@,
            *r == (TypeSpaceSettings { date_type: r.date_type, ..*old(self) }),
            *final(self) == *final(r),
    {
        self.date_type = Some(string_of(name));
        self
    }

    /// Override the Rust type used for `date-time` strings.
    pub fn with_date_time_type(&mut self, name: &str) -> (r: &mut Self)
        ensures
            r.date_time_type matches Some(t) && t@ == name@,
            *r == (TypeSpaceSettings { date_time_type: r.date_time_type, ..*old(self) }),
            *final(self) == *final(r),
    {
        self.date_time_type = Some(string_of(name));
        self
    }

    /// Override the Rust type used for `uuid` strings.
    pub fn with_uuid_type(&mut self, name: &str) -> (r: &mut Self)
        ensures
            r.uuid_type matches Some(t) && t@ == name@,
            *r == (TypeSpaceSettings { uuid_type: r.uuid_type, ..*old(self) }),
            *final(self) == *final(r),
    {
        self.uuid_type = Some(string_of(name));
        self
    }

    /// Emit constrained strings as plain `String`.
    pub fn with_unconstrained_string(&mut self, unconstrained_string: bool) -> (r: &mut Self)
        ensures
            *r == (TypeSpaceSettings { unconstrained_string, ..*old(self) }),
            *final(self) == *final(r),
    {
        self.unconstrained_string = unconstrained_string;
        self
    }

    /// Emit integers with `minimum: 1` as plain integers.
    pub fn with_unconstrained_int(&mut self, unconstrained_int: bool) -> (r: &mut Self)
        ensures
            *r == (TypeSpaceSettings { unconstrained_int, ..*old(self) }),
            *final(self) == *final(r),
    {
        self.unconstrained_int = unconstrained_int;
        self
    }

    /// Control how non-required arrays are emitted.
    pub fn with_array_optionality(&mut self, array_optionality: ArrayOptionality) -> (r: &mut Self)
        ensures
            *r == (TypeSpaceSettings { array_optionality, ..*old(self) }),
            *final(self) == *final(r),
    {
        self.array_optionality = array_optionality;
        self
    }

    /// Control how booleans with a schema-level default are emitted.
    pub fn with_default_bool_optionality(&mut self, default_bool_optionality: DefaultBoolOptionality) -> (r: &mut Self)
        ensures
            *r == (TypeSpaceSettings { default_bool_optionality, ..*old(self) }),
            *final(self) == *final(r),
    {
        self.default_bool_optionality = default_bool_optionality;
        self
    }

    /// Control how non-bool fields with a schema-level default are emitted.
    pub fn with_defaulted_field_optionality(&mut self, defaulted_field_optionality: DefaultedFieldOptionality) -> (r: &mut Self)
        ensures
            *r == (TypeSpaceSettings { defaulted_field_optionality, ..*old(self) }),
            *final(self) == *final(r),
    {
        self.defaulted_field_optionality = defaulted_field_optionality;
        self
    }

    /// Drop the redundant per-field default and skip attributes on `Option<T>` fields.
    pub fn with_elide_option_field_defaults(&mut self, elide_option_field_defaults: bool) -> (r: &mut Self)
        ensures
            *r == (TypeSpaceSettings { elide_option_field_defaults, ..*old(self) }),
            *final(self) == *final(r),
    {
        self.elide_option_field_defaults = elide_option_field_defaults;
        self
    }

    /// Control whether deep-patch naming attributes are emitted.
    pub fn with_deep_patches(&mut self, deep_patches: DeepPatchPolicy) -> (r: &mut Self)
        ensures
            *r == (TypeSpaceSettings { deep_patches, ..*old(self) }),
            *final(self) == *final(r),
    {
        self.deep_patches = deep_patches;
        self
    }

    /// Control how `allOf` compositions are rendered.
    pub fn with_allof_strategy(&mut self, allof_strategy: AllOfStrategy) -> (r: &mut Self)
        ensures
            *r == (TypeSpaceSettings { allof_strategy, ..*old(self) }),
            *final(self) == *final(r),
    {
        self.allof_strategy = allof_strategy;
        self
    }

    /// Whether doc comments embed the full JSON Schema.
    pub fn with_schema_in_docs(&mut self, include_schema_in_docs: bool) -> (r: &mut Self)
        ensures
            *r == (TypeSpaceSettings { include_schema_in_docs, ..*old(self) }),
            *final(self) == *final(r),
    {
        self.include_schema_in_docs = include_schema_in_docs;
        self
    }

    /// Open every plain string enum with a catch-all variant of this name,
    /// unless the enum already has a variant of that name.
    pub fn with_open_enum_variant(&mut self, name: &str) -> (r: &mut Self)
        ensures
            r.open_enum_variant matches Some(t) && t@ == name@,
            *r == (TypeSpaceSettings { open_enum_variant: r.open_enum_variant, ..*old(self) }),
            *final(self) == *final(r),
    {
        self.open_enum_variant = Some(string_of(name));
        self
    }

    /// Give string newtypes `AsRef<str>` and `Display` (and, when
    /// unconstrained, `From<&str>`).
    pub fn with_string_newtype_conveniences(&mut self, string_newtype_conveniences: bool) -> (r: &mut Self)
        ensures
            *r == (TypeSpaceSettings { string_newtype_conveniences, ..*old(self) }),
            *final(self) == *final(r),
    {
        self.string_newtype_conveniences = string_newtype_conveniences;
        self
    }

    /// The name of the catch-all variant of opened string enums, if any.
    pub fn open_string_enums(&self) -> (r: Option<&str>)
        ensures
            match (r, self.open_enum_variant) {
                (Some(a), Some(b)) => a@ == b@,
                (None, None) => true,
                _ => false,
            },
    {
        match &self.open_enum_variant {
            Some(n) => Some(n.as_str()),
            None => None,
        }
    }

    /// Configure a struct-level serde `rename_all` case on every generated struct.
    pub fn with_struct_rename_all(&mut self, name: &str) -> (r: &mut Self)
        ensures
            r.struct_rename_all matches Some(t) && t@ == name@,
            *r == (TypeSpaceSettings { struct_rename_all: r.struct_rename_all, ..*old(self) }),
            *final(self) == *final(r),
    {
        self.struct_rename_all = Some(string_of(name));
        self
    }

    /// Give every enum without a schema default a `Default` impl on its first unit variant.
    pub fn with_enum_first_variant_default(&mut self, enum_first_variant_default: bool) -> (r: &mut Self)
        ensures
            *r == (TypeSpaceSettings { enum_first_variant_default, ..*old(self) }),
            *final(self) == *final(r),
    {
        self.enum_first_variant_default = enum_first_variant_default;
        self
    }

    /// Configure explicit per-field serde names.
    pub fn with_serde_field_case(&mut self, case: SerdeFieldCase) -> (r: &mut Self)
        ensures
            *r == (TypeSpaceSettings { serde_field_case: Some(case), ..*old(self) }),
            *final(self) == *final(r),
    {
        self.serde_field_case = Some(case);
        self
    }

    /// Replace a referenced type with a named type; the last replacement
    /// given for a type name is the one kept.
    pub fn with_replacement(&mut self, name: &str, replace_type: &str, impls: &[TypeSpaceImpl]) -> (r:
        &mut Self)
        ensures
            exists|v: TypeSpaceReplace|
                v.replace_type@ == replace_type@ && v.impls@ == impls@ && keyed_insert(
                    old(self).replace@,
                    r.replace@,
                    name@,
                    v,
                ),
            *r == (TypeSpaceSettings { replace: r.replace, ..*old(self) }),
            *final(self) == *final(r),
    {
        let v = TypeSpaceReplace {
            replace_type: string_of(replace_type),
            impls: crate::type_entry::copy_impls(impls),
        };
        let ghost gv = v;
        insert_keyed(&mut self.replace, string_of(name), v);
        assert(keyed_insert(old(self).replace@, self.replace@, name@, gv));
        self
    }

    /// Modify the type with the given name; the last patch given for a type
    /// name is the one kept.
    pub fn with_patch(&mut self, name: &str, type_patch: &TypeSpacePatch) -> (r: &mut Self)
        ensures
            exists|v: TypeSpacePatch|
                v.rename == type_patch.rename && v.derives@ == type_patch.derives@ && v.attrs@
                    == type_patch.attrs@ && keyed_insert(old(self).patch@, r.patch@, name@, v),
            *r == (TypeSpaceSettings { patch: r.patch, ..*old(self) }),
            *final(self) == *final(r),
    {
        let v = type_patch.copy();
        let ghost gv = v;
        insert_keyed(&mut self.patch, string_of(name), v);
        assert(keyed_insert(old(self).patch@, self.patch@, name@, gv));
        self
    }

    /// Replace schemas matching `schema` (the entries of its serialized
    /// form) with the named type; conversions are kept in order.
    pub fn with_conversion(&mut self, schema: Vec<(String, JsonValue)>, name: &str, impls: &[TypeSpaceImpl]) -> (r:
        &mut Self)
        ensures
            r.convert@.len() == old(self).convert@.len() + 1,
            r.convert@.drop_last() == old(self).convert@,
            r.convert@.last().schema == schema,
            r.convert@.last().name@ == name@,
            r.convert@.last().impls@ == impls@,
            *r == (TypeSpaceSettings { convert: r.convert, ..*old(self) }),
            *final(self) == *final(r),
    {
        self.convert.push(
            TypeSpaceConversion {
                schema,
                name: string_of(name),
                impls: crate::type_entry::copy_impls(impls),
            },
        );
        assert(self.convert@.drop_last() =~= old(self).convert@);
        self
    }

    /// Use (rather than generate) types of the given crate and version; the
    /// last specification given for a crate is the one kept.
    pub fn with_crate(&mut self, crate_name: &str, version: CrateVers, rename: Option<&String>) -> (r:
        &mut Self)
        ensures
            exists|v: CrateSpec|
                v.version == version && v.rename == (match rename {
                    Some(n) => Some(*n),
                    None => None::<String>,
                }) && keyed_insert(old(self).crates@, r.crates@, crate_name@, v),
            *r == (TypeSpaceSettings { crates: r.crates, ..*old(self) }),
            *final(self) == *final(r),
    {
        let rename = match rename {
            Some(n) => Some(n.clone()),
            None => None,
        };
        let v = CrateSpec { version, rename };
        let ghost gv = v;
        insert_keyed(&mut self.crates, string_of(crate_name), v);
        assert(keyed_insert(old(self).crates@, self.crates@, crate_name@, gv));
        self
    }

    /// The configured defaulted-field optionality.
    pub fn defaulted_field_optionality(&self) -> (r: DefaultedFieldOptionality)
        ensures
            r == self.defaulted_field_optionality,
    {
        self.defaulted_field_optionality
    }

    /// Whether per-field default and skip attributes on `Option<T>` fields
    /// are elided.
    pub fn elide_option_field_defaults(&self) -> (r: bool)
        ensures
            r == self.elide_option_field_defaults,
    {
        self.elide_option_field_defaults
    }

    /// The configured bulk deep-patch policy.
    pub fn deep_patches(&self) -> (r: DeepPatchPolicy)
        ensures
            r == self.deep_patches,
    {
        self.deep_patches
    }

    /// The configured struct-level `rename_all` case, if any.
    pub fn struct_rename_all(&self) -> (r: Option<&str>)
        ensures
            match r {
                Some(c) => self.struct_rename_all matches Some(s) && c@ == s@,
                None => self.struct_rename_all is None,
            },
    {
        match &self.struct_rename_all {
            Some(s) => Some(s.as_str()),
            None => None,
        }
    }

    /// The configured per-field serde naming mode, if any.
    pub fn serde_field_case(&self) -> (r: Option<SerdeFieldCase>)
        ensures
            r == self.serde_field_case,
    {
        self.serde_field_case
    }

    /// Whether enums get a first-variant `Default` impl.
    pub fn enum_first_variant_default(&self) -> (r: bool)
        ensures
            r == self.enum_first_variant_default,
    {
        self.enum_first_variant_default
    }

    /// Add a derive emitted behind the Cargo feature `cfg` on every generated
    /// type.
    pub fn with_conditional_derive(&mut self, cfg: &str, derive: &str) -> (r: &mut Self)
        ensures
            added_conditional_derive(old(self).conditional_derives@, r.conditional_derives@, cfg@, derive@, TypeKindFilter { structs: true, enums: true, newtypes: true }),
            *r == (TypeSpaceSettings { conditional_derives: r.conditional_derives, ..*old(self) }),
            *final(self) == *final(r),
    {
        self.with_conditional_derive_for(cfg, derive, TypeKindFilter::all())
    }

    /// Add a derive emitted behind the Cargo feature `cfg` on the generated
    /// types selected by `kinds`; a derive already added for the same
    /// feature is not added again.
    pub fn with_conditional_derive_for(&mut self, cfg: &str, derive: &str, kinds: TypeKindFilter) -> (r:
        &mut Self)
        ensures
            added_conditional_derive(old(self).conditional_derives@, r.conditional_derives@, cfg@, derive@, kinds),
            *r == (TypeSpaceSettings { conditional_derives: r.conditional_derives, ..*old(self) }),
            *final(self) == *final(r),
    {
        let mut found = false;
        let mut i: usize = 0;
        while i < self.conditional_derives.len()
            invariant
                i <= self.conditional_derives.len(),
                self.conditional_derives == old(self).conditional_derives,
                found == seq_has(conditional_derive_keys(self.conditional_derives@.take(i as int)), (cfg@, derive@)),
            decreases self.conditional_derives.len() - i,
        {
            let ghost keys = conditional_derive_keys(self.conditional_derives@.take(i as int));
            let ghost keys1 = conditional_derive_keys(self.conditional_derives@.take(i + 1));
            assert(keys1 =~= keys.push((self.conditional_derives@[i as int].cfg@, self.conditional_derives@[i as int].derive@)));
            let c = &self.conditional_derives[i];
            let same = str_equal(c.cfg.as_str(), cfg) && str_equal(c.derive.as_str(), derive);
            proof {
                lemma_seq_has_push(keys, (self.conditional_derives@[i as int].cfg@, self.conditional_derives@[i as int].derive@), (cfg@, derive@));
            }
            found = found || same;
            i = i + 1;
        }
        assert(self.conditional_derives@.take(self.conditional_derives.len() as int) =~= self.conditional_derives@);
        if !found {
            self.conditional_derives.push(
                ConditionalDerive { cfg: string_of(cfg), derive: string_of(derive), kinds },
            );
            assert(self.conditional_derives@.drop_last() =~= old(self).conditional_derives@);
        }
        self
    }

    /// Add an attribute emitted behind the Cargo feature `cfg` on every
    /// generated type, before the main derive.
    pub fn with_conditional_attr(&mut self, cfg: &str, attr: &str) -> (r: &mut Self)
        ensures
            added_conditional_attr(old(self).conditional_attrs@, r.conditional_attrs@, cfg@, attr@, AttrPosition::BeforeDerive, TypeKindFilter { structs: true, enums: true, newtypes: true }),
            *r == (TypeSpaceSettings { conditional_attrs: r.conditional_attrs, ..*old(self) }),
            *final(self) == *final(r),
    {
        self.with_conditional_attr_for(cfg, attr, TypeKindFilter::all())
    }

    /// Add an attribute emitted behind the Cargo feature `cfg` on the
    /// generated types selected by `kinds`, before the main derive.
    pub fn with_conditional_attr_for(&mut self, cfg: &str, attr: &str, kinds: TypeKindFilter) -> (r:
        &mut Self)
        ensures
            added_conditional_attr(old(self).conditional_attrs@, r.conditional_attrs@, cfg@, attr@, AttrPosition::BeforeDerive, kinds),
            *r == (TypeSpaceSettings { conditional_attrs: r.conditional_attrs, ..*old(self) }),
            *final(self) == *final(r),
    {
        self.with_conditional_attr_at(cfg, attr, AttrPosition::BeforeDerive, kinds)
    }

    /// Add an attribute emitted behind the Cargo feature `cfg` at `position`
    /// on the generated types selected by `kinds`; one already added for the
    /// same feature and position is not added again.
    pub fn with_conditional_attr_at(&mut self, cfg: &str, attr: &str, position: AttrPosition, kinds: TypeKindFilter) -> (r:
        &mut Self)
        ensures
            added_conditional_attr(old(self).conditional_attrs@, r.conditional_attrs@, cfg@, attr@, position, kinds),
            *r == (TypeSpaceSettings { conditional_attrs: r.conditional_attrs, ..*old(self) }),
            *final(self) == *final(r),
    {
        let mut found = false;
        let mut i: usize = 0;
        while i < self.conditional_attrs.len()
            invariant
                i <= self.conditional_attrs.len(),
                self.conditional_attrs == old(self).conditional_attrs,
                found == seq_has(conditional_attr_keys(self.conditional_attrs@.take(i as int)), (cfg@, attr@, position)),
            decreases self.conditional_attrs.len() - i,
        {
            let ghost keys = conditional_attr_keys(self.conditional_attrs@.take(i as int));
            let ghost k = (self.conditional_attrs@[i as int].cfg@, self.conditional_attrs@[i as int].attr@, self.conditional_attrs@[i as int].position);
            assert(conditional_attr_keys(self.conditional_attrs@.take(i + 1)) =~= keys.push(k));
            let c = &self.conditional_attrs[i];
            let same = str_equal(c.cfg.as_str(), cfg) && str_equal(c.attr.as_str(), attr) && c.position == position;
            proof {
                lemma_seq_has_push(keys, k, (cfg@, attr@, position));
            }
            found = found || same;
            i = i + 1;
        }
        assert(self.conditional_attrs@.take(self.conditional_attrs.len() as int) =~= self.conditional_attrs@);
        if !found {
            self.conditional_attrs.push(
                ConditionalAttr { cfg: string_of(cfg), attr: string_of(attr), position, kinds },
            );
            assert(self.conditional_attrs@.drop_last() =~= old(self).conditional_attrs@);
        }
        self
    }

    /// Add an attribute emitted on every generated type, before the main
    /// derive.
    pub fn with_unconditional_attr(&mut self, attr: &str) -> (r: &mut Self)
        ensures
            added_unconditional_attr(old(self).unconditional_attrs@, r.unconditional_attrs@, attr@, AttrPosition::BeforeDerive, TypeKindFilter { structs: true, enums: true, newtypes: true }),
            *r == (TypeSpaceSettings { unconditional_attrs: r.unconditional_attrs, ..*old(self) }),
            *final(self) == *final(r),
    {
        self.with_unconditional_attr_at(attr, AttrPosition::BeforeDerive, TypeKindFilter::all())
    }

    /// Add an attribute emitted on the generated types selected by `kinds`,
    /// before the main derive.
    pub fn with_unconditional_attr_for(&mut self, attr: &str, kinds: TypeKindFilter) -> (r: &mut Self)
        ensures
            added_unconditional_attr(old(self).unconditional_attrs@, r.unconditional_attrs@, attr@, AttrPosition::BeforeDerive, kinds),
            *r == (TypeSpaceSettings { unconditional_attrs: r.unconditional_attrs, ..*old(self) }),
            *final(self) == *final(r),
    {
        self.with_unconditional_attr_at(attr, AttrPosition::BeforeDerive, kinds)
    }

    /// Add an attribute emitted at `position` on the generated types
    /// selected by `kinds`; one already added with the same position and
    /// kinds is not added again, so insertion order is kept.
    pub fn with_unconditional_attr_at(&mut self, attr: &str, position: AttrPosition, kinds: TypeKindFilter) -> (r:
        &mut Self)
        ensures
            added_unconditional_attr(old(self).unconditional_attrs@, r.unconditional_attrs@, attr@, position, kinds),
            *r == (TypeSpaceSettings { unconditional_attrs: r.unconditional_attrs, ..*old(self) }),
            *final(self) == *final(r),
    {
        let mut found = false;
        let mut i: usize = 0;
        while i < self.unconditional_attrs.len()
            invariant
                i <= self.unconditional_attrs.len(),
                self.unconditional_attrs == old(self).unconditional_attrs,
                found == seq_has(unconditional_attr_keys(self.unconditional_attrs@.take(i as int)), (attr@, position, kinds)),
            decreases self.unconditional_attrs.len() - i,
        {
            let ghost keys = unconditional_attr_keys(self.unconditional_attrs@.take(i as int));
            let ghost k = (self.unconditional_attrs@[i as int].attr@, self.unconditional_attrs@[i as int].position, self.unconditional_attrs@[i as int].kinds);
            assert(unconditional_attr_keys(self.unconditional_attrs@.take(i + 1)) =~= keys.push(k));
            let u = &self.unconditional_attrs[i];
            let same = str_equal(u.attr.as_str(), attr) && u.position == position && u.kinds == kinds;
            proof {
                lemma_seq_has_push(keys, k, (attr@, position, kinds));
            }
            found = found || same;
            i = i + 1;
        }
        assert(self.unconditional_attrs@.take(self.unconditional_attrs.len() as int) =~= self.unconditional_attrs@);
        if !found {
            self.unconditional_attrs.push(
                UnconditionalAttr { attr: string_of(attr), position, kinds },
            );
            assert(self.unconditional_attrs@.drop_last() =~= old(self).unconditional_attrs@);
        }
        self
    }

    /// Add a derive to the main derive list of every generated type.
    pub fn with_unconditional_derive(&mut self, derive: &str) -> (r: &mut Self)
        ensures
            added_unconditional_derive(old(self).unconditional_derives@, r.unconditional_derives@, derive@, TypeKindFilter { structs: true, enums: true, newtypes: true }),
            *r == (TypeSpaceSettings { unconditional_derives: r.unconditional_derives, ..*old(self) }),
            *final(self) == *final(r),
    {
        self.with_unconditional_derive_for(derive, TypeKindFilter::all())
    }

    /// Add a derive to the main derive list of the generated types selected
    /// by `kinds`; one already added with the same kinds is not added again.
    pub fn with_unconditional_derive_for(&mut self, derive: &str, kinds: TypeKindFilter) -> (r: &mut Self)
        ensures
            added_unconditional_derive(old(self).unconditional_derives@, r.unconditional_derives@, derive@, kinds),
            *r == (TypeSpaceSettings { unconditional_derives: r.unconditional_derives, ..*old(self) }),
            *final(self) == *final(r),
    {
        let mut found = false;
        let mut i: usize = 0;
        while i < self.unconditional_derives.len()
            invariant
                i <= self.unconditional_derives.len(),
                self.unconditional_derives == old(self).unconditional_derives,
                found == seq_has(unconditional_derive_keys(self.unconditional_derives@.take(i as int)), (derive@, kinds)),
            decreases self.unconditional_derives.len() - i,
        {
            let ghost keys = unconditional_derive_keys(self.unconditional_derives@.take(i as int));
            let ghost k = (self.unconditional_derives@[i as int].derive@, self.unconditional_derives@[i as int].kinds);
            assert(unconditional_derive_keys(self.unconditional_derives@.take(i + 1)) =~= keys.push(k));
            let u = &self.unconditional_derives[i];
            let same = str_equal(u.derive.as_str(), derive) && u.kinds == kinds;
            proof {
                lemma_seq_has_push(keys, k, (derive@, kinds));
            }
            found = found || same;
            i = i + 1;
        }
        assert(self.unconditional_derives@.take(self.unconditional_derives.len() as int) =~= self.unconditional_derives@);
        if !found {
            self.unconditional_derives.push(UnconditionalDerive { derive: string_of(derive), kinds });
            assert(self.unconditional_derives@.drop_last() =~= old(self).unconditional_derives@);
        }
        self
    }
}

/// A copy of the strings of `v`.
pub fn copy_strings(v: &Vec<String>) -> (r: Vec<String>)
    ensures
        r@ == v@,
{
    let mut out: Vec<String> = Vec::new();
    let mut i: usize = 0;
    while i < v.len()
        invariant
            i <= v.len(),
            out@ == v@.take(i as int),
        decreases v.len() - i,
    {
        out.push(v[i].clone());
        assert(out@ =~= v@.take(i + 1));
        i = i + 1;
    }
    assert(v@.take(v.len() as int) =~= v@);
    out
}

impl Default for TypeSpaceSettings {
    fn default() -> (r: Self)
        ensures
            r.is_default(),
    {
        TypeSpaceSettings::new()
    }
}

impl Default for TypeSpacePatch {
    fn default() -> (r: Self)
        ensures
            r.rename is None,
            r.derives@.len() == 0,
            r.attrs@.len() == 0,
    {
        TypeSpacePatch::new()
    }
}

impl Default for MapType {
    fn default() -> (r: Self)
        ensures
            r.path@ == "::std::collections::HashMap"@,
    {
        MapType::default_map()
    }
}

/// Whether `s` holds the string `x`.
pub fn contains_string(v: &Vec<String>, x: &str) -> (r: bool)
    ensures
        r == seq_has(strings_view(v@), x@),
{
    let mut i: usize = 0;
    while i < v.len()
        invariant
            i <= v.len(),
            forall|k: int| 0 <= k < i ==> v@[k]@ != x@,
        decreases v.len() - i,
    {
        if str_equal(v[i].as_str(), x) {
            assert(strings_view(v@)[i as int] == x@);
            return true;
        }
        i = i + 1;
    }
    assert forall|k: int| 0 <= k < v.len() implies strings_view(v@)[k] != x@ by {
        assert(v@[k]@ != x@);
    }
    false
}


/// Adding a value that is already there changes nothing: adding the same
/// derive or attribute twice is the same as adding it once.
pub proof fn law_push_unique_idempotent<T>(s: Seq<T>, x: T)
    ensures
        push_unique(push_unique(s, x), x) == push_unique(s, x),
{
    if !seq_has(s, x) {
        assert(s.push(x)[s.len() as int] == x);
    }
}

/// Adding to a list without duplicates keeps it without duplicates, keeps
/// every earlier value in its place, and leaves the value in the list.
pub proof fn law_push_unique_keeps_unique<T>(s: Seq<T>, x: T)
    requires
        no_duplicates(s),
    ensures
        no_duplicates(push_unique(s, x)),
        push_unique(s, x).take(s.len() as int) == s,
        seq_has(push_unique(s, x), x),
{
    if !seq_has(s, x) {
        assert(s.push(x).take(s.len() as int) =~= s);
        assert(s.push(x)[s.len() as int] == x);
        assert forall|i: int, j: int| 0 <= i < j < s.push(x).len() implies s.push(x)[i] != s.push(
            x,
        )[j] by {
            if j == s.len() {
                assert(s[i] != x);
            }
        }
    } else {
        assert(s.take(s.len() as int) =~= s);
    }
}

/// After a keyed insert the key maps to the inserted value.
pub proof fn law_keyed_insert_read<V>(old: Seq<(String, V)>, new: Seq<(String, V)>, k: Seq<char>, v: V)
    requires
        keyed_insert(old, new, k, v),
    ensures
        key_pos(new, k) matches Some(i) && new[i].1 == v,
{
    lemma_key_pos(old, k);
    match key_pos(old, k) {
        Some(i) => {
            assert forall|j: int| 0 <= j < i implies new[j].0@ != k by {
                assert(new[j] == old[j]);
            }
            assert(new.take(i).len() == i);
            lemma_key_pos(new.take(i), k);
            assert forall|j: int| 0 <= j < i implies new.take(i)[j].0@ != k by {
                assert(new.take(i)[j] == new[j]);
            }
            lemma_key_pos_prefix(new, k, i);
        },
        None => {
            let n = old.len() as int;
            assert forall|j: int| 0 <= j < n implies new.take(n)[j].0@ != k by {
                assert(new.take(n)[j] == old[j]);
            }
            lemma_key_pos(new.take(n), k);
            lemma_key_pos_prefix(new, k, n);
        },
    }
}

/// Of two values given for one key, the last is the one kept, and the
/// number of entries grows at most once.
pub proof fn law_keyed_insert_last_wins<V>(
    a: Seq<(String, V)>,
    b: Seq<(String, V)>,
    c: Seq<(String, V)>,
    k: Seq<char>,
    v1: V,
    v2: V,
)
    requires
        keyed_insert(a, b, k, v1),
        keyed_insert(b, c, k, v2),
    ensures
        key_pos(c, k) matches Some(i) && c[i].1 == v2,
        c.len() == b.len(),
        c.len() <= a.len() + 1,
{
    law_keyed_insert_read(a, b, k, v1);
    law_keyed_insert_read(b, c, k, v2);
}


/// Adding a conditional derive appends its feature and derive to the keys
/// unless they are there, so the keys stay free of duplicates.
pub proof fn law_conditional_derive_keys(
    old: Seq<ConditionalDerive>,
    new: Seq<ConditionalDerive>,
    cfg: Seq<char>,
    derive: Seq<char>,
    kinds: TypeKindFilter,
)
    requires
        added_conditional_derive(old, new, cfg, derive, kinds),
    ensures
        conditional_derive_keys(new) == push_unique(conditional_derive_keys(old), (cfg, derive)),
        no_duplicates(conditional_derive_keys(old)) ==> no_duplicates(conditional_derive_keys(new)),
{
    if !seq_has(conditional_derive_keys(old), (cfg, derive)) {
        assert(new =~= old.push(new.last()));
        assert(conditional_derive_keys(new) =~= conditional_derive_keys(old).push((cfg, derive)));
    }
    if no_duplicates(conditional_derive_keys(old)) {
        law_push_unique_keeps_unique(conditional_derive_keys(old), (cfg, derive));
    }
}

/// Adding a conditional attribute appends its feature, attribute and
/// position to the keys unless they are there, so the keys stay free of
/// duplicates.
pub proof fn law_conditional_attr_keys(
    old: Seq<ConditionalAttr>,
    new: Seq<ConditionalAttr>,
    cfg: Seq<char>,
    attr: Seq<char>,
    position: AttrPosition,
    kinds: TypeKindFilter,
)
    requires
        added_conditional_attr(old, new, cfg, attr, position, kinds),
    ensures
        conditional_attr_keys(new) == push_unique(conditional_attr_keys(old), (cfg, attr, position)),
        no_duplicates(conditional_attr_keys(old)) ==> no_duplicates(conditional_attr_keys(new)),
{
    if !seq_has(conditional_attr_keys(old), (cfg, attr, position)) {
        assert(new =~= old.push(new.last()));
        assert(conditional_attr_keys(new) =~= conditional_attr_keys(old).push((cfg, attr, position)));
    }
    if no_duplicates(conditional_attr_keys(old)) {
        law_push_unique_keeps_unique(conditional_attr_keys(old), (cfg, attr, position));
    }
}

/// Adding an unconditional attribute appends its attribute, position and
/// kinds to the keys unless they are there, so insertion order is kept and
/// the keys stay free of duplicates.
pub proof fn law_unconditional_attr_keys(
    old: Seq<UnconditionalAttr>,
    new: Seq<UnconditionalAttr>,
    attr: Seq<char>,
    position: AttrPosition,
    kinds: TypeKindFilter,
)
    requires
        added_unconditional_attr(old, new, attr, position, kinds),
    ensures
        unconditional_attr_keys(new) == push_unique(unconditional_attr_keys(old), (attr, position, kinds)),
        no_duplicates(unconditional_attr_keys(old)) ==> no_duplicates(unconditional_attr_keys(new)),
{
    if !seq_has(unconditional_attr_keys(old), (attr, position, kinds)) {
        assert(new =~= old.push(new.last()));
        assert(unconditional_attr_keys(new) =~= unconditional_attr_keys(old).push((attr, position, kinds)));
    }
    if no_duplicates(unconditional_attr_keys(old)) {
        law_push_unique_keeps_unique(unconditional_attr_keys(old), (attr, position, kinds));
    }
}

/// Adding an unconditional derive appends its derive and kinds to the keys
/// unless they are there, so insertion order is kept and the keys stay
/// free of duplicates.
pub proof fn law_unconditional_derive_keys(
    old: Seq<UnconditionalDerive>,
    new: Seq<UnconditionalDerive>,
    derive: Seq<char>,
    kinds: TypeKindFilter,
)
    requires
        added_unconditional_derive(old, new, derive, kinds),
    ensures
        unconditional_derive_keys(new) == push_unique(unconditional_derive_keys(old), (derive, kinds)),
        no_duplicates(unconditional_derive_keys(old)) ==> no_duplicates(unconditional_derive_keys(new)),
{
    if !seq_has(unconditional_derive_keys(old), (derive, kinds)) {
        assert(new =~= old.push(new.last()));
        assert(unconditional_derive_keys(new) =~= unconditional_derive_keys(old).push((derive, kinds)));
    }
    if no_duplicates(unconditional_derive_keys(old)) {
        law_push_unique_keeps_unique(unconditional_derive_keys(old), (derive, kinds));
    }
}

} // verus!
