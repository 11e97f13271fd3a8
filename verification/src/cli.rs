//! The textual options of the command-line tool and of the macro: crate
//! specifiers, type-kind filters, and the settings they select.

use vstd::prelude::*;

use crate::attrs::push_all_unique;
use crate::json::JsonValue;
use crate::settings::{
    added_conditional_attr, added_conditional_derive, AllOfStrategy, ArrayOptionality, AttrPosition,
    ConditionalAttr, ConditionalDerive, CrateSpec, CrateVers, DeepPatchPolicy,
    DefaultBoolOptionality, DefaultedFieldOptionality, MapType, TypeSpacePatch, TypeSpaceReplace,
    TypeSpaceSettings, UnknownPolicy, crate_vers_is, keyed_insert, parses_as_rust_type, semver_parses,
    strings_view,
};
use crate::TypeSpaceImpl;
use crate::strings::{str_debug, chars_of, find_char, first_index_of, is_str, string_from_chars, lemma_first_index_of};
use crate::TypeKindFilter;

verus! {

/// Whether `char::is_alphabetic` holds of `c`.
pub uninterp spec fn char_is_alphabetic(c: char) -> bool;

/// Whether `char::is_alphanumeric` holds of `c`.
pub uninterp spec fn char_is_alphanumeric(c: char) -> bool;

/// `char::is_alphabetic`: whether `c` has the Unicode `Alphabetic`
/// property.
#[verifier::external_body]
fn is_alphabetic(c: char) -> (r: bool)
    ensures
        r == char_is_alphabetic(c),
{
    c.is_alphabetic()
}

/// `char::is_alphanumeric`: whether `c` is alphabetic or numeric.
#[verifier::external_body]
fn is_alphanumeric(c: char) -> (r: bool)
    ensures
        r == char_is_alphanumeric(c),
{
    c.is_alphanumeric()
}

/// Whether `c` may occur in a crate name.
pub open spec fn crate_name_char(c: char) -> bool {
    char_is_alphanumeric(c) || c == '-' || c == '_'
}

/// Whether `s` is a crate name: it starts with a letter or `_`, and has
/// only alphanumeric characters, `-` and `_`.
pub open spec fn spec_is_crate(s: Seq<char>) -> bool {
    &&& s.len() > 0
    &&& (char_is_alphabetic(s[0]) || s[0] == '_')
    &&& forall|i: int| 0 <= i < s.len() ==> #[trigger] crate_name_char(s[i])
}

/// Whether the characters `cs` form a crate name.
pub fn chars_are_crate(cs: &[char]) -> (r: bool)
    ensures
        r == spec_is_crate(cs@),
{
    if cs.len() == 0 {
        return false;
    }
    if !(is_alphabetic(cs[0]) || cs[0] == '_') {
        return false;
    }
    let mut i: usize = 0;
    while i < cs.len()
        invariant
            i <= cs.len(),
            forall|k: int| 0 <= k < i ==> #[trigger] crate_name_char(cs@[k]),
        decreases cs.len() - i,
    {
        let c = cs[i];
        if !(is_alphanumeric(c) || c == '-' || c == '_') {
            assert(!crate_name_char(cs@[i as int]));
            return false;
        }
        i = i + 1;
    }
    true
}

/// Whether `s` is a crate name.
pub fn is_crate(s: &str) -> (r: bool)
    ensures
        r == spec_is_crate(s@),
{
    let cs = chars_of(s);
    chars_are_crate(cs.as_slice())
}

/// A `crate@version` specifier of the command-line tool, optionally
/// prefixed by `rename=`.
#[derive(Debug)]
pub struct CrateSpecArg {
    pub name: String,
    pub version: CrateVers,
    pub rename: Option<String>,
}

/// What a crate specifier `s` denotes, where valid: the rename, the crate
/// name, and the version text.
pub open spec fn spec_crate_spec_arg(s: Seq<char>) -> Option<(Option<Seq<char>>, Seq<char>, Seq<char>)> {
    let (rename, rest) = match first_index_of(s, '=') {
        Some(i) => (Some(s.take(i)), s.skip(i + 1)),
        None => (None, s),
    };
    if rename matches Some(r) && !spec_is_crate(r) {
        None
    } else {
        match first_index_of(rest, '@') {
            None => None,
            Some(j) => {
                let name = rest.take(j);
                let vers = rest.skip(j + 1);
                if !spec_is_crate(name) {
                    None
                } else if vers == "!"@ || vers == "*"@ || semver_parses(vers) {
                    Some((rename, name, vers))
                } else {
                    None
                }
            },
        }
    }
}

/// The message of a refused crate specifier.
pub open spec fn crate_spec_message() -> Seq<char> {
    "crate specifier must be of the form 'cratename@version'"@
}

fn split_chars(cs: &[char], at: usize) -> (r: (Vec<char>, Vec<char>))
    requires
        at < cs.len(),
    ensures
        r.0@ == cs@.take(at as int),
        r.1@ == cs@.skip(at + 1),
{
    let mut a: Vec<char> = Vec::new();
    let mut b: Vec<char> = Vec::new();
    let mut i: usize = 0;
    while i < cs.len()
        invariant
            i <= cs.len(),
            at < cs.len(),
            i <= at ==> a@ == cs@.take(i as int) && b@.len() == 0,
            i > at ==> a@ == cs@.take(at as int) && b@ == cs@.subrange(at + 1, i as int),
        decreases cs.len() - i,
    {
        if i < at {
            a.push(cs[i]);
            assert(a@ =~= cs@.take(i + 1));
        } else if i > at {
            b.push(cs[i]);
            assert(b@ =~= cs@.subrange(at + 1, i + 1));
        } else {
            assert(b@ =~= cs@.subrange(at + 1, i + 1));
        }
        i = i + 1;
    }
    assert(cs@.subrange(at + 1, cs.len() as int) =~= cs@.skip(at + 1));
    (a, b)
}

impl CrateSpecArg {
    /// Parses `[rename=]cratename@version`.
    pub fn parse(s: &str) -> (r: Result<Self, String>)
        ensures
            match spec_crate_spec_arg(s@) {
                Some((rename, name, vers)) => r matches Ok(spec) && spec.name@ == name && (match (
                    spec.rename,
                    rename,
                ) {
                    (Some(a), Some(b)) => a@ == b,
                    (None, None) => true,
                    _ => false,
                }) && crate_vers_is(spec.version, vers),
                None => r matches Err(m) && m@ == crate_spec_message(),
            },
    {
        match CrateSpecArg::convert(s) {
            Some(spec) => Ok(spec),
            None => Err(crate::strings::string_of(
                "crate specifier must be of the form 'cratename@version'",
            )),
        }
    }

    fn convert(s: &str) -> (r: Option<Self>)
        ensures
            match spec_crate_spec_arg(s@) {
                Some((rename, name, vers)) => r matches Some(spec) && spec.name@ == name && (match (
                    spec.rename,
                    rename,
                ) {
                    (Some(a), Some(b)) => a@ == b,
                    (None, None) => true,
                    _ => false,
                }) && crate_vers_is(spec.version, vers),
                None => r is None,
            },
    {
        let cs = chars_of(s);
        proof {
            lemma_first_index_of(s@, '=');
        }
        let (rename, rest): (Option<String>, Vec<char>) = match find_char(cs.as_slice(), '=') {
            Some(i) => {
                let (a, b) = split_chars(cs.as_slice(), i);
                if !chars_are_crate(a.as_slice()) {
                    return None;
                }
                (Some(string_from_chars(a.as_slice())), b)
            },
            None => (None, cs),
        };
        proof {
            lemma_first_index_of(rest@, '@');
        }
        let j = match find_char(rest.as_slice(), '@') {
            Some(j) => j,
            None => {
                return None;
            },
        };
        let (name, vers) = split_chars(rest.as_slice(), j);
        if !chars_are_crate(name.as_slice()) {
            return None;
        }
        let vers_str = string_from_chars(vers.as_slice());
        proof {
            reveal_strlit("!");
            reveal_strlit("*");
            assert("!"@[0] != "*"@[0]);
        }
        let version = match CrateVers::parse(vers_str.as_str()) {
            Some(v) => v,
            None => {
                return None;
            },
        };
        Some(CrateSpecArg { name: string_from_chars(name.as_slice()), version, rename })
    }
}

/// Why a macro crate specifier is refused.
#[derive(Debug, Clone, Copy, PartialEq, Eq, Structural)]
pub enum CrateSpecError {
    /// The part before `@` is not a crate name.
    InvalidCrateName,
    /// The version is not `!`, `*` or a semantic version.
    InvalidVersion,
}

/// A crate version given to the macro, optionally naming the crate of
/// which the key crate is a rename (`original@version`).
#[derive(Debug)]
pub struct MacroCrateSpec {
    pub original: Option<String>,
    pub version: CrateVers,
}

/// What a macro crate specifier `s` denotes: the original crate name if
/// there is one, and the version text; or why it is refused.
pub open spec fn spec_macro_crate_spec(s: Seq<char>) -> Result<(Option<Seq<char>>, Seq<char>), CrateSpecError> {
    let (original, vers) = match first_index_of(s, '@') {
        Some(i) => (Some(s.take(i)), s.skip(i + 1)),
        None => (None, s),
    };
    if original matches Some(o) && !spec_is_crate(o) {
        Err(CrateSpecError::InvalidCrateName)
    } else if vers == "!"@ || vers == "*"@ || semver_parses(vers) {
        Ok((original, vers))
    } else {
        Err(CrateSpecError::InvalidVersion)
    }
}

impl MacroCrateSpec {
    /// Parses `[original@]version`.
    pub fn parse(s: &str) -> (r: Result<Self, CrateSpecError>)
        ensures
            match spec_macro_crate_spec(s@) {
                Ok((original, vers)) => r matches Ok(spec) && (match (spec.original, original) {
                    (Some(a), Some(b)) => a@ == b,
                    (None, None) => true,
                    _ => false,
                }) && crate_vers_is(spec.version, vers),
                Err(e) => r == Err::<Self, CrateSpecError>(e),
            },
    {
        let cs = chars_of(s);
        proof {
            lemma_first_index_of(s@, '@');
        }
        let (original, vers): (Option<String>, Vec<char>) = match find_char(cs.as_slice(), '@') {
            Some(i) => {
                let (a, b) = split_chars(cs.as_slice(), i);
                if !chars_are_crate(a.as_slice()) {
                    return Err(CrateSpecError::InvalidCrateName);
                }
                (Some(string_from_chars(a.as_slice())), b)
            },
            None => (None, cs),
        };
        let vers_str = string_from_chars(vers.as_slice());
        proof {
            reveal_strlit("!");
            reveal_strlit("*");
            assert("!"@[0] != "*"@[0]);
        }
        match CrateVers::parse(vers_str.as_str()) {
            Some(version) => Ok(MacroCrateSpec { original, version }),
            None => Err(CrateSpecError::InvalidVersion),
        }
    }
}

/// The filter that a macro `kinds` option names: none or `all`, `structs`,
/// `enums`, `newtypes`.
pub open spec fn spec_kinds_filter(kinds: Option<Seq<char>>) -> Option<TypeKindFilter> {
    match kinds {
        None => Some(TypeKindFilter { structs: true, enums: true, newtypes: true }),
        Some(k) => if k == "all"@ {
            Some(TypeKindFilter { structs: true, enums: true, newtypes: true })
        } else if k == "structs"@ {
            Some(TypeKindFilter { structs: true, enums: false, newtypes: false })
        } else if k == "enums"@ {
            Some(TypeKindFilter { structs: false, enums: true, newtypes: false })
        } else if k == "newtypes"@ {
            Some(TypeKindFilter { structs: false, enums: false, newtypes: true })
        } else {
            None
        },
    }
}

/// The filter that a macro `kinds` option names, if it names one.
pub fn parse_kinds_filter(kinds: Option<&str>) -> (r: Option<TypeKindFilter>)
    ensures
        r == spec_kinds_filter(
            match kinds {
                Some(k) => Some(k@),
                None => None,
            },
        ),
{
    match kinds {
        None => Some(TypeKindFilter::all()),
        Some(k) => if is_str(k, "all") {
            Some(TypeKindFilter::all())
        } else if is_str(k, "structs") {
            Some(TypeKindFilter::structs_only())
        } else if is_str(k, "enums") {
            Some(TypeKindFilter::enums_only())
        } else if is_str(k, "newtypes") {
            Some(TypeKindFilter::newtypes_only())
        } else {
            None
        },
    }
}

/// The filter that a macro `kinds` option names; the option must name one.
pub fn kinds_filter(kinds: Option<&str>) -> (r: TypeKindFilter)
    requires
        spec_kinds_filter(
            match kinds {
                Some(k) => Some(k@),
                None => None,
            },
        ) is Some,
    ensures
        Some(r) == spec_kinds_filter(
            match kinds {
                Some(k) => Some(k@),
                None => None,
            },
        ),
{
    match parse_kinds_filter(kinds) {
        Some(f) => f,
        None => TypeKindFilter::all(),
    }
}

/// Whether the builder-style interface is selected: unless `--no-builder`
/// is given.
pub fn use_builder(no_builder: bool) -> (r: bool)
    ensures
        r == !no_builder,
{
    !no_builder
}

/// The policy that an `--unknown-crates` value names.
pub open spec fn spec_unknown_policy(s: Seq<char>) -> Option<UnknownPolicy> {
    if s == "generate"@ {
        Some(UnknownPolicy::Generate)
    } else if s == "allow"@ {
        Some(UnknownPolicy::Allow)
    } else if s == "deny"@ {
        Some(UnknownPolicy::Deny)
    } else {
        None
    }
}

/// Parses an `--unknown-crates` value.
pub fn parse_unknown_policy(s: &str) -> (r: Option<UnknownPolicy>)
    ensures
        r == spec_unknown_policy(s@),
{
    if is_str(s, "generate") {
        Some(UnknownPolicy::Generate)
    } else if is_str(s, "allow") {
        Some(UnknownPolicy::Allow)
    } else if is_str(s, "deny") {
        Some(UnknownPolicy::Deny)
    } else {
        None
    }
}

/// The strategy that an `--all-of-strategy` value names.
pub open spec fn spec_all_of_strategy(s: Seq<char>) -> Option<AllOfStrategy> {
    if s == "merge"@ {
        Some(AllOfStrategy::Merge)
    } else if s == "compose"@ {
        Some(AllOfStrategy::Compose)
    } else {
        None
    }
}

/// Parses an `--all-of-strategy` value.
pub fn parse_all_of_strategy(s: &str) -> (r: Option<AllOfStrategy>)
    ensures
        r == spec_all_of_strategy(s@),
{
    if is_str(s, "merge") {
        Some(AllOfStrategy::Merge)
    } else if is_str(s, "compose") {
        Some(AllOfStrategy::Compose)
    } else {
        None
    }
}

/// The crate table after the crate specifiers `specs` were recorded in
/// order into `first`, through the intermediate tables `states`: each
/// specifier's crate is set to its version and rename, the last specifier
/// of a crate winning.
pub open spec fn crates_recorded_through(
    first: Seq<(String, CrateSpec)>,
    states: Seq<Seq<(String, CrateSpec)>>,
    specs: Seq<CrateSpecArg>,
) -> bool {
    &&& states.len() == specs.len() + 1
    &&& states[0] == first
    &&& forall|i: int| #![trigger specs[i]] 0 <= i < specs.len() ==> keyed_insert(states[i], states[i + 1],
        specs[i].name@, CrateSpec { version: specs[i].version, rename: specs[i].rename })
}

/// Whether `last` is the crate table after the crate specifiers `specs`
/// were recorded in order into `first`.
pub open spec fn crates_recorded(first: Seq<(String, CrateSpec)>, last: Seq<(String, CrateSpec)>, specs: Seq<CrateSpecArg>) -> bool {
    exists|states: Seq<Seq<(String, CrateSpec)>>| #[trigger] crates_recorded_through(first, states, specs)
        && states.last() == last
}

/// The settings that the command-line options select: the builder style
/// unless `--no-builder`, each extra derive and attribute once, each crate
/// specifier in order, the map type, the unknown-crates policy, the `allOf`
/// strategy, the catch-all variant of open enums, and no schema in docs
/// where asked; every other option at its default. The policy and strategy
/// values are among those the options admit.
pub fn cli_settings(
    no_builder: bool,
    derives: &Vec<String>,
    attrs: &Vec<String>,
    crates: Vec<CrateSpecArg>,
    map_type: Option<MapType>,
    unknown_crates: Option<&str>,
    all_of_strategy: Option<&str>,
    open_enum_variant: Option<&str>,
    no_schema_in_docs: bool,
) -> (r: TypeSpaceSettings)
    requires
        unknown_crates matches Some(u) ==> spec_unknown_policy(u@) is Some,
        all_of_strategy matches Some(a) ==> spec_all_of_strategy(a@) is Some,
    ensures
        strings_view(r.extra_derives@) == push_all_unique(Seq::empty(), strings_view(derives@)),
        strings_view(r.extra_attrs@) == push_all_unique(Seq::empty(), strings_view(attrs@)),
        crates_recorded(Seq::empty(), r.crates@, crates@),
        match open_enum_variant {
            Some(n) => r.open_enum_variant matches Some(t) && t@ == n@,
            None => r.open_enum_variant is None,
        },
        exists|d: TypeSpaceSettings| #[trigger] d.is_default() && r == (TypeSpaceSettings {
            struct_builder: !no_builder,
            extra_derives: r.extra_derives,
            extra_attrs: r.extra_attrs,
            crates: r.crates,
            map_type: match map_type {
                Some(m) => m,
                None => d.map_type,
            },
            unknown_crates: match unknown_crates {
                Some(u) => spec_unknown_policy(u@)->0,
                None => d.unknown_crates,
            },
            allof_strategy: match all_of_strategy {
                Some(a) => spec_all_of_strategy(a@)->0,
                None => d.allof_strategy,
            },
            open_enum_variant: r.open_enum_variant,
            include_schema_in_docs: !no_schema_in_docs,
            ..d
        }),
{
    let mut settings = TypeSpaceSettings::new();
    let ghost d = settings;
    settings.with_struct_builder(use_builder(no_builder));

    let mut i: usize = 0;
    assert(strings_view(derives@).take(0) =~= Seq::<Seq<char>>::empty());
    assert(strings_view(settings.extra_derives@) =~= Seq::<Seq<char>>::empty());
    while i < derives.len()
        invariant
            i <= derives.len(),
            settings == (TypeSpaceSettings { struct_builder: !no_builder, extra_derives: settings.extra_derives, ..d }),
            strings_view(settings.extra_derives@) == push_all_unique(Seq::empty(), strings_view(derives@).take(i as int)),
        decreases derives.len() - i,
    {
        settings.with_derive(derives[i].clone());
        assert(strings_view(derives@).take(i + 1).drop_last() =~= strings_view(derives@).take(i as int));
        i = i + 1;
    }
    assert(strings_view(derives@).take(derives.len() as int) =~= strings_view(derives@));

    let mut i: usize = 0;
    assert(strings_view(attrs@).take(0) =~= Seq::<Seq<char>>::empty());
    assert(strings_view(settings.extra_attrs@) =~= Seq::<Seq<char>>::empty());
    while i < attrs.len()
        invariant
            i <= attrs.len(),
            settings == (TypeSpaceSettings { struct_builder: !no_builder, extra_derives: settings.extra_derives,
                extra_attrs: settings.extra_attrs, ..d }),
            strings_view(settings.extra_derives@) == push_all_unique(Seq::empty(), strings_view(derives@)),
            strings_view(settings.extra_attrs@) == push_all_unique(Seq::empty(), strings_view(attrs@).take(i as int)),
        decreases attrs.len() - i,
    {
        settings.with_attr(attrs[i].clone());
        assert(strings_view(attrs@).take(i + 1).drop_last() =~= strings_view(attrs@).take(i as int));
        i = i + 1;
    }
    assert(strings_view(attrs@).take(attrs.len() as int) =~= strings_view(attrs@));

    let ghost all = crates@;
    let mut crates = crates;
    let total = crates.len();
    assert(all.len() == total);
    let mut done: usize = 0;
    let ghost mut states: Seq<Seq<(String, CrateSpec)>> = seq![settings.crates@];
    assert(settings.crates@ =~= Seq::<(String, CrateSpec)>::empty());
    while crates.len() > 0
        invariant
            done + crates@.len() == all.len(),
            all.len() <= usize::MAX,
            crates@ == all.skip(done as int),
            settings == (TypeSpaceSettings { struct_builder: !no_builder, extra_derives: settings.extra_derives,
                extra_attrs: settings.extra_attrs, crates: settings.crates, ..d }),
            strings_view(settings.extra_derives@) == push_all_unique(Seq::empty(), strings_view(derives@)),
            strings_view(settings.extra_attrs@) == push_all_unique(Seq::empty(), strings_view(attrs@)),
            crates_recorded_through(Seq::empty(), states, all.take(done as int)),
            states.last() == settings.crates@,
        decreases crates@.len(),
    {
        let spec = crates.remove(0);
        let ghost prev = settings.crates@;
        assert(spec == all[done as int]);
        let CrateSpecArg { name, version, rename } = spec;
        settings.with_crate(name.as_str(), version, rename.as_ref());
        proof {
            let t = all.take(done + 1);
            let v = choose|v: CrateSpec| v.version == spec.version && v.rename == spec.rename
                && keyed_insert(prev, settings.crates@, spec.name@, v);
            assert(v == CrateSpec { version: spec.version, rename: spec.rename });
            let old_states = states;
            states = states.push(settings.crates@);
            assert forall|i: int| #![trigger t[i]] 0 <= i < t.len() implies keyed_insert(states[i], states[i + 1],
                t[i].name@, CrateSpec { version: t[i].version, rename: t[i].rename }) by {
                if i < done {
                    assert(t[i] == all.take(done as int)[i]);
                    assert(states[i] == old_states[i]);
                    assert(states[i + 1] == old_states[i + 1]);
                } else {
                    assert(t[i] == spec);
                    assert(states[i] == prev);
                }
            }
            assert(crates@ =~= all.skip(done + 1));
        }
        done = done + 1;
    }
    assert(all.take(all.len() as int) =~= all);
    assert(crates_recorded_through(Seq::empty(), states, all));

    if let Some(m) = map_type {
        settings.with_map_type(m);
    }
    if let Some(u) = unknown_crates {
        match parse_unknown_policy(u) {
            Some(p) => {
                settings.with_unknown_crates(p);
            },
            None => {},
        }
    }
    if let Some(a) = all_of_strategy {
        match parse_all_of_strategy(a) {
            Some(p) => {
                settings.with_allof_strategy(p);
            },
            None => {},
        }
    }
    if let Some(n) = open_enum_variant {
        settings.with_open_enum_variant(n);
    }
    if no_schema_in_docs {
        settings.with_schema_in_docs(false);
    }
    settings
}

/// Whether `states` leads from `first` in `n` steps, step `i` relating
/// `states[i]` to `states[i + 1]`.
pub open spec fn chain_through<S>(first: S, states: Seq<S>, n: nat, step: spec_fn(int, S, S) -> bool) -> bool {
    &&& states.len() == n + 1
    &&& states[0] == first
    &&& forall|i: int| 0 <= i < n ==> #[trigger] step(i, states[i], states[i + 1])
}

/// A chain extended by one more step.
pub proof fn lemma_chain_push<S>(first: S, states: Seq<S>, n: nat, step: spec_fn(int, S, S) -> bool, next: S)
    requires
        chain_through(first, states, n, step),
        step(n as int, states.last(), next),
    ensures
        chain_through(first, states.push(next), n + 1, step),
{
    let t = states.push(next);
    assert forall|i: int| 0 <= i < n + 1 implies #[trigger] step(i, t[i], t[i + 1]) by {
        if i < n {
            assert(t[i] == states[i] && t[i + 1] == states[i + 1]);
        }
    }
}

/// Whether `last` is reached from `first` in `n` steps.
pub open spec fn chained<S>(first: S, last: S, n: nat, step: spec_fn(int, S, S) -> bool) -> bool {
    exists|states: Seq<S>| #[trigger] chain_through(first, states, n, step) && states.last() == last
}

/// A step that records patch `i` of `ps`, the last patch of a type winning.
pub open spec fn patch_step(ps: Seq<(String, TypeSpacePatch)>) -> spec_fn(int, Seq<(String, TypeSpacePatch)>, Seq<(String, TypeSpacePatch)>) -> bool {
    |i: int, a: Seq<(String, TypeSpacePatch)>, b: Seq<(String, TypeSpacePatch)>|
        exists|v: TypeSpacePatch| v.rename == ps[i].1.rename && v.derives@ == ps[i].1.derives@
            && v.attrs@ == ps[i].1.attrs@ && #[trigger] keyed_insert(a, b, ps[i].0@, v)
}

/// A step that records replacement `i` of `rs` (name, type, impls), the
/// last replacement of a name winning.
pub open spec fn replace_step(rs: Seq<(String, String, Vec<TypeSpaceImpl>)>) -> spec_fn(int, Seq<(String, TypeSpaceReplace)>, Seq<(String, TypeSpaceReplace)>) -> bool {
    |i: int, a: Seq<(String, TypeSpaceReplace)>, b: Seq<(String, TypeSpaceReplace)>|
        exists|v: TypeSpaceReplace| v.replace_type@ == rs[i].1@ && v.impls@ == rs[i].2@
            && #[trigger] keyed_insert(a, b, rs[i].0@, v)
}

/// The crate a macro crate entry specifies: the original crate where the
/// key renames one, else the key.
pub open spec fn macro_crate_key(c: (String, MacroCrateSpec)) -> Seq<char> {
    match c.1.original {
        Some(o) => o@,
        None => c.0@,
    }
}

/// What a macro crate entry records for its crate: its version, and the
/// key as the rename where the key renames the crate.
pub open spec fn macro_crate_value(c: (String, MacroCrateSpec)) -> CrateSpec {
    CrateSpec {
        version: c.1.version,
        rename: match c.1.original {
            Some(_) => Some(c.0),
            None => None,
        },
    }
}

/// A step that records crate entry `i` of `cs`, the last entry of a crate
/// winning.
pub open spec fn macro_crate_step(cs: Seq<(String, MacroCrateSpec)>) -> spec_fn(int, Seq<(String, CrateSpec)>, Seq<(String, CrateSpec)>) -> bool {
    |i: int, a: Seq<(String, CrateSpec)>, b: Seq<(String, CrateSpec)>|
        keyed_insert(a, b, macro_crate_key(cs[i]), macro_crate_value(cs[i]))
}

/// A conditional derive or attribute given to the macro: the Cargo feature
/// it is behind, its text, and the kinds of type it applies to.
#[derive(Debug)]
pub struct MacroConditional {
    pub feature: String,
    pub body: String,
    pub kinds: Option<String>,
}

/// The kinds option of a conditional, as characters.
pub open spec fn conditional_kinds(c: MacroConditional) -> Option<Seq<char>> {
    match c.kinds {
        Some(k) => Some(k@),
        None => None,
    }
}

/// A step that adds conditional derive `i` of `cs`.
pub open spec fn cond_derive_step(cs: Seq<MacroConditional>) -> spec_fn(int, Seq<ConditionalDerive>, Seq<ConditionalDerive>) -> bool {
    |i: int, a: Seq<ConditionalDerive>, b: Seq<ConditionalDerive>|
        added_conditional_derive(a, b, cs[i].feature@, cs[i].body@, spec_kinds_filter(conditional_kinds(cs[i]))->0)
}

/// A step that adds conditional attribute `i` of `cs`, before the derive.
pub open spec fn cond_attr_step(cs: Seq<MacroConditional>) -> spec_fn(int, Seq<ConditionalAttr>, Seq<ConditionalAttr>) -> bool {
    |i: int, a: Seq<ConditionalAttr>, b: Seq<ConditionalAttr>|
        added_conditional_attr(a, b, cs[i].feature@, cs[i].body@, AttrPosition::BeforeDerive,
            spec_kinds_filter(conditional_kinds(cs[i]))->0)
}

/// Whether every conditional names a kinds filter.
pub open spec fn kinds_valid(cs: Seq<MacroConditional>) -> bool {
    forall|i: int| 0 <= i < cs.len() ==> (#[trigger] spec_kinds_filter(conditional_kinds(cs[i]))) is Some
}

fn record_patches(settings: &mut TypeSpaceSettings, patches: &Vec<(String, TypeSpacePatch)>)
    ensures
        chained(old(settings).patch@, final(settings).patch@, patches@.len(), patch_step(patches@)),
        *final(settings) == (TypeSpaceSettings { patch: final(settings).patch, ..*old(settings) }),
{
    let ghost mut states = seq![settings.patch@];
    let mut i: usize = 0;
    while i < patches.len()
        invariant
            i <= patches.len(),
            chain_through(old(settings).patch@, states, i as nat, patch_step(patches@)),
            states.last() == settings.patch@,
            *settings == (TypeSpaceSettings { patch: settings.patch, ..*old(settings) }),
        decreases patches.len() - i,
    {
        let ghost prev = states;
        settings.with_patch(patches[i].0.as_str(), &patches[i].1);
        proof {
            states = states.push(settings.patch@);
            assert forall|k: int| 0 <= k < i + 1 implies #[trigger] patch_step(patches@)(k, states[k], states[k + 1]) by {
                if k < i {
                    assert(states[k] == prev[k] && states[k + 1] == prev[k + 1]);
                }
            }
        }
        i = i + 1;
    }
}

fn record_replacements(settings: &mut TypeSpaceSettings, replace: &Vec<(String, String, Vec<TypeSpaceImpl>)>)
    ensures
        chained(old(settings).replace@, final(settings).replace@, replace@.len(), replace_step(replace@)),
        *final(settings) == (TypeSpaceSettings { replace: final(settings).replace, ..*old(settings) }),
{
    let ghost mut states = seq![settings.replace@];
    let mut i: usize = 0;
    while i < replace.len()
        invariant
            i <= replace.len(),
            chain_through(old(settings).replace@, states, i as nat, replace_step(replace@)),
            states.last() == settings.replace@,
            *settings == (TypeSpaceSettings { replace: settings.replace, ..*old(settings) }),
        decreases replace.len() - i,
    {
        let ghost prev = states;
        settings.with_replacement(replace[i].0.as_str(), replace[i].1.as_str(), replace[i].2.as_slice());
        proof {
            states = states.push(settings.replace@);
            assert forall|k: int| 0 <= k < i + 1 implies #[trigger] replace_step(replace@)(k, states[k], states[k + 1]) by {
                if k < i {
                    assert(states[k] == prev[k] && states[k + 1] == prev[k + 1]);
                }
            }
        }
        i = i + 1;
    }
}

fn record_conversions(settings: &mut TypeSpaceSettings, convert: Vec<(Vec<(String, JsonValue)>, String, Vec<TypeSpaceImpl>)>)
    ensures
        final(settings).convert@.len() == old(settings).convert@.len() + convert@.len(),
        final(settings).convert@.take(old(settings).convert@.len() as int) == old(settings).convert@,
        forall|k: int| 0 <= k < convert@.len() ==> {
            let c = #[trigger] final(settings).convert@[old(settings).convert@.len() + k];
            c.schema == convert@[k].0 && c.name@ == convert@[k].1@ && c.impls@ == convert@[k].2@
        },
        *final(settings) == (TypeSpaceSettings { convert: final(settings).convert, ..*old(settings) }),
{
    let ghost all = convert@;
    let ghost base = settings.convert@;
    let mut convert = convert;
    let total = convert.len();
    assert(all.len() == total);
    let mut done: usize = 0;
    assert(settings.convert@.take(base.len() as int) =~= base);
    while convert.len() > 0
        invariant
            done + convert@.len() == all.len(),
            all.len() <= usize::MAX,
            convert@ == all.skip(done as int),
            settings.convert@.len() == base.len() + done,
            settings.convert@.take(base.len() as int) == base,
            forall|k: int| 0 <= k < done ==> {
                let c = #[trigger] settings.convert@[base.len() + k];
                c.schema == all[k].0 && c.name@ == all[k].1@ && c.impls@ == all[k].2@
            },
            *settings == (TypeSpaceSettings { convert: settings.convert, ..*old(settings) }),
        decreases convert@.len(),
    {
        let c = convert.remove(0);
        assert(c == all[done as int]);
        let ghost before = settings.convert@;
        let (schema, name, impls) = c;
        settings.with_conversion(schema, name.as_str(), impls.as_slice());
        proof {
            assert(settings.convert@.drop_last() == before);
            assert forall|k: int| 0 <= k < done + 1 implies {
                let c = #[trigger] settings.convert@[base.len() + k];
                c.schema == all[k].0 && c.name@ == all[k].1@ && c.impls@ == all[k].2@
            } by {
                if k < done {
                    assert(settings.convert@[base.len() + k] == before[base.len() + k]);
                }
            }
            assert(settings.convert@.take(base.len() as int) =~= before.take(base.len() as int));
            assert(convert@ =~= all.skip(done + 1));
        }
        done = done + 1;
    }
}

#[verifier::rlimit(60)]
#[verifier::spinoff_prover]
fn record_macro_crates(settings: &mut TypeSpaceSettings, crates: Vec<(String, MacroCrateSpec)>)
    ensures
        chained(old(settings).crates@, final(settings).crates@, crates@.len(), macro_crate_step(crates@)),
        *final(settings) == (TypeSpaceSettings { crates: final(settings).crates, ..*old(settings) }),
{
    let ghost all = crates@;
    let mut crates = crates;
    let total = crates.len();
    assert(all.len() == total);
    let mut done: usize = 0;
    let ghost mut states = seq![settings.crates@];
    while crates.len() > 0
        invariant
            done + crates@.len() == all.len(),
            all.len() <= usize::MAX,
            crates@ == all.skip(done as int),
            chain_through(old(settings).crates@, states, done as nat, macro_crate_step(all)),
            states.last() == settings.crates@,
            *settings == (TypeSpaceSettings { crates: settings.crates, ..*old(settings) }),
        decreases crates@.len(),
    {
        let c = crates.remove(0);
        assert(c == all[done as int]);
        let ghost prev_states = states;
        let ghost prev = settings.crates@;
        let ghost key = macro_crate_key(c);
        let ghost val = macro_crate_value(c);
        let (name, spec) = c;
        let MacroCrateSpec { original, version } = spec;
        match original {
            Some(o) => {
                settings.with_crate(o.as_str(), version, Some(&name));
                proof {
                    let v = choose|v: CrateSpec| v.version == val.version && v.rename == Some(name)
                        && keyed_insert(prev, settings.crates@, key, v);
                    assert(v == val);
                }
            },
            None => {
                settings.with_crate(name.as_str(), version, None);
                proof {
                    let v = choose|v: CrateSpec| v.version == val.version && v.rename == None::<String>
                        && keyed_insert(prev, settings.crates@, key, v);
                    assert(v == val);
                }
            },
        }
        proof {
            assert(keyed_insert(prev, settings.crates@, key, val));
            assert(macro_crate_step(all)(done as int, states.last(), settings.crates@));
            lemma_chain_push(old(settings).crates@, states, done as nat, macro_crate_step(all), settings.crates@);
            states = states.push(settings.crates@);
            assert(crates@ =~= all.skip(done + 1));
        }
        done = done + 1;
    }
    assert(all.take(all.len() as int) =~= all);
}

fn record_conditional_derives(settings: &mut TypeSpaceSettings, cs: &Vec<MacroConditional>)
    requires
        kinds_valid(cs@),
    ensures
        chained(old(settings).conditional_derives@, final(settings).conditional_derives@, cs@.len(), cond_derive_step(cs@)),
        *final(settings) == (TypeSpaceSettings { conditional_derives: final(settings).conditional_derives, ..*old(settings) }),
{
    let ghost mut states = seq![settings.conditional_derives@];
    let mut i: usize = 0;
    while i < cs.len()
        invariant
            i <= cs.len(),
            kinds_valid(cs@),
            chain_through(old(settings).conditional_derives@, states, i as nat, cond_derive_step(cs@)),
            states.last() == settings.conditional_derives@,
            *settings == (TypeSpaceSettings { conditional_derives: settings.conditional_derives, ..*old(settings) }),
        decreases cs.len() - i,
    {
        let ghost prev = states;
        let c = &cs[i];
        assert(spec_kinds_filter(conditional_kinds(cs@[i as int])) is Some);
        let kinds = kinds_filter(match &c.kinds {
            Some(k) => Some(k.as_str()),
            None => None,
        });
        settings.with_conditional_derive_for(c.feature.as_str(), c.body.as_str(), kinds);
        proof {
            states = states.push(settings.conditional_derives@);
            assert forall|k: int| 0 <= k < i + 1 implies #[trigger] cond_derive_step(cs@)(k, states[k], states[k + 1]) by {
                if k < i {
                    assert(states[k] == prev[k] && states[k + 1] == prev[k + 1]);
                }
            }
        }
        i = i + 1;
    }
}

fn record_conditional_attrs(settings: &mut TypeSpaceSettings, cs: &Vec<MacroConditional>)
    requires
        kinds_valid(cs@),
    ensures
        chained(old(settings).conditional_attrs@, final(settings).conditional_attrs@, cs@.len(), cond_attr_step(cs@)),
        *final(settings) == (TypeSpaceSettings { conditional_attrs: final(settings).conditional_attrs, ..*old(settings) }),
{
    let ghost mut states = seq![settings.conditional_attrs@];
    let mut i: usize = 0;
    while i < cs.len()
        invariant
            i <= cs.len(),
            kinds_valid(cs@),
            chain_through(old(settings).conditional_attrs@, states, i as nat, cond_attr_step(cs@)),
            states.last() == settings.conditional_attrs@,
            *settings == (TypeSpaceSettings { conditional_attrs: settings.conditional_attrs, ..*old(settings) }),
        decreases cs.len() - i,
    {
        let ghost prev = states;
        let c = &cs[i];
        assert(spec_kinds_filter(conditional_kinds(cs@[i as int])) is Some);
        let kinds = kinds_filter(match &c.kinds {
            Some(k) => Some(k.as_str()),
            None => None,
        });
        settings.with_conditional_attr_for(c.feature.as_str(), c.body.as_str(), kinds);
        proof {
            states = states.push(settings.conditional_attrs@);
            assert forall|k: int| 0 <= k < i + 1 implies #[trigger] cond_attr_step(cs@)(k, states[k], states[k + 1]) by {
                if k < i {
                    assert(states[k] == prev[k] && states[k + 1] == prev[k + 1]);
                }
            }
        }
        i = i + 1;
    }
}

/// The options of the schema-import macro, as plain values: derive paths,
/// attributes and types as Rust source text, conversions by the entries of
/// their schemas.
#[derive(Debug)]
pub struct MacroOptions {
    pub derives: Vec<String>,
    pub attrs: Vec<String>,
    pub struct_builder: bool,
    pub unknown_crates: UnknownPolicy,
    /// Each crate with the version in use, keyed as written.
    pub crates: Vec<(String, MacroCrateSpec)>,
    pub map_type: Option<MapType>,
    /// Patches of generated types, by type name.
    pub patch: Vec<(String, TypeSpacePatch)>,
    /// Replacements of definitions: name, replacement type, its impls.
    pub replace: Vec<(String, String, Vec<TypeSpaceImpl>)>,
    /// Conversions: schema entries, type, its impls.
    pub convert: Vec<(Vec<(String, JsonValue)>, String, Vec<TypeSpaceImpl>)>,
    pub date_type: Option<String>,
    pub date_time_type: Option<String>,
    pub uuid_type: Option<String>,
    pub unconstrained_string: bool,
    pub unconstrained_int: bool,
    pub array_optionality: ArrayOptionality,
    pub default_bool_optionality: DefaultBoolOptionality,
    pub defaulted_field_optionality: DefaultedFieldOptionality,
    pub elide_option_field_defaults: bool,
    pub deep_patches: DeepPatchPolicy,
    pub allof_strategy: AllOfStrategy,
    pub include_schema_in_docs: Option<bool>,
    pub string_newtype_conveniences: bool,
    pub conditional_derives: Vec<MacroConditional>,
    pub conditional_attrs: Vec<MacroConditional>,
}

/// The characters of an optional string.
pub open spec fn opt_view(o: Option<String>) -> Option<Seq<char>> {
    match o {
        Some(s) => Some(s@),
        None => None,
    }
}

fn record_derives(settings: &mut TypeSpaceSettings, derives: &Vec<String>)
    ensures
        strings_view(final(settings).extra_derives@) == push_all_unique(strings_view(old(settings).extra_derives@), strings_view(derives@)),
        *final(settings) == (TypeSpaceSettings { extra_derives: final(settings).extra_derives, ..*old(settings) }),
{
    let mut i: usize = 0;
    assert(strings_view(derives@).take(0) =~= Seq::<Seq<char>>::empty());
    while i < derives.len()
        invariant
            i <= derives.len(),
            *settings == (TypeSpaceSettings { extra_derives: settings.extra_derives, ..*old(settings) }),
            strings_view(settings.extra_derives@) == push_all_unique(strings_view(old(settings).extra_derives@), strings_view(derives@).take(i as int)),
        decreases derives.len() - i,
    {
        settings.with_derive(derives[i].clone());
        assert(strings_view(derives@).take(i + 1).drop_last() =~= strings_view(derives@).take(i as int));
        i = i + 1;
    }
    assert(strings_view(derives@).take(derives.len() as int) =~= strings_view(derives@));
}

fn record_attrs(settings: &mut TypeSpaceSettings, attrs: &Vec<String>)
    ensures
        strings_view(final(settings).extra_attrs@) == push_all_unique(strings_view(old(settings).extra_attrs@), strings_view(attrs@)),
        *final(settings) == (TypeSpaceSettings { extra_attrs: final(settings).extra_attrs, ..*old(settings) }),
{
    let mut i: usize = 0;
    assert(strings_view(attrs@).take(0) =~= Seq::<Seq<char>>::empty());
    while i < attrs.len()
        invariant
            i <= attrs.len(),
            *settings == (TypeSpaceSettings { extra_attrs: settings.extra_attrs, ..*old(settings) }),
            strings_view(settings.extra_attrs@) == push_all_unique(strings_view(old(settings).extra_attrs@), strings_view(attrs@).take(i as int)),
        decreases attrs.len() - i,
    {
        settings.with_attr(attrs[i].clone());
        assert(strings_view(attrs@).take(i + 1).drop_last() =~= strings_view(attrs@).take(i as int));
        i = i + 1;
    }
    assert(strings_view(attrs@).take(attrs.len() as int) =~= strings_view(attrs@));
}

/// The settings that the macro's options select: the extra derives and
/// attributes, each once; the builder style; the patches, replacements,
/// conversions and crates in order (for a crate keyed by a rename, the
/// original crate with the key as its rename); the unknown-crates policy;
/// the map, date, date-time and uuid types where given; the wire-shape
/// options; the schema in docs where given; the string newtype
/// conveniences; and the conditional derives and attributes, in order.
/// Every other option is at its default. The conditionals' kinds must be
/// among `all`, `structs`, `enums`, `newtypes`.
pub fn macro_settings(opts: MacroOptions) -> (r: TypeSpaceSettings)
    requires
        kinds_valid(opts.conditional_derives@),
        kinds_valid(opts.conditional_attrs@),
    ensures
        strings_view(r.extra_derives@) == push_all_unique(Seq::empty(), strings_view(opts.derives@)),
        strings_view(r.extra_attrs@) == push_all_unique(Seq::empty(), strings_view(opts.attrs@)),
        chained(Seq::empty(), r.patch@, opts.patch@.len(), patch_step(opts.patch@)),
        chained(Seq::empty(), r.replace@, opts.replace@.len(), replace_step(opts.replace@)),
        r.convert@.len() == opts.convert@.len(),
        forall|k: int| 0 <= k < opts.convert@.len() ==> {
            let c = #[trigger] r.convert@[k];
            c.schema == opts.convert@[k].0 && c.name@ == opts.convert@[k].1@ && c.impls@ == opts.convert@[k].2@
        },
        chained(Seq::empty(), r.crates@, opts.crates@.len(), macro_crate_step(opts.crates@)),
        chained(Seq::empty(), r.conditional_derives@, opts.conditional_derives@.len(), cond_derive_step(opts.conditional_derives@)),
        chained(Seq::empty(), r.conditional_attrs@, opts.conditional_attrs@.len(), cond_attr_step(opts.conditional_attrs@)),
        exists|d: TypeSpaceSettings| #[trigger] d.is_default() && r == (TypeSpaceSettings {
            extra_derives: r.extra_derives,
            extra_attrs: r.extra_attrs,
            struct_builder: opts.struct_builder,
            patch: r.patch,
            replace: r.replace,
            convert: r.convert,
            crates: r.crates,
            unknown_crates: opts.unknown_crates,
            map_type: match opts.map_type {
                Some(m) => m,
                None => d.map_type,
            },
            date_type: opts.date_type,
            date_time_type: opts.date_time_type,
            uuid_type: opts.uuid_type,
            unconstrained_string: opts.unconstrained_string,
            unconstrained_int: opts.unconstrained_int,
            array_optionality: opts.array_optionality,
            default_bool_optionality: opts.default_bool_optionality,
            defaulted_field_optionality: opts.defaulted_field_optionality,
            elide_option_field_defaults: opts.elide_option_field_defaults,
            deep_patches: opts.deep_patches,
            allof_strategy: opts.allof_strategy,
            include_schema_in_docs: match opts.include_schema_in_docs {
                Some(b) => b,
                None => d.include_schema_in_docs,
            },
            string_newtype_conveniences: opts.string_newtype_conveniences,
            conditional_derives: r.conditional_derives,
            conditional_attrs: r.conditional_attrs,
            ..d
        }),
{
    let MacroOptions {
        derives,
        attrs,
        struct_builder,
        unknown_crates,
        crates,
        map_type,
        patch,
        replace,
        convert,
        date_type,
        date_time_type,
        uuid_type,
        unconstrained_string,
        unconstrained_int,
        array_optionality,
        default_bool_optionality,
        defaulted_field_optionality,
        elide_option_field_defaults,
        deep_patches,
        allof_strategy,
        include_schema_in_docs,
        string_newtype_conveniences,
        conditional_derives,
        conditional_attrs,
    } = opts;
    let mut lists = TypeSpaceSettings::new();
    assert(strings_view(lists.extra_derives@) =~= Seq::<Seq<char>>::empty());
    assert(strings_view(lists.extra_attrs@) =~= Seq::<Seq<char>>::empty());
    assert(lists.patch@ =~= Seq::<(String, TypeSpacePatch)>::empty());
    assert(lists.replace@ =~= Seq::<(String, TypeSpaceReplace)>::empty());
    assert(lists.crates@ =~= Seq::<(String, CrateSpec)>::empty());
    assert(lists.conditional_derives@ =~= Seq::<ConditionalDerive>::empty());
    assert(lists.conditional_attrs@ =~= Seq::<ConditionalAttr>::empty());
    record_derives(&mut lists, &derives);
    record_attrs(&mut lists, &attrs);
    record_patches(&mut lists, &patch);
    record_replacements(&mut lists, &replace);
    let ghost all_convert = convert@;
    assert(lists.convert@.len() == 0);
    record_conversions(&mut lists, convert);
    assert forall|k: int| 0 <= k < all_convert.len() implies {
        let c = #[trigger] lists.convert@[k];
        c.schema == all_convert[k].0 && c.name@ == all_convert[k].1@ && c.impls@ == all_convert[k].2@
    } by {
        assert(lists.convert@[0 + k] == lists.convert@[k]);
    }
    record_macro_crates(&mut lists, crates);
    record_conditional_derives(&mut lists, &conditional_derives);
    record_conditional_attrs(&mut lists, &conditional_attrs);
    let d = TypeSpaceSettings::new();
    let ghost dd = d;
    let map_type = match map_type {
        Some(m) => m,
        None => d.map_type,
    };
    let include_schema_in_docs = match include_schema_in_docs {
        Some(b) => b,
        None => d.include_schema_in_docs,
    };
    TypeSpaceSettings {
        type_mod: d.type_mod,
        extra_derives: lists.extra_derives,
        conditional_derives: lists.conditional_derives,
        extra_attrs: lists.extra_attrs,
        conditional_attrs: lists.conditional_attrs,
        unconditional_attrs: d.unconditional_attrs,
        unconditional_derives: d.unconditional_derives,
        deep_patches,
        defaulted_field_optionality,
        elide_option_field_defaults,
        struct_rename_all: d.struct_rename_all,
        serde_field_case: d.serde_field_case,
        enum_first_variant_default: d.enum_first_variant_default,
        struct_builder,
        unknown_crates,
        crates: lists.crates,
        map_type,
        patch: lists.patch,
        replace: lists.replace,
        convert: lists.convert,
        date_type,
        date_time_type,
        uuid_type,
        unconstrained_string,
        unconstrained_int,
        array_optionality,
        default_bool_optionality,
        allof_strategy,
        include_schema_in_docs,
        open_enum_variant: d.open_enum_variant,
        string_newtype_conveniences,
    }
}

/// A `format_types` key, `<instance-type>/<format>`, split at its first
/// `/`; where it has none, the message that refuses it.
pub open spec fn spec_format_type_key(key: Seq<char>) -> Result<(Seq<char>, Seq<char>), Seq<char>> {
    match first_index_of(key, '/') {
        Some(i) => Ok((key.take(i), key.skip(i + 1))),
        None => Err("format_types key "@ + str_debug(key)
            + " must be \"<instance-type>/<format>\", e.g. \"string/date-time\""@),
    }
}

/// Splits a `format_types` key into its instance type and format.
pub fn format_type_key(key: &str) -> (r: Result<(String, String), String>)
    ensures
        match (r, spec_format_type_key(key@)) {
            (Ok((a, b)), Ok((x, y))) => a@ == x && b@ == y,
            (Err(m), Err(n)) => m@ == n,
            _ => false,
        },
{
    let cs = chars_of(key);
    proof {
        lemma_first_index_of(key@, '/');
    }
    match find_char(cs.as_slice(), '/') {
        Some(i) => {
            let (a, b) = split_chars(cs.as_slice(), i);
            Ok((string_from_chars(a.as_slice()), string_from_chars(b.as_slice())))
        },
        None => {
            let mut m = crate::strings::string_of("format_types key ");
            let quoted = crate::strings::debug_str(key);
            crate::strings::push_str(&mut m, quoted.as_str());
            crate::strings::push_str(&mut m, " must be \"<instance-type>/<format>\", e.g. \"string/date-time\"");
            Err(m)
        },
    }
}

} // verus!
