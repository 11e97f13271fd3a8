//! The entries of a type space: each describes one type, user-defined
//! (enum, struct, newtype), native, or built from other types by id.

use vstd::prelude::*;

use crate::json::JsonValue;
use crate::settings::{no_duplicates, strings_view};
use crate::strings::{chars_of, decimal, push_char, push_decimal, push_str, str_equal, string_of};
use crate::{Name, TypeId, TypeSpaceImpl};

verus! {

/// A generated enum.
#[derive(Debug)]
pub struct TypeEntryEnum {
    pub name: String,
    pub rename: Option<String>,
    pub description: Option<String>,
    pub default: Option<JsonValue>,
    pub tag_type: EnumTagType,
    pub variants: Vec<Variant>,
    pub deny_unknown_fields: bool,
    pub bespoke_impls: Vec<TypeEntryEnumImpl>,
    pub schema: JsonValue,
}

/// Cached facts about an enum that (mostly) result in customized impls.
#[derive(Debug, Clone, Copy, PartialEq, Eq, Structural, PartialOrd, Ord)]
pub enum TypeEntryEnumImpl {
    AllSimpleVariants,
    UntaggedFromStr,
    UntaggedDisplay,
    UntaggedFromStringIrrefutable,
}

/// A generated struct.
#[derive(Debug)]
pub struct TypeEntryStruct {
    pub name: String,
    pub rename: Option<String>,
    pub description: Option<String>,
    pub default: Option<JsonValue>,
    pub properties: Vec<StructProperty>,
    pub deny_unknown_fields: bool,
    pub schema: JsonValue,
}

/// A generated newtype wrapping the type `type_id`.
#[derive(Debug)]
pub struct TypeEntryNewtype {
    pub name: String,
    pub rename: Option<String>,
    pub description: Option<String>,
    pub default: Option<JsonValue>,
    pub type_id: TypeId,
    pub constraints: TypeEntryNewtypeConstraints,
    pub schema: JsonValue,
}

/// The values a newtype admits beyond those of its inner type.
#[derive(Debug)]
pub enum TypeEntryNewtypeConstraints {
    Unconstrained,
    EnumValue(Vec<JsonValue>),
    DenyValue(Vec<JsonValue>),
    String { max_length: Option<u32>, min_length: Option<u32>, pattern: Option<String> },
}

/// A type exported by a well-known crate, named by its path.
#[derive(Debug)]
pub struct TypeEntryNative {
    pub path: String,
    pub impls: Vec<TypeSpaceImpl>,
    pub parameters: Vec<TypeId>,
}

/// One type of a type space, with the extra derives and attributes that
/// patches give it.
#[derive(Debug)]
pub struct TypeEntry {
    pub details: TypeEntryDetails,
    pub extra_derives: Vec<String>,
    pub extra_attrs: Vec<String>,
}

/// What a type is.
#[derive(Debug)]
pub enum TypeEntryDetails {
    Enum(TypeEntryEnum),
    Struct(TypeEntryStruct),
    Newtype(TypeEntryNewtype),
    /// A native type exported from a well-known crate.
    Native(TypeEntryNative),
    Option(TypeId),
    Box(TypeId),
    Vec(TypeId),
    MapOf(TypeId, TypeId),
    SetOf(TypeId),
    Array(TypeId, usize),
    Tuple(Vec<TypeId>),
    Unit,
    Boolean,
    /// An integer type, by name.
    Integer(String),
    /// A floating-point type, by name.
    Float(String),
    String,
    /// An arbitrary JSON value.
    JsonValue,
    /// An alias of another type; resolved before types are generated.
    Reference(TypeId),
}

/// How an enum's variants are told apart when serialized.
#[derive(Debug)]
pub enum EnumTagType {
    External,
    Internal { tag: String },
    Adjacent { tag: String, content: String },
    Untagged,
}

/// A variant of a generated enum.
#[derive(Debug)]
pub struct Variant {
    pub raw_name: String,
    pub ident_name: Option<String>,
    pub description: Option<String>,
    pub details: VariantDetails,
}

/// What a variant carries.
#[derive(Debug)]
pub enum VariantDetails {
    Simple,
    Item(TypeId),
    Tuple(Vec<TypeId>),
    Struct(Vec<StructProperty>),
}

/// A property of a generated struct or struct variant.
#[derive(Debug)]
pub struct StructProperty {
    pub name: String,
    /// The property name exactly as it appears in the schema.
    pub wire_name: String,
    /// The snake_case form of the property name.
    pub api_name: String,
    pub rename: StructPropertyRename,
    pub state: StructPropertyState,
    pub description: Option<String>,
    pub type_id: TypeId,
}

/// How a property's name is mapped for serialization.
#[derive(Debug)]
pub enum StructPropertyRename {
    Unchanged,
    Rename(String),
    Flatten,
}

/// Whether a property is required, optional, or has a default.
#[derive(Debug)]
pub enum StructPropertyState {
    Required,
    Optional,
    Default(JsonValue),
}

impl Variant {
    /// A variant whose identifier is not chosen yet.
    pub fn new(raw_name: String, description: Option<String>, details: VariantDetails) -> (r: Self)
        ensures
            r.raw_name == raw_name,
            r.ident_name is None,
            r.description == description,
            r.details == details,
    {
        Variant { raw_name, ident_name: None, description, details }
    }
}

/// Whether the chosen identifiers of `vs` are all different.
pub open spec fn idents_unique(vs: Seq<Variant>) -> bool {
    forall|i: int, j: int| 0 <= i < j < vs.len() ==> (#[trigger] vs[i]).ident_name->0@ != (#[trigger] vs[j]).ident_name->0@
}

/// Whether the chosen identifiers of the variants are all different; every
/// variant must have its identifier chosen.
pub fn variants_unique(vs: &Vec<Variant>) -> (r: bool)
    requires
        forall|k: int| 0 <= k < vs@.len() ==> (#[trigger] vs@[k]).ident_name is Some,
    ensures
        r == idents_unique(vs@),
{
    let mut i: usize = 0;
    while i < vs.len()
        invariant
            i <= vs.len(),
            forall|k: int| 0 <= k < vs@.len() ==> (#[trigger] vs@[k]).ident_name is Some,
            forall|a: int, b: int| 0 <= a < b < vs@.len() && a < i ==> (#[trigger] vs@[a]).ident_name->0@ != (#[trigger] vs@[b]).ident_name->0@,
        decreases vs.len() - i,
    {
        let mut j: usize = i + 1;
        while j < vs.len()
            invariant
                i < j <= vs.len(),
                forall|k: int| 0 <= k < vs@.len() ==> (#[trigger] vs@[k]).ident_name is Some,
                forall|a: int, b: int| 0 <= a < b < vs@.len() && a < i ==> (#[trigger] vs@[a]).ident_name->0@ != (#[trigger] vs@[b]).ident_name->0@,
                forall|b: int| i < b < j ==> vs@[i as int].ident_name->0@ != (#[trigger] vs@[b]).ident_name->0@,
            decreases vs.len() - j,
        {
            let same = match (&vs[i].ident_name, &vs[j].ident_name) {
                (Some(x), Some(y)) => str_equal(x.as_str(), y.as_str()),
                _ => false,
            };
            if same {
                assert(!idents_unique(vs@)) by {
                    assert(vs@[i as int].ident_name->0@ == vs@[j as int].ident_name->0@);
                }
                return false;
            }
            j = j + 1;
        }
        i = i + 1;
    }
    true
}

/// The index of the last occurrence of `::` in `s`.
pub open spec fn last_path_sep(s: Seq<char>) -> Option<int>
    decreases s.len(),
{
    if s.len() < 2 {
        None
    } else if s[s.len() - 2] == ':' && s[s.len() - 1] == ':' {
        Some(s.len() - 2)
    } else {
        last_path_sep(s.drop_last())
    }
}

/// The last segment of a `::`-separated path: what follows the last `::`,
/// or the whole path where there is none.
pub open spec fn last_path_segment(s: Seq<char>) -> Seq<char> {
    match last_path_sep(s) {
        Some(i) => s.skip(i + 2),
        None => s,
    }
}

proof fn lemma_last_path_sep_bound(s: Seq<char>)
    ensures
        last_path_sep(s) matches Some(i) ==> 0 <= i && i + 2 <= s.len(),
    decreases s.len(),
{
    if s.len() >= 2 {
        lemma_last_path_sep_bound(s.drop_last());
    }
}

/// The last segment of the path `s`.
pub fn path_last_segment(s: &str) -> (r: String)
    ensures
        r@ == last_path_segment(s@),
{
    let cs = chars_of(s);
    let mut found: Option<usize> = None;
    let mut j: usize = 0;
    while j < cs.len()
        invariant
            j <= cs.len(),
            cs@ == s@,
            found matches Some(i) ==> last_path_sep(s@.take(j as int)) == Some(i as int),
            found is None ==> last_path_sep(s@.take(j as int)) is None,
        decreases cs.len() - j,
    {
        let ghost t = s@.take(j + 1);
        assert(t.drop_last() =~= s@.take(j as int));
        if j >= 1 && cs[j - 1] == ':' && cs[j] == ':' {
            found = Some(j - 1);
        }
        j = j + 1;
    }
    assert(s@.take(cs.len() as int) =~= s@);
    proof {
        lemma_last_path_sep_bound(s@);
    }
    match found {
        Some(i) => {
            let mut r = String::new();
            let mut k: usize = i + 2;
            while k < cs.len()
                invariant
                    i + 2 <= k <= cs.len(),
                    cs@ == s@,
                    r@ == s@.subrange(i + 2, k as int),
                decreases cs.len() - k,
            {
                crate::strings::push_char(&mut r, cs[k]);
                assert(s@.subrange(i + 2, k + 1) =~= s@.subrange(i + 2, k as int).push(cs@[k as int]));
                k = k + 1;
            }
            assert(s@.subrange(i + 2, cs.len() as int) =~= s@.skip(i + 2));
            r
        },
        None => string_of(s),
    }
}

impl TypeEntryNative {
    /// Whether a native type may stand for a definition named `name`: it
    /// takes parameters, or `name` is required and equals the last segment
    /// of the native type's path.
    pub fn name_match(&self, name: &Name) -> (r: bool)
        ensures
            r == (self.parameters@.len() > 0 || (name matches Name::Required(req) && req@
                == last_path_segment(self.path@))),
    {
        if self.parameters.len() > 0 {
            return true;
        }
        match name {
            Name::Required(req) => {
                let seg = path_last_segment(self.path.as_str());
                str_equal(req.as_str(), seg.as_str())
            },
            _ => false,
        }
    }
}

/// Copies the type ids of `ids`.
pub fn copy_ids(ids: &[TypeId]) -> (r: Vec<TypeId>)
    ensures
        r@ == ids@,
{
    let mut out: Vec<TypeId> = Vec::new();
    let mut i: usize = 0;
    while i < ids.len()
        invariant
            i <= ids.len(),
            out@ == ids@.take(i as int),
        decreases ids.len() - i,
    {
        out.push(ids[i]);
        assert(ids@.take(i + 1) =~= ids@.take(i as int).push(ids@[i as int]));
        i = i + 1;
    }
    assert(ids@.take(ids.len() as int) =~= ids@);
    out
}

/// Copies the trait implementations of `impls`.
pub fn copy_impls(impls: &[TypeSpaceImpl]) -> (r: Vec<TypeSpaceImpl>)
    ensures
        r@ == impls@,
{
    let mut out: Vec<TypeSpaceImpl> = Vec::new();
    let mut i: usize = 0;
    while i < impls.len()
        invariant
            i <= impls.len(),
            out@ == impls@.take(i as int),
        decreases impls.len() - i,
    {
        out.push(impls[i]);
        assert(impls@.take(i + 1) =~= impls@.take(i as int).push(impls@[i as int]));
        i = i + 1;
    }
    assert(impls@.take(impls.len() as int) =~= impls@);
    out
}

impl TypeEntry {
    /// An entry with the given details and no extra derives or attributes.
    pub fn from_details(details: TypeEntryDetails) -> (r: Self)
        ensures
            r.details == details,
            r.extra_derives@.len() == 0,
            r.extra_attrs@.len() == 0,
    {
        TypeEntry { details, extra_derives: Vec::new(), extra_attrs: Vec::new() }
    }

    /// A native type with the given path and trait implementations.
    pub fn new_native(name: &str, impls: &[TypeSpaceImpl]) -> (r: Self)
        ensures
            r.details matches TypeEntryDetails::Native(n) && n.path@ == name@ && n.impls@
                == impls@ && n.parameters@.len() == 0,
            r.extra_derives@.len() == 0,
            r.extra_attrs@.len() == 0,
    {
        let native = TypeEntryNative {
            path: string_of(name),
            impls: copy_impls(impls),
            parameters: Vec::new(),
        };
        TypeEntry::from_details(TypeEntryDetails::Native(native))
    }

    /// A native type with the given path and type parameters.
    pub fn new_native_params(name: &str, params: &[TypeId]) -> (r: Self)
        ensures
            r.details matches TypeEntryDetails::Native(n) && n.path@ == name@
                && n.impls@.len() == 0 && n.parameters@ == params@,
            r.extra_derives@.len() == 0,
            r.extra_attrs@.len() == 0,
    {
        let native = TypeEntryNative {
            path: string_of(name),
            impls: Vec::new(),
            parameters: copy_ids(params),
        };
        TypeEntry::from_details(TypeEntryDetails::Native(native))
    }

    /// The boolean type.
    pub fn new_boolean() -> (r: Self)
        ensures
            r.details is Boolean,
            r.extra_derives@.len() == 0,
            r.extra_attrs@.len() == 0,
    {
        TypeEntry::from_details(TypeEntryDetails::Boolean)
    }

    /// The integer type with the given name.
    pub fn new_integer(name: &str) -> (r: Self)
        ensures
            r.details matches TypeEntryDetails::Integer(n) && n@ == name@,
            r.extra_derives@.len() == 0,
            r.extra_attrs@.len() == 0,
    {
        TypeEntry::from_details(TypeEntryDetails::Integer(string_of(name)))
    }

    /// The floating-point type with the given name.
    pub fn new_float(name: &str) -> (r: Self)
        ensures
            r.details matches TypeEntryDetails::Float(n) && n@ == name@,
            r.extra_derives@.len() == 0,
            r.extra_attrs@.len() == 0,
    {
        TypeEntry::from_details(TypeEntryDetails::Float(string_of(name)))
    }

    /// The name of a user-defined type.
    pub open spec fn spec_name(self) -> Option<Seq<char>> {
        details_name(self.details)
    }

    /// The name of the type if it is user-defined (an enum, struct or
    /// newtype).
    pub fn name(&self) -> (r: Option<&String>)
        ensures
            match r {
                Some(n) => self.spec_name() == Some(n@),
                None => self.spec_name() is None,
            },
    {
        match &self.details {
            TypeEntryDetails::Enum(e) => Some(&e.name),
            TypeEntryDetails::Struct(s) => Some(&s.name),
            TypeEntryDetails::Newtype(n) => Some(&n.name),
            _ => None,
        }
    }

    /// A textual description of the type appropriate for debug output;
    /// `None` for a reference, which has none.
    pub open spec fn spec_describe(self) -> Option<Seq<char>> {
        match self.details {
            TypeEntryDetails::Enum(e) => Some("enum "@ + e.name@),
            TypeEntryDetails::Struct(s) => Some("struct "@ + s.name@),
            TypeEntryDetails::Newtype(n) => Some(
                "newtype "@ + n.name@ + " "@ + decimal(n.type_id.0 as nat),
            ),
            TypeEntryDetails::Unit => Some("()"@),
            TypeEntryDetails::Option(id) => Some("option "@ + decimal(id.0 as nat)),
            TypeEntryDetails::Vec(id) => Some("vec "@ + decimal(id.0 as nat)),
            TypeEntryDetails::MapOf(k, v) => Some(
                "map "@ + decimal(k.0 as nat) + " "@ + decimal(v.0 as nat),
            ),
            TypeEntryDetails::SetOf(id) => Some("set "@ + decimal(id.0 as nat)),
            TypeEntryDetails::Box(id) => Some("box "@ + decimal(id.0 as nat)),
            TypeEntryDetails::Tuple(ids) => Some("tuple ("@ + join_ids(ids@) + ")"@),
            TypeEntryDetails::Array(id, len) => Some(
                "array "@ + decimal(id.0 as nat) + "; "@ + decimal(len as nat),
            ),
            TypeEntryDetails::Boolean => Some("bool"@),
            TypeEntryDetails::Native(n) => Some(n.path@),
            TypeEntryDetails::Integer(n) => Some(n@),
            TypeEntryDetails::Float(n) => Some(n@),
            TypeEntryDetails::String => Some("string"@),
            TypeEntryDetails::JsonValue => Some("json value"@),
            TypeEntryDetails::Reference(_) => None,
        }
    }

    /// A textual description of the type appropriate for debug output.
    pub fn describe(&self) -> (r: String)
        requires
            !(self.details is Reference),
        ensures
            self.spec_describe() == Some(r@),
    {
        let mut s = String::new();
        match &self.details {
            TypeEntryDetails::Enum(e) => {
                push_str(&mut s, "enum ");
                push_str(&mut s, e.name.as_str());
            },
            TypeEntryDetails::Struct(st) => {
                push_str(&mut s, "struct ");
                push_str(&mut s, st.name.as_str());
            },
            TypeEntryDetails::Newtype(n) => {
                push_str(&mut s, "newtype ");
                push_str(&mut s, n.name.as_str());
                push_str(&mut s, " ");
                push_decimal(&mut s, n.type_id.0);
            },
            TypeEntryDetails::Unit => push_str(&mut s, "()"),
            TypeEntryDetails::Option(id) => {
                push_str(&mut s, "option ");
                push_decimal(&mut s, id.0);
            },
            TypeEntryDetails::Vec(id) => {
                push_str(&mut s, "vec ");
                push_decimal(&mut s, id.0);
            },
            TypeEntryDetails::MapOf(k, v) => {
                push_str(&mut s, "map ");
                push_decimal(&mut s, k.0);
                push_str(&mut s, " ");
                push_decimal(&mut s, v.0);
            },
            TypeEntryDetails::SetOf(id) => {
                push_str(&mut s, "set ");
                push_decimal(&mut s, id.0);
            },
            TypeEntryDetails::Box(id) => {
                push_str(&mut s, "box ");
                push_decimal(&mut s, id.0);
            },
            TypeEntryDetails::Tuple(ids) => {
                push_str(&mut s, "tuple (");
                push_joined_ids(&mut s, ids.as_slice());
                push_str(&mut s, ")");
            },
            TypeEntryDetails::Array(id, len) => {
                push_str(&mut s, "array ");
                push_decimal(&mut s, id.0);
                push_str(&mut s, "; ");
                push_decimal(&mut s, *len as u64);
            },
            TypeEntryDetails::Boolean => push_str(&mut s, "bool"),
            TypeEntryDetails::Native(n) => push_str(&mut s, n.path.as_str()),
            TypeEntryDetails::Integer(n) => push_str(&mut s, n.as_str()),
            TypeEntryDetails::Float(n) => push_str(&mut s, n.as_str()),
            TypeEntryDetails::String => push_str(&mut s, "string"),
            TypeEntryDetails::JsonValue => push_str(&mut s, "json value"),
            TypeEntryDetails::Reference(_) => {},
        }
        s
    }
}

/// The name of a user-defined type.
pub open spec fn details_name(d: TypeEntryDetails) -> Option<Seq<char>> {
    match d {
        TypeEntryDetails::Enum(e) => Some(e.name@),
        TypeEntryDetails::Struct(s) => Some(s.name@),
        TypeEntryDetails::Newtype(n) => Some(n.name@),
        _ => None,
    }
}

/// The decimal ids of `ids`, separated by `, `.
pub open spec fn join_ids(ids: Seq<TypeId>) -> Seq<char>
    decreases ids.len(),
{
    if ids.len() == 0 {
        Seq::empty()
    } else if ids.len() == 1 {
        decimal(ids[0].0 as nat)
    } else {
        join_ids(ids.drop_last()) + ", "@ + decimal(ids.last().0 as nat)
    }
}

/// Appends the decimal ids of `ids`, separated by `, `, to `s`.
pub fn push_joined_ids(s: &mut String, ids: &[TypeId])
    ensures
        final(s)@ == old(s)@ + join_ids(ids@),
{
    let mut i: usize = 0;
    assert(ids@.take(0) =~= Seq::<TypeId>::empty());
    assert(old(s)@ + join_ids(ids@.take(0)) =~= old(s)@);
    while i < ids.len()
        invariant
            i <= ids.len(),
            s@ == old(s)@ + join_ids(ids@.take(i as int)),
        decreases ids.len() - i,
    {
        let ghost before = s@;
        assert(ids@.take(i + 1).drop_last() =~= ids@.take(i as int));
        if i > 0 {
            push_str(s, ", ");
        }
        push_decimal(s, ids[i].0);
        proof {
            if i == 0 {
                assert(s@ =~= old(s)@ + join_ids(ids@.take(i + 1)));
            } else {
                assert(s@ =~= old(s)@ + join_ids(ids@.take(i + 1)));
            }
        }
        i = i + 1;
    }
    assert(ids@.take(ids.len() as int) =~= ids@);
}

/// Whether `c` has the Unicode property XID_Continue
/// (`unicode_ident::is_xid_continue`).
pub uninterp spec fn xid_continue(c: char) -> bool;

/// `unicode_ident::is_xid_continue`: whether `c` may continue an
/// identifier. Its contract names the result and states what the crate's
/// ASCII table gives: an ASCII character continues an identifier exactly
/// when it is a digit, a letter or `_`. For other characters the result is
/// the Unicode tables' and is left unsaid.
#[verifier::external_body]
fn is_xid_continue(c: char) -> (r: bool)
    ensures
        r == xid_continue(c),
        (c as u32) < 128 ==> (r <==> (('0' <= c && c <= '9') || ('A' <= c && c <= 'Z') || ('a' <= c && c <= 'z') || c == '_')),
{
    unicode_ident::is_xid_continue(c)
}

/// A character of a variant name as the second naming pass sees it: `_`
/// and characters that cannot continue an identifier become `X`.
pub open spec fn x_elide_char(c: char) -> char {
    if c == '_' || !xid_continue(c) {
        'X'
    } else {
        c
    }
}

/// A variant name with each `_` and each character that cannot continue
/// an identifier replaced by `X`.
pub open spec fn x_elide(s: Seq<char>) -> Seq<char> {
    s.map_values(|c: char| x_elide_char(c))
}

/// The raw name of a variant as the second naming pass sees it, before it
/// is turned into an identifier: `_` and characters that cannot continue
/// an identifier become `X`, so names that differ only there stay apart.
pub fn x_elided(raw: &str) -> (r: String)
    ensures
        r@ == x_elide(raw@),
{
    let cs = chars_of(raw);
    let mut s = String::new();
    let mut i: usize = 0;
    while i < cs.len()
        invariant
            i <= cs.len(),
            cs@ == raw@,
            s@ == x_elide(raw@).take(i as int),
        decreases cs.len() - i,
    {
        let c = cs[i];
        if c == '_' || !is_xid_continue(c) {
            push_char(&mut s, 'X');
        } else {
            push_char(&mut s, c);
        }
        assert(s@ =~= x_elide(raw@).take(i + 1));
        i = i + 1;
    }
    assert(x_elide(raw@).take(cs.len() as int) =~= x_elide(raw@));
    s
}

fn distinct(xs: &Vec<String>) -> (r: bool)
    ensures
        r == no_duplicates(strings_view(xs@)),
{
    let mut i: usize = 0;
    while i < xs.len()
        invariant
            i <= xs.len(),
            forall|a: int, b: int| 0 <= a < b < xs@.len() && a < i ==> xs@[a]@ != xs@[b]@,
        decreases xs.len() - i,
    {
        let mut j: usize = i + 1;
        while j < xs.len()
            invariant
                i < xs.len(),
                i + 1 <= j <= xs.len(),
                forall|a: int, b: int| 0 <= a < b < xs@.len() && a < i ==> xs@[a]@ != xs@[b]@,
                forall|b: int| i < b < j ==> xs@[i as int]@ != xs@[b]@,
            decreases xs.len() - j,
        {
            if str_equal(xs[i].as_str(), xs[j].as_str()) {
                assert(strings_view(xs@)[i as int] == strings_view(xs@)[j as int]);
                return false;
            }
            j = j + 1;
        }
        i = i + 1;
    }
    true
}

/// The identifier chosen for variant `i`: from the names of the first pass
/// where they are all distinct, else from those of the second.
pub open spec fn chosen_ident(plain: Seq<Seq<char>>, elided: Seq<Seq<char>>, i: int) -> Seq<char> {
    if no_duplicates(plain) {
        plain[i]
    } else {
        elided[i]
    }
}

/// Gives the variants their identifiers. `plain` holds each variant's raw
/// name turned into a Pascal-case identifier, `elided` the same for its
/// [`x_elided`] name. The first pass is taken where its identifiers are
/// all distinct, else the second, which must then be distinct (an enum
/// whose variants no pass tells apart cannot be generated). The variants
/// keep their order and everything else.
pub fn name_variants(variants: Vec<Variant>, plain: &Vec<String>, elided: &Vec<String>) -> (r: Vec<Variant>)
    requires
        plain@.len() == variants@.len(),
        elided@.len() == variants@.len(),
        no_duplicates(strings_view(plain@)) || no_duplicates(strings_view(elided@)),
    ensures
        r@.len() == variants@.len(),
        forall|i: int| 0 <= i < r@.len() ==> {
            &&& (#[trigger] r@[i]).raw_name == variants@[i].raw_name
            &&& r@[i].description == variants@[i].description
            &&& r@[i].details == variants@[i].details
            &&& r@[i].ident_name matches Some(n) && n@ == chosen_ident(strings_view(plain@), strings_view(elided@), i)
        },
        no_duplicates(Seq::new(r@.len(), |i: int| r@[i].ident_name->0@)),
{
    let use_plain = distinct(plain);
    let names = if use_plain { plain } else { elided };
    assert(no_duplicates(strings_view(names@)));
    let ghost orig = variants@;
    let mut rest = variants;
    let mut out: Vec<Variant> = Vec::new();
    while rest.len() > 0
        invariant
            out@.len() + rest@.len() == orig.len(),
            rest@ == orig.skip(out@.len() as int),
            names@.len() == orig.len(),
            names == (if use_plain { plain } else { elided }),
            use_plain == no_duplicates(strings_view(plain@)),
            forall|i: int| 0 <= i < out@.len() ==> {
                &&& (#[trigger] out@[i]).raw_name == orig[i].raw_name
                &&& out@[i].description == orig[i].description
                &&& out@[i].details == orig[i].details
                &&& out@[i].ident_name matches Some(n) && n@ == names@[i]@
            },
        decreases rest@.len(),
    {
        let k = out.len();
        let mut v = rest.remove(0);
        assert(v == orig[k as int]);
        v.ident_name = Some(names[k].clone());
        out.push(v);
        assert(rest@ =~= orig.skip(out@.len() as int));
    }
    proof {
        assert forall|i: int| 0 <= i < out@.len() implies (#[trigger] out@[i]).ident_name matches Some(n) && n@
            == chosen_ident(strings_view(plain@), strings_view(elided@), i) by {
            assert(strings_view(names@)[i] == names@[i]@);
        }
        let ids = Seq::new(out@.len(), |i: int| out@[i].ident_name->0@);
        assert forall|a: int, b: int| 0 <= a < b < ids.len() implies ids[a] != ids[b] by {
            assert(ids[a] == strings_view(names@)[a]);
            assert(ids[b] == strings_view(names@)[b]);
        }
    }
    out
}

} // verus!
