//! The Rust source text of generated items: their attribute blocks, and
//! the newtype item with its impls (proxying, validating and convenience
//! impls). Parsed as Rust, the text gives the generated code.

use vstd::prelude::*;

use crate::attrs::{
    cond_attrs_at, cond_derives_for, is_derive_list, is_sorted_set_of, pairs_view, strings_to_attrs,
    type_attr_lists, uncond_attrs_at, TypeAttrLists,
};
use crate::emit::{
    is_string_path, newtype_denied, newtype_derive_set, newtype_inner, newtype_json_schema,
    newtype_plan, spec_newtype_default, DefaultPlan, NewtypePlan,
};
use crate::ident::{ident_defined, spec_ident};
use crate::settings::{strings_view, AttrPosition};
use crate::space::{entry_of, impl_defined, spec_has_impl, TypeSpace};
use crate::strings::{debug_str, decimal, push_decimal, push_str, str_debug, string_of};
use crate::type_entry::{TypeEntryNewtype, TypeEntryNewtypeConstraints};
use crate::{TypeKind, TypeSpaceImpl};

verus! {

/// The lines of `xs`, one after the other.
pub open spec fn lines(xs: Seq<Seq<char>>) -> Seq<char>
    decreases xs.len(),
{
    if xs.len() == 0 {
        Seq::empty()
    } else {
        lines(xs.drop_last()) + xs.last()
    }
}

/// Each attribute of `xs` as an outer attribute `#[..]`.
pub open spec fn attr_lines(xs: Seq<Seq<char>>) -> Seq<char>
    decreases xs.len(),
{
    if xs.len() == 0 {
        Seq::empty()
    } else {
        attr_lines(xs.drop_last()) + "#["@ + xs.last() + "]"@
    }
}

/// Each doc string of `xs` as a `#[doc = ".."]` attribute.
pub open spec fn doc_lines_text(xs: Seq<Seq<char>>) -> Seq<char>
    decreases xs.len(),
{
    if xs.len() == 0 {
        Seq::empty()
    } else {
        doc_lines_text(xs.drop_last()) + "#[doc = "@ + str_debug(xs.last()) + "]"@
    }
}

/// Each (feature, attribute) pair as `#[cfg_attr(feature = "..", ..)]`.
pub open spec fn cfg_attr_lines(xs: Seq<(Seq<char>, Seq<char>)>) -> Seq<char>
    decreases xs.len(),
{
    if xs.len() == 0 {
        Seq::empty()
    } else {
        cfg_attr_lines(xs.drop_last()) + "#[cfg_attr(feature = "@ + str_debug(xs.last().0) + ", "@ + xs.last().1 + ")]"@
    }
}

/// Each (feature, derive) pair as `#[cfg_attr(feature = "..", derive(..))]`.
pub open spec fn cfg_derive_lines(xs: Seq<(Seq<char>, Seq<char>)>) -> Seq<char>
    decreases xs.len(),
{
    if xs.len() == 0 {
        Seq::empty()
    } else {
        cfg_derive_lines(xs.drop_last()) + "#[cfg_attr(feature = "@ + str_debug(xs.last().0) + ", derive("@ + xs.last().1
            + "))]"@
    }
}

/// The items of `xs` separated by `, `.
pub open spec fn comma_list(xs: Seq<Seq<char>>) -> Seq<char>
    decreases xs.len(),
{
    if xs.len() == 0 {
        Seq::empty()
    } else if xs.len() == 1 {
        xs[0]
    } else {
        comma_list(xs.drop_last()) + ", "@ + xs.last()
    }
}

/// The attribute block of a generated type: its doc strings, its own and
/// the settings' extra attributes, the unconditional and conditional
/// attributes placed before the derive, the conditional derives, the
/// derive, the `serde` line, then the attributes placed after the derive.
pub open spec fn header_text(
    doc: Seq<Seq<char>>,
    attrs: Seq<Seq<char>>,
    uncond_pre: Seq<Seq<char>>,
    cond_pre: Seq<(Seq<char>, Seq<char>)>,
    cond_derives: Seq<(Seq<char>, Seq<char>)>,
    derives: Seq<Seq<char>>,
    serde: Seq<char>,
    uncond_post: Seq<Seq<char>>,
    cond_post: Seq<(Seq<char>, Seq<char>)>,
) -> Seq<char> {
    doc_lines_text(doc) + lines(attrs) + attr_lines(uncond_pre) + cfg_attr_lines(cond_pre) + cfg_derive_lines(cond_derives)
        + "#[derive("@ + comma_list(derives) + ")]"@ + serde + attr_lines(uncond_post) + cfg_attr_lines(cond_post)
}

fn push_lines(s: &mut String, xs: &Vec<String>)
    ensures
        final(s)@ == old(s)@ + lines(strings_view(xs@)),
{
    let mut i: usize = 0;
    assert(strings_view(xs@).take(0) =~= Seq::<Seq<char>>::empty());
    assert(old(s)@ + Seq::<char>::empty() =~= old(s)@);
    while i < xs.len()
        invariant
            i <= xs.len(),
            s@ == old(s)@ + lines(strings_view(xs@).take(i as int)),
        decreases xs.len() - i,
    {
        push_str(s, xs[i].as_str());
        let ghost t = strings_view(xs@).take(i + 1);
        assert(t.drop_last() =~= strings_view(xs@).take(i as int));
        assert(t.last() == xs@[i as int]@);
        i = i + 1;
    }
    assert(strings_view(xs@).take(xs.len() as int) =~= strings_view(xs@));
}

fn push_attr_lines(s: &mut String, xs: &Vec<String>)
    ensures
        final(s)@ == old(s)@ + attr_lines(strings_view(xs@)),
{
    let mut i: usize = 0;
    assert(strings_view(xs@).take(0) =~= Seq::<Seq<char>>::empty());
    assert(old(s)@ + Seq::<char>::empty() =~= old(s)@);
    while i < xs.len()
        invariant
            i <= xs.len(),
            s@ == old(s)@ + attr_lines(strings_view(xs@).take(i as int)),
        decreases xs.len() - i,
    {
        push_str(s, "#[");
        push_str(s, xs[i].as_str());
        push_str(s, "]");
        let ghost t = strings_view(xs@).take(i + 1);
        assert(t.drop_last() =~= strings_view(xs@).take(i as int));
        assert(t.last() == xs@[i as int]@);
        i = i + 1;
    }
    assert(strings_view(xs@).take(xs.len() as int) =~= strings_view(xs@));
}

fn push_doc_lines(s: &mut String, xs: &Vec<String>)
    ensures
        final(s)@ == old(s)@ + doc_lines_text(strings_view(xs@)),
{
    let mut i: usize = 0;
    assert(strings_view(xs@).take(0) =~= Seq::<Seq<char>>::empty());
    assert(old(s)@ + Seq::<char>::empty() =~= old(s)@);
    while i < xs.len()
        invariant
            i <= xs.len(),
            s@ == old(s)@ + doc_lines_text(strings_view(xs@).take(i as int)),
        decreases xs.len() - i,
    {
        push_str(s, "#[doc = ");
        let q = debug_str(xs[i].as_str());
        push_str(s, q.as_str());
        push_str(s, "]");
        let ghost t = strings_view(xs@).take(i + 1);
        assert(t.drop_last() =~= strings_view(xs@).take(i as int));
        assert(t.last() == xs@[i as int]@);
        i = i + 1;
    }
    assert(strings_view(xs@).take(xs.len() as int) =~= strings_view(xs@));
}

fn push_cfg_attr_lines(s: &mut String, xs: &Vec<(String, String)>)
    ensures
        final(s)@ == old(s)@ + cfg_attr_lines(pairs_view(xs@)),
{
    let mut i: usize = 0;
    assert(pairs_view(xs@).take(0) =~= Seq::<(Seq<char>, Seq<char>)>::empty());
    assert(old(s)@ + Seq::<char>::empty() =~= old(s)@);
    while i < xs.len()
        invariant
            i <= xs.len(),
            s@ == old(s)@ + cfg_attr_lines(pairs_view(xs@).take(i as int)),
        decreases xs.len() - i,
    {
        push_str(s, "#[cfg_attr(feature = ");
        let q = debug_str(xs[i].0.as_str());
        push_str(s, q.as_str());
        push_str(s, ", ");
        push_str(s, xs[i].1.as_str());
        push_str(s, ")]");
        let ghost t = pairs_view(xs@).take(i + 1);
        assert(t.drop_last() =~= pairs_view(xs@).take(i as int));
        assert(t.last() == (xs@[i as int].0@, xs@[i as int].1@));
        i = i + 1;
    }
    assert(pairs_view(xs@).take(xs.len() as int) =~= pairs_view(xs@));
}

fn push_cfg_derive_lines(s: &mut String, xs: &Vec<(String, String)>)
    ensures
        final(s)@ == old(s)@ + cfg_derive_lines(pairs_view(xs@)),
{
    let mut i: usize = 0;
    assert(pairs_view(xs@).take(0) =~= Seq::<(Seq<char>, Seq<char>)>::empty());
    assert(old(s)@ + Seq::<char>::empty() =~= old(s)@);
    while i < xs.len()
        invariant
            i <= xs.len(),
            s@ == old(s)@ + cfg_derive_lines(pairs_view(xs@).take(i as int)),
        decreases xs.len() - i,
    {
        push_str(s, "#[cfg_attr(feature = ");
        let q = debug_str(xs[i].0.as_str());
        push_str(s, q.as_str());
        push_str(s, ", derive(");
        push_str(s, xs[i].1.as_str());
        push_str(s, "))]");
        let ghost t = pairs_view(xs@).take(i + 1);
        assert(t.drop_last() =~= pairs_view(xs@).take(i as int));
        assert(t.last() == (xs@[i as int].0@, xs@[i as int].1@));
        i = i + 1;
    }
    assert(pairs_view(xs@).take(xs.len() as int) =~= pairs_view(xs@));
}

pub(crate) fn push_comma_list(s: &mut String, xs: &Vec<String>)
    ensures
        final(s)@ == old(s)@ + comma_list(strings_view(xs@)),
{
    let mut i: usize = 0;
    assert(strings_view(xs@).take(0) =~= Seq::<Seq<char>>::empty());
    assert(old(s)@ + Seq::<char>::empty() =~= old(s)@);
    while i < xs.len()
        invariant
            i <= xs.len(),
            s@ == old(s)@ + comma_list(strings_view(xs@).take(i as int)),
        decreases xs.len() - i,
    {
        let ghost t = strings_view(xs@).take(i + 1);
        assert(t.drop_last() =~= strings_view(xs@).take(i as int));
        assert(t.last() == xs@[i as int]@);
        if i > 0 {
            push_str(s, ", ");
        } else {
            assert(t[0] == xs@[0]@);
        }
        push_str(s, xs[i].as_str());
        i = i + 1;
    }
    assert(strings_view(xs@).take(xs.len() as int) =~= strings_view(xs@));
}

/// The attribute block of a generated type, given its doc strings, its
/// attributes (own and extra, merged), the attribute lists of the
/// settings for its kind, its derive list and its `serde` line.
pub fn header(doc: &Vec<String>, attrs: &Vec<String>, lists: &TypeAttrLists, derives: &Vec<String>, serde: &str) -> (r: String)
    ensures
        r@ == header_text(strings_view(doc@), strings_view(attrs@), strings_view(lists.uncond_pre@),
            pairs_view(lists.cond_pre@), pairs_view(lists.cond_derives@), strings_view(derives@), serde@,
            strings_view(lists.uncond_post@), pairs_view(lists.cond_post@)),
{
    let mut s = String::new();
    assert(s@ =~= Seq::<char>::empty());
    push_doc_lines(&mut s, doc);
    assert(s@ =~= doc_lines_text(strings_view(doc@)));
    push_lines(&mut s, attrs);
    push_attr_lines(&mut s, &lists.uncond_pre);
    push_cfg_attr_lines(&mut s, &lists.cond_pre);
    push_cfg_derive_lines(&mut s, &lists.cond_derives);
    push_str(&mut s, "#[derive(");
    push_comma_list(&mut s, derives);
    push_str(&mut s, ")]");
    push_str(&mut s, serde);
    push_attr_lines(&mut s, &lists.uncond_post);
    push_cfg_attr_lines(&mut s, &lists.cond_post);
    s
}

/// The empty text.
pub open spec fn nothing() -> Seq<char> {
    Seq::empty()
}

/// The tuple struct of a newtype, its inner value public or not.
pub open spec fn nt_struct(name: Seq<char>, inner: Seq<char>, public: bool) -> Seq<char> {
    "pub struct "@ + name + "("@ + (if public { "pub "@ } else { nothing() }) + inner + ");"@
}

/// `Deref` to the inner type, and `From` the newtype into it.
pub open spec fn nt_deref(name: Seq<char>, inner: Seq<char>) -> Seq<char> {
    "impl ::std::ops::Deref for "@ + name + " { type Target = "@ + inner + "; fn deref(&self) -> &"@ + inner
        + " { &self.0 } }"@ + "impl ::std::convert::From<"@ + name + "> for "@ + inner + " { fn from(value: "@ + name
        + ") -> Self { value.0 } }"@
}

/// A `Default` impl giving the expression `value`.
pub open spec fn default_impl_text(name: Seq<char>, value: Seq<char>) -> Seq<char> {
    "impl ::std::default::Default for "@ + name + " { fn default() -> Self { "@ + value + " } }"@
}

/// `Display` through the inner value.
pub open spec fn proxy_display_text(name: Seq<char>) -> Seq<char> {
    "impl ::std::fmt::Display for "@ + name
        + " { fn fmt(&self, f: &mut ::std::fmt::Formatter<'_>) -> ::std::fmt::Result { self.0.fmt(f) } }"@
}

/// The convenience impls of a string newtype: `AsRef<str>`, `Display`,
/// and, where asked, `From<&str>`.
pub open spec fn conveniences_text(name: Seq<char>, from_ref: bool) -> Seq<char> {
    "impl ::std::convert::AsRef<str> for "@ + name + " { fn as_ref(&self) -> &str { self.0.as_ref() } }"@
        + proxy_display_text(name) + (if from_ref {
        "impl ::std::convert::From<&str> for "@ + name + " { fn from(value: &str) -> Self { Self(value.to_string()) } }"@
    } else {
        nothing()
    })
}

/// The impls of an unconstrained newtype: `From` its inner value; for a
/// string newtype, `FromStr` that cannot fail; where the inner type parses,
/// `FromStr`, `TryFrom<&str>` and, unless the inner type is `String` by
/// path, `TryFrom<String>` through it; where it displays, `Display`.
pub open spec fn unconstrained_text(
    name: Seq<char>,
    inner: Seq<char>,
    string_from_str: bool,
    proxy_from_str: bool,
    try_from_string: bool,
    proxy_display: bool,
) -> Seq<char> {
    "impl ::std::convert::From<"@ + inner + "> for "@ + name + " { fn from(value: "@ + inner + ") -> Self { Self(value) } }"@
        + (if string_from_str {
        "impl ::std::str::FromStr for "@ + name
            + " { type Err = ::std::convert::Infallible; fn from_str(value: &str) -> ::std::result::Result<Self, Self::Err> { Ok(Self(value.to_string())) } }"@
    } else {
        nothing()
    }) + (if proxy_from_str {
        "impl ::std::str::FromStr for "@ + name + " { type Err = <"@ + inner
            + " as ::std::str::FromStr>::Err; fn from_str(value: &str) -> ::std::result::Result<Self, Self::Err> { Ok(Self(value.parse()?)) } }"@
            + "impl ::std::convert::TryFrom<&str> for "@ + name + " { type Error = <"@ + inner
            + " as ::std::str::FromStr>::Err; fn try_from(value: &str) -> ::std::result::Result<Self, Self::Error> { value.parse() } }"@
            + (if try_from_string {
            "impl ::std::convert::TryFrom<String> for "@ + name + " { type Error = <"@ + inner
                + " as ::std::str::FromStr>::Err; fn try_from(value: String) -> ::std::result::Result<Self, Self::Error> { value.parse() } }"@
        } else {
            nothing()
        })
    } else {
        nothing()
    }) + (if proxy_display { proxy_display_text(name) } else { nothing() })
}

/// Each expression of `xs` followed by a comma.
pub open spec fn trailing_commas(xs: Seq<Seq<char>>) -> Seq<char>
    decreases xs.len(),
{
    if xs.len() == 0 {
        Seq::empty()
    } else {
        trailing_commas(xs.drop_last()) + xs.last() + ","@
    }
}

/// Each JSON text of `xs` parsed back into a value, in a list.
pub open spec fn json_values_text(xs: Seq<Seq<char>>) -> Seq<char>
    decreases xs.len(),
{
    if xs.len() == 0 {
        Seq::empty()
    } else {
        json_values_text(xs.drop_last()) + "::serde_json::from_str("@ + str_debug(xs.last()) + ").unwrap(),"@
    }
}

/// `Deserialize` that deserializes the inner type, then validates it.
pub open spec fn validating_deserialize_text(name: Seq<char>, inner: Seq<char>) -> Seq<char> {
    "impl<'de> ::serde::Deserialize<'de> for "@ + name
        + " { fn deserialize<D>(deserializer: D) -> ::std::result::Result<Self, D::Error> where D: ::serde::Deserializer<'de>, { Self::try_from(<"@
        + inner + ">::deserialize(deserializer)?).map_err(|e| { <D::Error as ::serde::de::Error>::custom(e.to_string()) }) } }"@
}

/// The impls of a newtype constrained to the listed values (`allowed`) or
/// away from them: a constructor that refuses a value outside (or inside)
/// the list with "invalid value", `Deserialize` through it, and, where
/// asked, a `JsonSchema` impl that states the list.
pub open spec fn valued_text(
    name: Seq<char>,
    inner: Seq<char>,
    allowed: bool,
    value_exprs: Seq<Seq<char>>,
    value_jsons: Seq<Seq<char>>,
    json_schema: bool,
) -> Seq<char> {
    "impl ::std::convert::TryFrom<"@ + inner + "> for "@ + name
        + " { type Error = self::error::ConversionError; fn try_from(value: "@ + inner
        + ") -> ::std::result::Result<Self, self::error::ConversionError> { if "@ + (if allowed { "!"@ } else { nothing() })
        + "["@ + trailing_commas(value_exprs)
        + "].contains(&value) { Err(\"invalid value\".into()) } else { Ok(Self(value)) } } }"@
        + validating_deserialize_text(name, inner) + (if json_schema {
        "impl ::schemars::JsonSchema for "@ + name + " { fn schema_name() -> ::std::string::String { "@ + str_debug(name)
            + ".to_string() } fn json_schema(gen: &mut ::schemars::gen::SchemaGenerator) -> ::schemars::schema::Schema { let mut schema = <"@
            + inner + " as ::schemars::JsonSchema>::json_schema(gen).into_object(); "@ + (if allowed {
            "schema.enum_values = ::std::option::Option::Some(["@ + json_values_text(value_jsons)
                + "].into_iter().collect()); schema.into() } }"@
        } else {
            "let not = ::schemars::schema::SchemaObject { enum_values: ::std::option::Option::Some(["@ + json_values_text(value_jsons)
                + "].into_iter().collect()), ..::std::default::Default::default() }; schema.subschemas().not = Some(::std::boxed::Box::new(not.into())); schema.into() } }"@
        })
    } else {
        nothing()
    })
}

/// The check that refuses a string longer than `max` characters.
pub open spec fn max_check(max: Option<u32>) -> Seq<char> {
    match max {
        Some(v) => "if value.chars().count() > "@ + decimal(v as nat) + "usize { return Err("@ + str_debug(
            "longer than "@ + decimal(v as nat) + " characters"@,
        ) + ".into()); }"@,
        None => nothing(),
    }
}

/// The check that refuses a string shorter than `min` characters.
pub open spec fn min_check(min: Option<u32>) -> Seq<char> {
    match min {
        Some(v) => "if value.chars().count() < "@ + decimal(v as nat) + "usize { return Err("@ + str_debug(
            "shorter than "@ + decimal(v as nat) + " characters"@,
        ) + ".into()); }"@,
        None => nothing(),
    }
}

/// The check that refuses a string that `pattern` does not match.
pub open spec fn pattern_check(pattern: Option<Seq<char>>) -> Seq<char> {
    match pattern {
        Some(p) => "static PATTERN: ::std::sync::LazyLock<::regress::Regex> = ::std::sync::LazyLock::new(|| { ::regress::Regex::new("@
            + str_debug(p) + ").unwrap() }); if PATTERN.find(value).is_none() { return Err("@ + str_debug(
            "doesn't match pattern \""@ + p + "\""@,
        ) + ".into()); }"@,
        None => nothing(),
    }
}

/// `TryFrom` of `&str`, `&String` and `String` through `FromStr`.
pub open spec fn try_from_strings_text(name: Seq<char>) -> Seq<char> {
    "impl ::std::convert::TryFrom<&str> for "@ + name
        + " { type Error = self::error::ConversionError; fn try_from(value: &str) -> ::std::result::Result<Self, self::error::ConversionError> { value.parse() } }"@
        + "impl ::std::convert::TryFrom<&::std::string::String> for "@ + name
        + " { type Error = self::error::ConversionError; fn try_from(value: &::std::string::String) -> ::std::result::Result<Self, self::error::ConversionError> { value.parse() } }"@
        + "impl ::std::convert::TryFrom<::std::string::String> for "@ + name
        + " { type Error = self::error::ConversionError; fn try_from(value: ::std::string::String) -> ::std::result::Result<Self, self::error::ConversionError> { value.parse() } }"@
}

/// The impls of a string newtype with length and pattern constraints:
/// `FromStr` that applies the checks, `TryFrom` of strings through it, and
/// `Deserialize` of a string through it.
pub open spec fn string_constrained_text(name: Seq<char>, max: Option<u32>, min: Option<u32>, pattern: Option<Seq<char>>) -> Seq<char> {
    "impl ::std::str::FromStr for "@ + name
        + " { type Err = self::error::ConversionError; fn from_str(value: &str) -> ::std::result::Result<Self, self::error::ConversionError> { "@
        + max_check(max) + min_check(min) + pattern_check(pattern) + "Ok(Self(value.to_string())) } }"@ + try_from_strings_text(name)
        + "impl<'de> ::serde::Deserialize<'de> for "@ + name
        + " { fn deserialize<D>(deserializer: D) -> ::std::result::Result<Self, D::Error> where D: ::serde::Deserializer<'de>, { ::std::string::String::deserialize(deserializer)?.parse().map_err(|e: self::error::ConversionError| { <D::Error as ::serde::de::Error>::custom(e.to_string()) }) } }"@
}

pub(crate) fn try_from_strings_exec(name: &str) -> (r: String)
    ensures
        r@ == try_from_strings_text(name@),
{
    let mut s = string_of("impl ::std::convert::TryFrom<&str> for ");
    push_str(&mut s, name);
    push_str(&mut s, " { type Error = self::error::ConversionError; fn try_from(value: &str) -> ::std::result::Result<Self, self::error::ConversionError> { value.parse() } }");
    push_str(&mut s, "impl ::std::convert::TryFrom<&::std::string::String> for ");
    push_str(&mut s, name);
    push_str(&mut s, " { type Error = self::error::ConversionError; fn try_from(value: &::std::string::String) -> ::std::result::Result<Self, self::error::ConversionError> { value.parse() } }");
    push_str(&mut s, "impl ::std::convert::TryFrom<::std::string::String> for ");
    push_str(&mut s, name);
    push_str(&mut s, " { type Error = self::error::ConversionError; fn try_from(value: ::std::string::String) -> ::std::result::Result<Self, self::error::ConversionError> { value.parse() } }");
    s
}

fn push_trailing_commas(s: &mut String, xs: &Vec<String>)
    ensures
        final(s)@ == old(s)@ + trailing_commas(strings_view(xs@)),
{
    let mut i: usize = 0;
    assert(strings_view(xs@).take(0) =~= Seq::<Seq<char>>::empty());
    assert(old(s)@ + Seq::<char>::empty() =~= old(s)@);
    while i < xs.len()
        invariant
            i <= xs.len(),
            s@ == old(s)@ + trailing_commas(strings_view(xs@).take(i as int)),
        decreases xs.len() - i,
    {
        push_str(s, xs[i].as_str());
        push_str(s, ",");
        let ghost t = strings_view(xs@).take(i + 1);
        assert(t.drop_last() =~= strings_view(xs@).take(i as int));
        assert(t.last() == xs@[i as int]@);
        i = i + 1;
    }
    assert(strings_view(xs@).take(xs.len() as int) =~= strings_view(xs@));
}

fn push_json_values(s: &mut String, xs: &Vec<String>)
    ensures
        final(s)@ == old(s)@ + json_values_text(strings_view(xs@)),
{
    let mut i: usize = 0;
    assert(strings_view(xs@).take(0) =~= Seq::<Seq<char>>::empty());
    assert(old(s)@ + Seq::<char>::empty() =~= old(s)@);
    while i < xs.len()
        invariant
            i <= xs.len(),
            s@ == old(s)@ + json_values_text(strings_view(xs@).take(i as int)),
        decreases xs.len() - i,
    {
        push_str(s, "::serde_json::from_str(");
        let q = debug_str(xs[i].as_str());
        push_str(s, q.as_str());
        push_str(s, ").unwrap(),");
        let ghost t = strings_view(xs@).take(i + 1);
        assert(t.drop_last() =~= strings_view(xs@).take(i as int));
        assert(t.last() == xs@[i as int]@);
        i = i + 1;
    }
    assert(strings_view(xs@).take(xs.len() as int) =~= strings_view(xs@));
}

fn nt_struct_exec(name: &str, inner: &str, public: bool) -> (r: String)
    ensures
        r@ == nt_struct(name@, inner@, public),
{
    let mut s = string_of("pub struct ");
    push_str(&mut s, name);
    push_str(&mut s, "(");
    if public {
        push_str(&mut s, "pub ");
    } else {
        assert(s@ + nothing() =~= s@);
    }
    push_str(&mut s, inner);
    push_str(&mut s, ");");
    s
}

fn nt_deref_exec(name: &str, inner: &str) -> (r: String)
    ensures
        r@ == nt_deref(name@, inner@),
{
    let mut s = string_of("impl ::std::ops::Deref for ");
    push_str(&mut s, name);
    push_str(&mut s, " { type Target = ");
    push_str(&mut s, inner);
    push_str(&mut s, "; fn deref(&self) -> &");
    push_str(&mut s, inner);
    push_str(&mut s, " { &self.0 } }");
    push_str(&mut s, "impl ::std::convert::From<");
    push_str(&mut s, name);
    push_str(&mut s, "> for ");
    push_str(&mut s, inner);
    push_str(&mut s, " { fn from(value: ");
    push_str(&mut s, name);
    push_str(&mut s, ") -> Self { value.0 } }");
    s
}

pub(crate) fn default_impl_exec(name: &str, value: &str) -> (r: String)
    ensures
        r@ == default_impl_text(name@, value@),
{
    let mut s = string_of("impl ::std::default::Default for ");
    push_str(&mut s, name);
    push_str(&mut s, " { fn default() -> Self { ");
    push_str(&mut s, value);
    push_str(&mut s, " } }");
    s
}

fn proxy_display_exec(name: &str) -> (r: String)
    ensures
        r@ == proxy_display_text(name@),
{
    let mut s = string_of("impl ::std::fmt::Display for ");
    push_str(&mut s, name);
    push_str(&mut s, " { fn fmt(&self, f: &mut ::std::fmt::Formatter<'_>) -> ::std::fmt::Result { self.0.fmt(f) } }");
    s
}

fn conveniences_exec(name: &str, from_ref: bool) -> (r: String)
    ensures
        r@ == conveniences_text(name@, from_ref),
{
    let mut s = string_of("impl ::std::convert::AsRef<str> for ");
    push_str(&mut s, name);
    push_str(&mut s, " { fn as_ref(&self) -> &str { self.0.as_ref() } }");
    let d = proxy_display_exec(name);
    push_str(&mut s, d.as_str());
    if from_ref {
        let mut f = string_of("impl ::std::convert::From<&str> for ");
        push_str(&mut f, name);
        push_str(&mut f, " { fn from(value: &str) -> Self { Self(value.to_string()) } }");
        push_str(&mut s, f.as_str());
    } else {
        assert(s@ + nothing() =~= s@);
    }
    s
}

fn unconstrained_exec(
    name: &str,
    inner: &str,
    string_from_str: bool,
    proxy_from_str: bool,
    try_from_string: bool,
    proxy_display: bool,
) -> (r: String)
    ensures
        r@ == unconstrained_text(name@, inner@, string_from_str, proxy_from_str, try_from_string, proxy_display),
{
    let mut s = string_of("impl ::std::convert::From<");
    push_str(&mut s, inner);
    push_str(&mut s, "> for ");
    push_str(&mut s, name);
    push_str(&mut s, " { fn from(value: ");
    push_str(&mut s, inner);
    push_str(&mut s, ") -> Self { Self(value) } }");
    let mut a = String::new();
    if string_from_str {
        a = string_of("impl ::std::str::FromStr for ");
        push_str(&mut a, name);
        push_str(&mut a, " { type Err = ::std::convert::Infallible; fn from_str(value: &str) -> ::std::result::Result<Self, Self::Err> { Ok(Self(value.to_string())) } }");
    }
    assert(a@ == (if string_from_str {
        "impl ::std::str::FromStr for "@ + name@
            + " { type Err = ::std::convert::Infallible; fn from_str(value: &str) -> ::std::result::Result<Self, Self::Err> { Ok(Self(value.to_string())) } }"@
    } else {
        nothing()
    }));
    let mut b = String::new();
    if proxy_from_str {
        b = string_of("impl ::std::str::FromStr for ");
        push_str(&mut b, name);
        push_str(&mut b, " { type Err = <");
        push_str(&mut b, inner);
        push_str(&mut b, " as ::std::str::FromStr>::Err; fn from_str(value: &str) -> ::std::result::Result<Self, Self::Err> { Ok(Self(value.parse()?)) } }");
        push_str(&mut b, "impl ::std::convert::TryFrom<&str> for ");
        push_str(&mut b, name);
        push_str(&mut b, " { type Error = <");
        push_str(&mut b, inner);
        push_str(&mut b, " as ::std::str::FromStr>::Err; fn try_from(value: &str) -> ::std::result::Result<Self, Self::Error> { value.parse() } }");
        let mut c = String::new();
        if try_from_string {
            c = string_of("impl ::std::convert::TryFrom<String> for ");
            push_str(&mut c, name);
            push_str(&mut c, " { type Error = <");
            push_str(&mut c, inner);
            push_str(&mut c, " as ::std::str::FromStr>::Err; fn try_from(value: String) -> ::std::result::Result<Self, Self::Error> { value.parse() } }");
        }
        assert(c@ == (if try_from_string {
            "impl ::std::convert::TryFrom<String> for "@ + name@ + " { type Error = <"@ + inner@
                + " as ::std::str::FromStr>::Err; fn try_from(value: String) -> ::std::result::Result<Self, Self::Error> { value.parse() } }"@
        } else {
            nothing()
        }));
        push_str(&mut b, c.as_str());
    }
    let mut d = String::new();
    if proxy_display {
        d = proxy_display_exec(name);
    }
    push_str(&mut s, a.as_str());
    push_str(&mut s, b.as_str());
    push_str(&mut s, d.as_str());
    s
}

fn valued_exec(
    name: &str,
    inner: &str,
    allowed: bool,
    value_exprs: &Vec<String>,
    value_jsons: &Vec<String>,
    json_schema: bool,
) -> (r: String)
    ensures
        r@ == valued_text(name@, inner@, allowed, strings_view(value_exprs@), strings_view(value_jsons@), json_schema),
{
    let mut s = string_of("impl ::std::convert::TryFrom<");
    push_str(&mut s, inner);
    push_str(&mut s, "> for ");
    push_str(&mut s, name);
    push_str(&mut s, " { type Error = self::error::ConversionError; fn try_from(value: ");
    push_str(&mut s, inner);
    push_str(&mut s, ") -> ::std::result::Result<Self, self::error::ConversionError> { if ");
    if allowed {
        push_str(&mut s, "!");
    } else {
        assert(s@ + nothing() =~= s@);
    }
    push_str(&mut s, "[");
    push_trailing_commas(&mut s, value_exprs);
    push_str(&mut s, "].contains(&value) { Err(\"invalid value\".into()) } else { Ok(Self(value)) } } }");
    push_str(&mut s, "impl<'de> ::serde::Deserialize<'de> for ");
    push_str(&mut s, name);
    push_str(&mut s, " { fn deserialize<D>(deserializer: D) -> ::std::result::Result<Self, D::Error> where D: ::serde::Deserializer<'de>, { Self::try_from(<");
    push_str(&mut s, inner);
    push_str(&mut s, ">::deserialize(deserializer)?).map_err(|e| { <D::Error as ::serde::de::Error>::custom(e.to_string()) }) } }");
    let ghost before = s@;
    let mut j = String::new();
    if json_schema {
        j = string_of("impl ::schemars::JsonSchema for ");
        push_str(&mut j, name);
        push_str(&mut j, " { fn schema_name() -> ::std::string::String { ");
        let q = debug_str(name);
        push_str(&mut j, q.as_str());
        push_str(&mut j, ".to_string() } fn json_schema(gen: &mut ::schemars::gen::SchemaGenerator) -> ::schemars::schema::Schema { let mut schema = <");
        push_str(&mut j, inner);
        push_str(&mut j, " as ::schemars::JsonSchema>::json_schema(gen).into_object(); ");
        let ghost head = j@;
        let mut t = String::new();
        if allowed {
            t = string_of("schema.enum_values = ::std::option::Option::Some([");
            push_json_values(&mut t, value_jsons);
            push_str(&mut t, "].into_iter().collect()); schema.into() } }");
        } else {
            t = string_of("let not = ::schemars::schema::SchemaObject { enum_values: ::std::option::Option::Some([");
            push_json_values(&mut t, value_jsons);
            push_str(&mut t, "].into_iter().collect()), ..::std::default::Default::default() }; schema.subschemas().not = Some(::std::boxed::Box::new(not.into())); schema.into() } }");
        }
        push_str(&mut j, t.as_str());
    }
    push_str(&mut s, j.as_str());
    assert(s@ =~= valued_text(name@, inner@, allowed, strings_view(value_exprs@), strings_view(value_jsons@), json_schema));
    s
}

fn push_length_check(s: &mut String, bound: Option<u32>, op: &str, word: &str)
    ensures
        final(s)@ == old(s)@ + match bound {
            Some(v) => "if value.chars().count() "@ + op@ + " "@ + decimal(v as nat) + "usize { return Err("@ + str_debug(
                word@ + " than "@ + decimal(v as nat) + " characters"@,
            ) + ".into()); }"@,
            None => nothing(),
        },
{
    match bound {
        Some(v) => {
            push_str(s, "if value.chars().count() ");
            push_str(s, op);
            push_str(s, " ");
            push_decimal(s, v as u64);
            push_str(s, "usize { return Err(");
            let mut m = string_of(word);
            push_str(&mut m, " than ");
            push_decimal(&mut m, v as u64);
            push_str(&mut m, " characters");
            let q = debug_str(m.as_str());
            push_str(s, q.as_str());
            push_str(s, ".into()); }");
        },
        None => {
            assert(old(s)@ + nothing() =~= old(s)@);
        },
    }
}

fn string_constrained_exec(name: &str, max: Option<u32>, min: Option<u32>, pattern: &Option<String>) -> (r: String)
    ensures
        r@ == string_constrained_text(name@, max, min, match pattern {
            Some(p) => Some(p@),
            None => None,
        }),
{
    let mut s = string_of("impl ::std::str::FromStr for ");
    push_str(&mut s, name);
    push_str(&mut s, " { type Err = self::error::ConversionError; fn from_str(value: &str) -> ::std::result::Result<Self, self::error::ConversionError> { ");
    push_length_check(&mut s, max, ">", "longer");
    proof {
        reveal_strlit(">");
        reveal_strlit(" ");
        reveal_strlit("longer");
        reveal_strlit(" than ");
        reveal_strlit("longer than ");
        reveal_strlit("if value.chars().count() ");
        reveal_strlit("if value.chars().count() > ");
        assert("if value.chars().count() "@ + ">"@ + " "@ =~= "if value.chars().count() > "@);
        assert("longer"@ + " than "@ =~= "longer than "@);
    }
    push_length_check(&mut s, min, "<", "shorter");
    proof {
        reveal_strlit("<");
        reveal_strlit("shorter");
        reveal_strlit("shorter than ");
        reveal_strlit("if value.chars().count() < ");
        assert("if value.chars().count() "@ + "<"@ + " "@ =~= "if value.chars().count() < "@);
        assert("shorter"@ + " than "@ =~= "shorter than "@);
    }
    match pattern {
        Some(p) => {
            push_str(&mut s, "static PATTERN: ::std::sync::LazyLock<::regress::Regex> = ::std::sync::LazyLock::new(|| { ::regress::Regex::new(");
            let q = debug_str(p.as_str());
            push_str(&mut s, q.as_str());
            push_str(&mut s, ").unwrap() }); if PATTERN.find(value).is_none() { return Err(");
            let mut m = string_of("doesn't match pattern \"");
            push_str(&mut m, p.as_str());
            push_str(&mut m, "\"");
            let q2 = debug_str(m.as_str());
            push_str(&mut s, q2.as_str());
            push_str(&mut s, ".into()); }");
        },
        None => {},
    }
    push_str(&mut s, "Ok(Self(value.to_string())) } }");
    push_str(&mut s, "impl ::std::convert::TryFrom<&str> for ");
    push_str(&mut s, name);
    push_str(&mut s, " { type Error = self::error::ConversionError; fn try_from(value: &str) -> ::std::result::Result<Self, self::error::ConversionError> { value.parse() } }");
    push_str(&mut s, "impl ::std::convert::TryFrom<&::std::string::String> for ");
    push_str(&mut s, name);
    push_str(&mut s, " { type Error = self::error::ConversionError; fn try_from(value: &::std::string::String) -> ::std::result::Result<Self, self::error::ConversionError> { value.parse() } }");
    push_str(&mut s, "impl ::std::convert::TryFrom<::std::string::String> for ");
    push_str(&mut s, name);
    push_str(&mut s, " { type Error = self::error::ConversionError; fn try_from(value: ::std::string::String) -> ::std::result::Result<Self, self::error::ConversionError> { value.parse() } }");
    push_str(&mut s, "impl<'de> ::serde::Deserialize<'de> for ");
    push_str(&mut s, name);
    push_str(&mut s, " { fn deserialize<D>(deserializer: D) -> ::std::result::Result<Self, D::Error> where D: ::serde::Deserializer<'de>, { ::std::string::String::deserialize(deserializer)?.parse().map_err(|e: self::error::ConversionError| { <D::Error as ::serde::de::Error>::custom(e.to_string()) }) } }");
    assert(s@ =~= string_constrained_text(name@, max, min, match pattern {
        Some(p) => Some(p@),
        None => None,
    }));
    s
}

/// What follows a generated newtype's attribute block: the tuple struct,
/// `Deref` and `From` into the inner type, the `Default` impl giving
/// `default_expr` where the schema has a default, the convenience impls of
/// a string newtype where asked, and the impls that its constraints call
/// for. `value_exprs` are the listed values as expressions of the inner
/// type, `value_jsons` the same values as JSON texts.
pub open spec fn newtype_body_text(
    space: TypeSpace,
    n: TypeEntryNewtype,
    default_expr: Seq<char>,
    value_exprs: Seq<Seq<char>>,
    value_jsons: Seq<Seq<char>>,
) -> Seq<char> {
    let inner = newtype_inner(space, n);
    let is_str = inner.details is String;
    let i = spec_ident(space, inner, None);
    let unconstrained = n.constraints is Unconstrained;
    let conv = space.settings.string_newtype_conveniences;
    let proxy_from_str = unconstrained && !is_str && spec_has_impl(space, inner, TypeSpaceImpl::FromStr);
    nt_struct(n.name@, i, unconstrained) + nt_deref(n.name@, i) + (if spec_newtype_default(space.settings, n) is SchemaValue {
        default_impl_text(n.name@, default_expr)
    } else {
        nothing()
    }) + (if is_str && conv { conveniences_text(n.name@, unconstrained) } else { nothing() }) + match n.constraints {
        TypeEntryNewtypeConstraints::Unconstrained => unconstrained_text(n.name@, i, is_str, proxy_from_str,
            proxy_from_str && !is_string_path(i), spec_has_impl(space, inner, TypeSpaceImpl::Display) && !(is_str && conv)),
        TypeEntryNewtypeConstraints::EnumValue(_) => valued_text(n.name@, i, true, value_exprs, value_jsons,
            newtype_json_schema(space.settings, is_str, n.constraints)),
        TypeEntryNewtypeConstraints::DenyValue(_) => valued_text(n.name@, i, false, value_exprs, value_jsons,
            newtype_json_schema(space.settings, is_str, n.constraints)),
        TypeEntryNewtypeConstraints::String { max_length, min_length, pattern } => string_constrained_text(n.name@,
            max_length, min_length, match pattern {
                Some(p) => Some(p@),
                None => None,
            }),
    }
}

/// Whether `r` is the text of the item generated for newtype `n`: its
/// attribute block (with its derive list and attributes, both sorted sets
/// as the derive and attribute rules give them, and
/// `#[serde(transparent)]`), then its body.
pub open spec fn is_newtype_item(
    r: Seq<char>,
    space: TypeSpace,
    own_derives: Seq<Seq<char>>,
    own_attrs: Seq<Seq<char>>,
    n: TypeEntryNewtype,
    doc: Seq<Seq<char>>,
    default_expr: Seq<char>,
    value_exprs: Seq<Seq<char>>,
    value_jsons: Seq<Seq<char>>,
) -> bool {
    let settings = space.settings;
    let is_str = newtype_inner(space, n).details is String;
    exists|derives: Seq<Seq<char>>, attrs: Seq<Seq<char>>|
        #![trigger is_derive_list(derives, settings, TypeKind::Newtype, newtype_derive_set(settings, is_str, n.constraints), own_derives, Seq::empty(), newtype_denied(n.constraints)), is_sorted_set_of(attrs, Seq::empty(), strings_view(settings.extra_attrs@), own_attrs)]
        is_derive_list(derives, settings, TypeKind::Newtype, newtype_derive_set(settings, is_str, n.constraints), own_derives,
            Seq::empty(), newtype_denied(n.constraints))
        && is_sorted_set_of(attrs, Seq::empty(), strings_view(settings.extra_attrs@), own_attrs)
        && r == header_text(doc, attrs, uncond_attrs_at(settings.unconditional_attrs@, TypeKind::Newtype, AttrPosition::BeforeDerive),
            cond_attrs_at(settings.conditional_attrs@, TypeKind::Newtype, AttrPosition::BeforeDerive),
            cond_derives_for(settings.conditional_derives@, TypeKind::Newtype), derives, "#[serde(transparent)]"@,
            uncond_attrs_at(settings.unconditional_attrs@, TypeKind::Newtype, AttrPosition::AfterDerive),
            cond_attrs_at(settings.conditional_attrs@, TypeKind::Newtype, AttrPosition::AfterDerive))
            + newtype_body_text(space, n, default_expr, value_exprs, value_jsons)
}

fn newtype_body(
    space: &TypeSpace,
    n: &TypeEntryNewtype,
    plan: &NewtypePlan,
    default_expr: &str,
    value_exprs: &Vec<String>,
    value_jsons: &Vec<String>,
) -> (r: String)
    requires
        entry_of(*space, n.type_id) is Some,
        ({
            let inner = newtype_inner(*space, *n);
            let is_str = inner.details is String;
            let unconstrained = n.constraints is Unconstrained;
            &&& plan.json_schema == newtype_json_schema(space.settings, is_str, n.constraints)
            &&& plan.inner_ident@ == spec_ident(*space, inner, None)
            &&& plan.public_inner == unconstrained
            &&& plan.string_from_str == (unconstrained && is_str)
            &&& plan.proxy_from_str == (unconstrained && !is_str && spec_has_impl(*space, inner, TypeSpaceImpl::FromStr))
            &&& plan.try_from_string == (plan.proxy_from_str && !is_string_path(spec_ident(*space, inner, None)))
            &&& plan.proxy_display == (unconstrained && spec_has_impl(*space, inner, TypeSpaceImpl::Display)
                && !(is_str && space.settings.string_newtype_conveniences))
            &&& plan.str_conveniences == (is_str && space.settings.string_newtype_conveniences)
            &&& plan.from_str_ref == (is_str && space.settings.string_newtype_conveniences && unconstrained)
            &&& plan.default@ == spec_newtype_default(space.settings, *n)
        }),
    ensures
        r@ == newtype_body_text(*space, *n, default_expr@, strings_view(value_exprs@), strings_view(value_jsons@)),
{
    let name = n.name.as_str();
    let inner = plan.inner_ident.as_str();
    let mut s = nt_struct_exec(name, inner, plan.public_inner);
    let de = nt_deref_exec(name, inner);
    push_str(&mut s, de.as_str());
    let mut d = String::new();
    if let DefaultPlan::SchemaValue = plan.default {
        d = default_impl_exec(name, default_expr);
    }
    push_str(&mut s, d.as_str());
    let mut c = String::new();
    if plan.str_conveniences {
        c = conveniences_exec(name, plan.from_str_ref);
    }
    push_str(&mut s, c.as_str());
    let k = match &n.constraints {
        TypeEntryNewtypeConstraints::Unconstrained => unconstrained_exec(name, inner, plan.string_from_str,
            plan.proxy_from_str, plan.try_from_string, plan.proxy_display),
        TypeEntryNewtypeConstraints::EnumValue(_) => valued_exec(name, inner, true, value_exprs, value_jsons, plan.json_schema),
        TypeEntryNewtypeConstraints::DenyValue(_) => valued_exec(name, inner, false, value_exprs, value_jsons, plan.json_schema),
        TypeEntryNewtypeConstraints::String { max_length, min_length, pattern } => string_constrained_exec(name,
            *max_length, *min_length, pattern),
    };
    push_str(&mut s, k.as_str());
    s
}

/// The Rust text of the item generated for newtype `n`, given the type's
/// own derives and attributes, its doc strings, the expression of its
/// schema default (used where it has one), and its listed values as
/// expressions of the inner type and as JSON texts (used where it is
/// constrained to or away from them). Its inner type must be as
/// [`newtype_plan`] asks.
pub fn newtype_item(
    space: &TypeSpace,
    own_derives: &Vec<String>,
    own_attrs: &Vec<String>,
    n: &TypeEntryNewtype,
    doc: &Vec<String>,
    default_expr: &str,
    value_exprs: &Vec<String>,
    value_jsons: &Vec<String>,
) -> (r: String)
    requires
        entry_of(*space, n.type_id) is Some,
        ident_defined(*space, newtype_inner(*space, *n), None),
        n.constraints is Unconstrained ==> impl_defined(*space, newtype_inner(*space, *n), TypeSpaceImpl::FromStr)
            && impl_defined(*space, newtype_inner(*space, *n), TypeSpaceImpl::Display),
        !(n.constraints is EnumValue && newtype_inner(*space, *n).details is String),
    ensures
        is_newtype_item(r@, *space, strings_view(own_derives@), strings_view(own_attrs@), *n, strings_view(doc@),
            default_expr@, strings_view(value_exprs@), strings_view(value_jsons@)),
{
    let plan = newtype_plan(space, own_derives, n);
    let attrs = strings_to_attrs(own_attrs, &space.settings.extra_attrs);
    let lists = type_attr_lists(&space.settings, TypeKind::Newtype);
    let mut s = header(doc, &attrs, &lists, &plan.derives, "#[serde(transparent)]");
    let body = newtype_body(space, n, &plan, default_expr, value_exprs, value_jsons);
    let ghost h = s@;
    push_str(&mut s, body.as_str());
    proof {
        let derives = strings_view(plan.derives@);
        let ats = strings_view(attrs@);
        assert(h == header_text(strings_view(doc@), ats, strings_view(lists.uncond_pre@), pairs_view(lists.cond_pre@),
            pairs_view(lists.cond_derives@), derives, "#[serde(transparent)]"@, strings_view(lists.uncond_post@),
            pairs_view(lists.cond_post@)));
    }
    s
}

} // verus!
