//! The Rust source text of a generated enum: its attribute block with its
//! serde options, the catch-all variant of an opened string enum, and the
//! impls that follow it (the string conversions of an enum of unit
//! variants, its `Default`, the parsing and display of an untagged enum
//! through its variants, the `From` impls of its variants), and the shared
//! error module those impls name.

use vstd::prelude::*;

use crate::attrs::{
    cond_attrs_at, cond_derives_for, is_derive_list, is_sorted_set_of, pairs_view, strings_to_attrs,
    type_attr_lists, uncond_attrs_at,
};
use crate::emit::{
    convenience_from_variants, enum_base_derives, enum_default, enum_plan, from_indices, from_variant, has_bespoke,
    key_unique, open_variant, options_view, simple_count, spec_enum_default, spec_enum_serde_options, spec_open_variant,
    DefaultPlan, DefaultPlanView, SerdeOption, SerdeOptionView,
};
use crate::ident::{ident_defined, ident_within, spec_ident};
use crate::output::{
    comma_list, default_impl_exec, default_impl_text, header, header_text, nothing, push_comma_list,
    try_from_strings_exec, try_from_strings_text,
};
use crate::settings::{seq_has, strings_view, AttrPosition};
use crate::space::{all_simple, entry_of, TypeSpace};
use crate::strings::{debug_str, decimal, push_decimal, push_str, str_debug, string_of};
use crate::type_entry::{TypeEntryEnum, TypeEntryEnumImpl, Variant, VariantDetails};
use crate::{TypeId, TypeKind};

verus! {

/// The identifier of a variant (empty where it has none).
pub open spec fn ident_of(v: Variant) -> Seq<char> {
    match v.ident_name {
        Some(n) => n@,
        None => Seq::empty(),
    }
}

/// Whether every variant has an identifier.
pub open spec fn all_named(vs: Seq<Variant>) -> bool {
    forall|k: int| 0 <= k < vs.len() ==> (#[trigger] vs[k]).ident_name is Some
}

/// The `Display` arm of a unit variant: it writes the variant's wire name.
pub open spec fn display_arm(v: Variant) -> Seq<char> {
    "Self::"@ + ident_of(v) + " => f.write_str("@ + str_debug(v.raw_name@) + "),"@
}

/// The `FromStr` arm of a unit variant: its wire name gives the variant.
pub open spec fn from_str_arm(v: Variant) -> Seq<char> {
    str_debug(v.raw_name@) + " => Ok(Self::"@ + ident_of(v) + "),"@
}

/// One `Display` arm per unit variant, writing its wire name.
pub open spec fn display_arms(vs: Seq<Variant>) -> Seq<char>
    decreases vs.len(),
{
    if vs.len() == 0 {
        Seq::empty()
    } else {
        display_arms(vs.drop_last()) + display_arm(vs.last())
    }
}

/// One `FromStr` arm per unit variant, taking its wire name.
pub open spec fn from_str_arms(vs: Seq<Variant>) -> Seq<char>
    decreases vs.len(),
{
    if vs.len() == 0 {
        Seq::empty()
    } else {
        from_str_arms(vs.drop_last()) + from_str_arm(vs.last())
    }
}

/// `Display`, `FromStr` and `TryFrom` of strings for an enum of unit
/// variants, by their wire names. With the catch-all variant `open`,
/// `Display` writes the carried string and `FromStr` keeps any other text
/// in it; without, any other text is refused with "invalid value".
pub open spec fn simple_enum_text(name: Seq<char>, vs: Seq<Variant>, open: Option<Seq<char>>) -> Seq<char> {
    simple_head(name, open) + display_arms(vs) + simple_mid(name, open) + from_str_arms(vs) + simple_tail(name, open)
}

/// The text of the string conversions before the `Display` arms.
pub open spec fn simple_head(name: Seq<char>, open: Option<Seq<char>>) -> Seq<char> {
    "impl ::std::fmt::Display for "@ + name
        + " { fn fmt(&self, f: &mut ::std::fmt::Formatter<'_>) -> ::std::fmt::Result { match "@ + (if open is Some {
        "self"@
    } else {
        "*self"@
    }) + " { "@
}

/// The text between the `Display` arms and the `FromStr` arms: the
/// catch-all's `Display` arm, then the head of `FromStr`.
pub open spec fn simple_mid(name: Seq<char>, open: Option<Seq<char>>) -> Seq<char> {
    (match open {
        Some(o) => "Self::"@ + o + "(value) => f.write_str(value.as_str()),"@,
        None => nothing(),
    }) + " } } }"@ + "impl ::std::str::FromStr for "@ + name
        + " { type Err = self::error::ConversionError; fn from_str(value: &str) -> ::std::result::Result<Self, self::error::ConversionError> { match value { "@
}

/// The text after the `FromStr` arms: the fallback arm, then `TryFrom` of
/// strings.
pub open spec fn simple_tail(name: Seq<char>, open: Option<Seq<char>>) -> Seq<char> {
    (match open {
        Some(o) => "_ => Ok(Self::"@ + o + "(value.to_string())),"@,
        None => "_ => Err(\"invalid value\".into()),"@,
    }) + " } } }"@ + try_from_strings_text(name)
}

/// One step per variant of the ladder that parses into the first variant
/// whose type accepts the text.
pub open spec fn parse_ladder(vs: Seq<Variant>) -> Seq<char>
    decreases vs.len(),
{
    if vs.len() == 0 {
        Seq::empty()
    } else {
        parse_ladder(vs.drop_last()) + "if let Ok(v) = value.parse() { Ok(Self::"@ + ident_of(vs.last()) + "(v)) } else "@
    }
}

/// `FromStr` and `TryFrom` of strings for an untagged enum: each variant in
/// turn, else "string conversion failed for all variants".
pub open spec fn untagged_from_str_text(name: Seq<char>, vs: Seq<Variant>) -> Seq<char> {
    "impl ::std::str::FromStr for "@ + name
        + " { type Err = self::error::ConversionError; fn from_str(value: &str) -> ::std::result::Result<Self, self::error::ConversionError> { "@
        + parse_ladder(vs) + "{ Err(\"string conversion failed for all variants\".into()) } } }"@ + try_from_strings_text(name)
}

/// One `Display` arm per variant, displaying what it carries.
pub open spec fn display_through(vs: Seq<Variant>) -> Seq<char>
    decreases vs.len(),
{
    if vs.len() == 0 {
        Seq::empty()
    } else {
        display_through(vs.drop_last()) + "Self::"@ + ident_of(vs.last()) + "(x) => x.fmt(f),"@
    }
}

/// `Display` for an untagged enum through its variants.
pub open spec fn untagged_display_text(name: Seq<char>, vs: Seq<Variant>) -> Seq<char> {
    "impl ::std::fmt::Display for "@ + name
        + " { fn fmt(&self, f: &mut ::std::fmt::Formatter<'_>) -> ::std::fmt::Result { match self { "@ + display_through(vs)
        + " } } }"@
}

/// The `Default` impl of an enum: the expression of its schema default, or
/// its first unit variant, or none.
pub open spec fn enum_default_text(name: Seq<char>, d: DefaultPlanView, default_expr: Seq<char>) -> Seq<char> {
    match d {
        DefaultPlanView::SchemaValue => default_impl_text(name, default_expr),
        DefaultPlanView::Variant(v) => default_impl_text(name, "Self::"@ + v),
        _ => nothing(),
    }
}

/// The Rust type expression of the type with id `t`.
pub open spec fn id_ident(space: TypeSpace, t: TypeId) -> Seq<char> {
    spec_ident(space, entry_of(space, t)->0, None)
}

/// Whether the type with id `t` is in the type space with a defined
/// expression.
pub open spec fn id_ready(space: TypeSpace, t: TypeId) -> bool {
    &&& entry_of(space, t) is Some
    &&& ident_defined(space, entry_of(space, t)->0, None)
}

/// The type expressions of the ids `ts`, in order.
pub open spec fn idents_of(space: TypeSpace, ts: Seq<TypeId>) -> Seq<Seq<char>>
    decreases ts.len(),
{
    if ts.len() == 0 {
        Seq::empty()
    } else {
        idents_of(space, ts.drop_last()).push(id_ident(space, ts.last()))
    }
}

/// The tuple type of the expressions `ids` (a single one with a trailing
/// comma).
pub open spec fn tuple_type_text(ids: Seq<Seq<char>>) -> Seq<char> {
    if ids.len() == 1 {
        "("@ + ids[0] + ",)"@
    } else {
        "("@ + comma_list(ids) + ")"@
    }
}

/// The fields `value.0, value.1, ..` of a tuple of `n` items.
pub open spec fn tuple_fields(n: nat) -> Seq<char>
    decreases n,
{
    if n == 0 {
        Seq::empty()
    } else {
        tuple_fields((n - 1) as nat) + "value."@ + decimal((n - 1) as nat) + ","@
    }
}

/// The `From` impl that builds variant `v` of enum `name` from what it
/// wraps.
pub open spec fn from_impl_text(space: TypeSpace, name: Seq<char>, v: Variant) -> Seq<char> {
    match v.details {
        VariantDetails::Item(t) => "impl ::std::convert::From<"@ + id_ident(space, t) + "> for "@ + name + " { fn from(value: "@
            + id_ident(space, t) + ") -> Self { Self::"@ + ident_of(v) + "(value) } }"@,
        VariantDetails::Tuple(ts) => {
            let ty = tuple_type_text(idents_of(space, ts@));
            "impl ::std::convert::From<"@ + ty + "> for "@ + name + " { fn from(value: "@ + ty + ") -> Self { Self::"@
                + ident_of(v) + "("@ + tuple_fields(ts@.len()) + ") } }"@
        },
        _ => nothing(),
    }
}

/// The `From` impls of the variants at the indices `idx`, in order.
pub open spec fn from_impls_text(space: TypeSpace, name: Seq<char>, vs: Seq<Variant>, idx: Seq<usize>) -> Seq<char>
    decreases idx.len(),
{
    if idx.len() == 0 {
        Seq::empty()
    } else {
        from_impls_text(space, name, vs, idx.drop_last()) + from_impl_text(space, name, vs[idx.last() as int])
    }
}

/// Whether the `From` impl of variant `v` can be written: it has its
/// identifier and each type it wraps has a defined expression.
pub open spec fn from_ready(space: TypeSpace, v: Variant) -> bool {
    &&& v.ident_name is Some
    &&& match v.details {
        VariantDetails::Item(t) => id_ready(space, t),
        VariantDetails::Tuple(ts) => forall|j: int| 0 <= j < ts@.len() ==> id_ready(space, #[trigger] ts@[j]),
        _ => true,
    }
}

proof fn lemma_from_indices(space: TypeSpace, vs: Seq<Variant>, n: nat)
    requires
        n <= usize::MAX,
    ensures
        forall|j: int| 0 <= j < from_indices(space, vs, n).len() ==> (#[trigger] from_indices(space, vs, n)[j]) < n
            && from_variant(space, vs, from_indices(space, vs, n)[j] as int),
    decreases n,
{
    if n > 0 {
        lemma_from_indices(space, vs, (n - 1) as nat);
        let prev = from_indices(space, vs, (n - 1) as nat);
        let cur = from_indices(space, vs, n);
        assert forall|j: int| 0 <= j < cur.len() implies (#[trigger] cur[j]) < n && from_variant(space, vs, cur[j] as int) by {
            if j < prev.len() {
                assert(cur[j] == prev[j]);
            } else {
                assert(cur[j] == (n - 1) as usize);
            }
        }
    }
}

pub(crate) fn ident_of_id(space: &TypeSpace, t: TypeId) -> (r: String)
    requires
        id_ready(*space, t),
    ensures
        r@ == id_ident(*space, t),
{
    let e = match space.get_entry(t) {
        Some(e) => e,
        None => {
            assert(false);
            return String::new();
        },
    };
    let no_mod: Option<String> = None;
    let r = e.type_ident(space, &no_mod);
    proof {
        let f = choose|f: nat| #[trigger] ident_within(*space, *e, None, f) is Some;
        assert(ident_within(*space, *e, None, f) is Some);
    }
    r
}

fn from_impl_exec(space: &TypeSpace, name: &str, v: &Variant) -> (r: String)
    requires
        from_ready(*space, *v),
    ensures
        r@ == from_impl_text(*space, name@, *v),
{
    match &v.details {
        VariantDetails::Item(t) => {
            let ty = ident_of_id(space, *t);
            let mut s = string_of("impl ::std::convert::From<");
            push_str(&mut s, ty.as_str());
            push_str(&mut s, "> for ");
            push_str(&mut s, name);
            push_str(&mut s, " { fn from(value: ");
            push_str(&mut s, ty.as_str());
            push_str(&mut s, ") -> Self { Self::");
            push_str(&mut s, v.ident_name.as_ref().unwrap().as_str());
            push_str(&mut s, "(value) } }");
            s
        },
        VariantDetails::Tuple(ts) => {
            let mut ids: Vec<String> = Vec::new();
            let mut i: usize = 0;
            while i < ts.len()
                invariant
                    i <= ts.len(),
                    forall|j: int| 0 <= j < ts@.len() ==> id_ready(*space, #[trigger] ts@[j]),
                    strings_view(ids@) == idents_of(*space, ts@.take(i as int)),
                decreases ts.len() - i,
            {
                let x = ident_of_id(space, ts[i]);
                ids.push(x);
                let ghost t2 = ts@.take(i + 1);
                assert(t2.drop_last() =~= ts@.take(i as int));
                assert(strings_view(ids@) =~= idents_of(*space, ts@.take(i as int)).push(id_ident(*space, ts@[i as int])));
                i = i + 1;
            }
            assert(ts@.take(ts.len() as int) =~= ts@);
            let mut ty = string_of("(");
            if ids.len() == 1 {
                push_str(&mut ty, ids[0].as_str());
                push_str(&mut ty, ",)");
            } else {
                push_comma_list(&mut ty, &ids);
                push_str(&mut ty, ")");
            }
            let mut s = string_of("impl ::std::convert::From<");
            push_str(&mut s, ty.as_str());
            push_str(&mut s, "> for ");
            push_str(&mut s, name);
            push_str(&mut s, " { fn from(value: ");
            push_str(&mut s, ty.as_str());
            push_str(&mut s, ") -> Self { Self::");
            push_str(&mut s, v.ident_name.as_ref().unwrap().as_str());
            push_str(&mut s, "(");
            let ghost p = s@;
            assert(p + Seq::<char>::empty() =~= p);
            let mut k: usize = 0;
            while k < ts.len()
                invariant
                    k <= ts.len(),
                    s@ == p + tuple_fields(k as nat),
                decreases ts.len() - k,
            {
                push_str(&mut s, "value.");
                push_decimal(&mut s, k as u64);
                push_str(&mut s, ",");
                k = k + 1;
            }
            push_str(&mut s, ") } }");
            s
        },
        _ => String::new(),
    }
}

/// The impls that follow the generated enum `e`, in order: the string
/// conversions of an enum of unit variants, its `Default`, the parsing and
/// display of an untagged enum through its variants, and the `From` impls
/// that build a variant from what it wraps.
pub open spec fn enum_impls_text(space: TypeSpace, e: TypeEntryEnum, default_expr: Seq<char>) -> Seq<char> {
    let name = e.name@;
    let vs = e.variants@;
    (if seq_has(e.bespoke_impls@, TypeEntryEnumImpl::AllSimpleVariants) {
        simple_enum_text(name, vs, spec_open_variant(space.settings, e))
    } else {
        nothing()
    }) + enum_default_text(name, spec_enum_default(space.settings, e), default_expr) + (if seq_has(
        e.bespoke_impls@,
        TypeEntryEnumImpl::UntaggedFromStr,
    ) {
        untagged_from_str_text(name, vs)
    } else {
        nothing()
    }) + (if seq_has(e.bespoke_impls@, TypeEntryEnumImpl::UntaggedDisplay) {
        untagged_display_text(name, vs)
    } else {
        nothing()
    }) + from_impls_text(space, name, vs, from_indices(space, vs, vs.len()))
}

/// Whether the impls of `e` name its variants: they do for the string
/// conversions and the untagged parsing and display.
pub open spec fn names_variants(e: TypeEntryEnum) -> bool {
    ||| seq_has(e.bespoke_impls@, TypeEntryEnumImpl::AllSimpleVariants)
    ||| seq_has(e.bespoke_impls@, TypeEntryEnumImpl::UntaggedFromStr)
    ||| seq_has(e.bespoke_impls@, TypeEntryEnumImpl::UntaggedDisplay)
}

fn push_display_arms(s: &mut String, vs: &Vec<Variant>)
    requires
        all_named(vs@),
    ensures
        final(s)@ == old(s)@ + display_arms(vs@),
{
    let mut i: usize = 0;
    assert(vs@.take(0) =~= Seq::<Variant>::empty());
    assert(old(s)@ + Seq::<char>::empty() =~= old(s)@);
    while i < vs.len()
        invariant
            i <= vs.len(),
            all_named(vs@),
            s@ == old(s)@ + display_arms(vs@.take(i as int)),
        decreases vs.len() - i,
    {
        let v = &vs[i];
        assert(v.ident_name is Some);
        push_str(s, "Self::");
        push_str(s, v.ident_name.as_ref().unwrap().as_str());
        push_str(s, " => f.write_str(");
        let q = debug_str(v.raw_name.as_str());
        push_str(s, q.as_str());
        push_str(s, "),");
        let ghost t = vs@.take(i + 1);
        assert(t.drop_last() =~= vs@.take(i as int));
        i = i + 1;
    }
    assert(vs@.take(vs.len() as int) =~= vs@);
}

fn push_from_str_arms(s: &mut String, vs: &Vec<Variant>)
    requires
        all_named(vs@),
    ensures
        final(s)@ == old(s)@ + from_str_arms(vs@),
{
    let mut i: usize = 0;
    assert(vs@.take(0) =~= Seq::<Variant>::empty());
    assert(old(s)@ + Seq::<char>::empty() =~= old(s)@);
    while i < vs.len()
        invariant
            i <= vs.len(),
            all_named(vs@),
            s@ == old(s)@ + from_str_arms(vs@.take(i as int)),
        decreases vs.len() - i,
    {
        let v = &vs[i];
        assert(v.ident_name is Some);
        let q = debug_str(v.raw_name.as_str());
        push_str(s, q.as_str());
        push_str(s, " => Ok(Self::");
        push_str(s, v.ident_name.as_ref().unwrap().as_str());
        push_str(s, "),");
        let ghost t = vs@.take(i + 1);
        assert(t.drop_last() =~= vs@.take(i as int));
        i = i + 1;
    }
    assert(vs@.take(vs.len() as int) =~= vs@);
}

fn push_parse_ladder(s: &mut String, vs: &Vec<Variant>)
    requires
        all_named(vs@),
    ensures
        final(s)@ == old(s)@ + parse_ladder(vs@),
{
    let mut i: usize = 0;
    assert(vs@.take(0) =~= Seq::<Variant>::empty());
    assert(old(s)@ + Seq::<char>::empty() =~= old(s)@);
    while i < vs.len()
        invariant
            i <= vs.len(),
            all_named(vs@),
            s@ == old(s)@ + parse_ladder(vs@.take(i as int)),
        decreases vs.len() - i,
    {
        let v = &vs[i];
        assert(v.ident_name is Some);
        push_str(s, "if let Ok(v) = value.parse() { Ok(Self::");
        push_str(s, v.ident_name.as_ref().unwrap().as_str());
        push_str(s, "(v)) } else ");
        let ghost t = vs@.take(i + 1);
        assert(t.drop_last() =~= vs@.take(i as int));
        i = i + 1;
    }
    assert(vs@.take(vs.len() as int) =~= vs@);
}

fn push_display_through(s: &mut String, vs: &Vec<Variant>)
    requires
        all_named(vs@),
    ensures
        final(s)@ == old(s)@ + display_through(vs@),
{
    let mut i: usize = 0;
    assert(vs@.take(0) =~= Seq::<Variant>::empty());
    assert(old(s)@ + Seq::<char>::empty() =~= old(s)@);
    while i < vs.len()
        invariant
            i <= vs.len(),
            all_named(vs@),
            s@ == old(s)@ + display_through(vs@.take(i as int)),
        decreases vs.len() - i,
    {
        let v = &vs[i];
        assert(v.ident_name is Some);
        push_str(s, "Self::");
        push_str(s, v.ident_name.as_ref().unwrap().as_str());
        push_str(s, "(x) => x.fmt(f),");
        let ghost t = vs@.take(i + 1);
        assert(t.drop_last() =~= vs@.take(i as int));
        i = i + 1;
    }
    assert(vs@.take(vs.len() as int) =~= vs@);
}

fn simple_enum_exec(name: &str, vs: &Vec<Variant>, open: &Option<String>) -> (r: String)
    requires
        all_named(vs@),
    ensures
        r@ == simple_enum_text(name@, vs@, match open {
            Some(o) => Some(o@),
            None => None,
        }),
{
    let mut s = string_of("impl ::std::fmt::Display for ");
    push_str(&mut s, name);
    push_str(&mut s, " { fn fmt(&self, f: &mut ::std::fmt::Formatter<'_>) -> ::std::fmt::Result { match ");
    match open {
        Some(_) => push_str(&mut s, "self"),
        None => push_str(&mut s, "*self"),
    }
    push_str(&mut s, " { ");
    push_display_arms(&mut s, vs);
    match open {
        Some(o) => {
            push_str(&mut s, "Self::");
            push_str(&mut s, o.as_str());
            push_str(&mut s, "(value) => f.write_str(value.as_str()),");
        },
        None => {},
    }
    push_str(&mut s, " } } }");
    push_str(&mut s, "impl ::std::str::FromStr for ");
    push_str(&mut s, name);
    push_str(&mut s, " { type Err = self::error::ConversionError; fn from_str(value: &str) -> ::std::result::Result<Self, self::error::ConversionError> { match value { ");
    push_from_str_arms(&mut s, vs);
    match open {
        Some(o) => {
            push_str(&mut s, "_ => Ok(Self::");
            push_str(&mut s, o.as_str());
            push_str(&mut s, "(value.to_string())),");
        },
        None => push_str(&mut s, "_ => Err(\"invalid value\".into()),"),
    }
    push_str(&mut s, " } } }");
    let t = try_from_strings_exec(name);
    push_str(&mut s, t.as_str());
    s
}

fn untagged_from_str_exec(name: &str, vs: &Vec<Variant>) -> (r: String)
    requires
        all_named(vs@),
    ensures
        r@ == untagged_from_str_text(name@, vs@),
{
    let mut s = string_of("impl ::std::str::FromStr for ");
    push_str(&mut s, name);
    push_str(&mut s, " { type Err = self::error::ConversionError; fn from_str(value: &str) -> ::std::result::Result<Self, self::error::ConversionError> { ");
    push_parse_ladder(&mut s, vs);
    push_str(&mut s, "{ Err(\"string conversion failed for all variants\".into()) } } }");
    let t = try_from_strings_exec(name);
    push_str(&mut s, t.as_str());
    s
}

fn untagged_display_exec(name: &str, vs: &Vec<Variant>) -> (r: String)
    requires
        all_named(vs@),
    ensures
        r@ == untagged_display_text(name@, vs@),
{
    let mut s = string_of("impl ::std::fmt::Display for ");
    push_str(&mut s, name);
    push_str(&mut s, " { fn fmt(&self, f: &mut ::std::fmt::Formatter<'_>) -> ::std::fmt::Result { match self { ");
    push_display_through(&mut s, vs);
    push_str(&mut s, " } } }");
    s
}

fn enum_default_exec(name: &str, d: &DefaultPlan, default_expr: &str) -> (r: String)
    ensures
        r@ == enum_default_text(name@, d@, default_expr@),
{
    match d {
        DefaultPlan::SchemaValue => default_impl_exec(name, default_expr),
        DefaultPlan::Variant(v) => {
            let mut e = string_of("Self::");
            push_str(&mut e, v.as_str());
            default_impl_exec(name, e.as_str())
        },
        _ => String::new(),
    }
}

/// The Rust text of the impls that follow the generated enum `e`, given
/// the expression of its schema default (used where it has one). Where
/// these impls name its variants, each variant must have its identifier.
pub fn enum_impls(space: &TypeSpace, e: &TypeEntryEnum, default_expr: &str) -> (r: String)
    requires
        names_variants(*e) ==> all_named(e.variants@),
        forall|i: int| 0 <= i < e.variants@.len() && key_unique(e.variants@, i) ==> match #[trigger] e.variants@[i].details {
            VariantDetails::Item(t) => entry_of(*space, t) is Some,
            _ => true,
        },
        forall|i: int| 0 <= i < e.variants@.len() && from_variant(*space, e.variants@, i) ==> from_ready(*space,
            #[trigger] e.variants@[i]),
    ensures
        r@ == enum_impls_text(*space, *e, default_expr@),
{
    let name = e.name.as_str();
    let mut s = String::new();
    if has_bespoke(&e.bespoke_impls, TypeEntryEnumImpl::AllSimpleVariants) {
        let open = open_variant(&space.settings, e);
        s = simple_enum_exec(name, &e.variants, &open);
    }
    let d = enum_default(&space.settings, e);
    let dt = enum_default_exec(name, &d, default_expr);
    push_str(&mut s, dt.as_str());
    let mut u = String::new();
    if has_bespoke(&e.bespoke_impls, TypeEntryEnumImpl::UntaggedFromStr) {
        u = untagged_from_str_exec(name, &e.variants);
    }
    push_str(&mut s, u.as_str());
    let mut w = String::new();
    if has_bespoke(&e.bespoke_impls, TypeEntryEnumImpl::UntaggedDisplay) {
        w = untagged_display_exec(name, &e.variants);
    }
    push_str(&mut s, w.as_str());
    let idx = convenience_from_variants(space, &e.variants);
    let ghost nv = e.variants.len();
    proof {
        assert(nv == e.variants@.len());
        lemma_from_indices(*space, e.variants@, e.variants@.len());
    }
    let ghost p = s@;
    assert(p + Seq::<char>::empty() =~= p);
    assert(idx@.take(0) =~= Seq::<usize>::empty());
    let mut j: usize = 0;
    while j < idx.len()
        invariant
            j <= idx.len(),
            idx@ == from_indices(*space, e.variants@, e.variants@.len()),
            forall|k: int| 0 <= k < idx@.len() ==> (#[trigger] idx@[k]) < e.variants@.len() && from_variant(*space,
                e.variants@, idx@[k] as int),
            forall|i: int| 0 <= i < e.variants@.len() && from_variant(*space, e.variants@, i) ==> from_ready(*space,
                #[trigger] e.variants@[i]),
            s@ == p + from_impls_text(*space, name@, e.variants@, idx@.take(j as int)),
        decreases idx.len() - j,
    {
        let k = idx[j];
        assert(from_variant(*space, e.variants@, k as int));
        let f = from_impl_exec(space, name, &e.variants[k]);
        push_str(&mut s, f.as_str());
        let ghost t = idx@.take(j + 1);
        assert(t.drop_last() =~= idx@.take(j as int));
        j = j + 1;
    }
    assert(idx@.take(idx.len() as int) =~= idx@);
    s
}

/// The shared error module: `ConversionError`, the error of the generated
/// `TryFrom` and `FromStr` impls, built from a `&'static str` or a
/// `String` and displayed as its text.
pub open spec fn error_mod_text() -> Seq<char> {
    "#[doc = \"Error from a `TryFrom` or `FromStr` implementation.\"] pub struct ConversionError(::std::borrow::Cow<'static, str>);"@
        + "impl ::std::error::Error for ConversionError {}"@
        + "impl ::std::fmt::Display for ConversionError { fn fmt(&self, f: &mut ::std::fmt::Formatter<'_>) -> Result<(), ::std::fmt::Error> { ::std::fmt::Display::fmt(&self.0, f) } }"@
        + "impl ::std::fmt::Debug for ConversionError { fn fmt(&self, f: &mut ::std::fmt::Formatter<'_>) -> Result<(), ::std::fmt::Error> { ::std::fmt::Debug::fmt(&self.0, f) } }"@
        + "impl From<&'static str> for ConversionError { fn from(value: &'static str) -> Self { Self(value.into()) } }"@
        + "impl From<String> for ConversionError { fn from(value: String) -> Self { Self(value.into()) } }"@
}

/// The Rust text of the shared error module's contents.
pub fn error_mod() -> (r: String)
    ensures
        r@ == error_mod_text(),
{
    let mut s = string_of("#[doc = \"Error from a `TryFrom` or `FromStr` implementation.\"] pub struct ConversionError(::std::borrow::Cow<'static, str>);");
    push_str(&mut s, "impl ::std::error::Error for ConversionError {}");
    push_str(&mut s, "impl ::std::fmt::Display for ConversionError { fn fmt(&self, f: &mut ::std::fmt::Formatter<'_>) -> Result<(), ::std::fmt::Error> { ::std::fmt::Display::fmt(&self.0, f) } }");
    push_str(&mut s, "impl ::std::fmt::Debug for ConversionError { fn fmt(&self, f: &mut ::std::fmt::Formatter<'_>) -> Result<(), ::std::fmt::Error> { ::std::fmt::Debug::fmt(&self.0, f) } }");
    push_str(&mut s, "impl From<&'static str> for ConversionError { fn from(value: &'static str) -> Self { Self(value.into()) } }");
    push_str(&mut s, "impl From<String> for ConversionError { fn from(value: String) -> Self { Self(value.into()) } }");
    s
}

/// A serde option as written inside `#[serde(..)]`.
pub open spec fn option_text(o: SerdeOptionView) -> Seq<char> {
    match o {
        SerdeOptionView::Rename(n) => "rename = "@ + str_debug(n),
        SerdeOptionView::RenameAll(n) => "rename_all = "@ + str_debug(n),
        SerdeOptionView::Tag(n) => "tag = "@ + str_debug(n),
        SerdeOptionView::Content(n) => "content = "@ + str_debug(n),
        SerdeOptionView::Untagged => "untagged"@,
        SerdeOptionView::DenyUnknownFields => "deny_unknown_fields"@,
    }
}

/// The options `os`, separated by `, `.
pub open spec fn options_text(os: Seq<SerdeOptionView>) -> Seq<char>
    decreases os.len(),
{
    if os.len() == 0 {
        Seq::empty()
    } else if os.len() == 1 {
        option_text(os[0])
    } else {
        options_text(os.drop_last()) + ", "@ + option_text(os.last())
    }
}

/// The container `#[serde(..)]` attribute of the options `os`; none where
/// there are no options.
pub open spec fn serde_line(os: Seq<SerdeOptionView>) -> Seq<char> {
    if os.len() == 0 {
        Seq::empty()
    } else {
        "#[serde("@ + options_text(os) + ")]"@
    }
}

fn option_exec(o: &SerdeOption) -> (r: String)
    ensures
        r@ == option_text(o@),
{
    match o {
        SerdeOption::Rename(n) => {
            let mut s = string_of("rename = ");
            let q = debug_str(n.as_str());
            push_str(&mut s, q.as_str());
            s
        },
        SerdeOption::RenameAll(n) => {
            let mut s = string_of("rename_all = ");
            let q = debug_str(n.as_str());
            push_str(&mut s, q.as_str());
            s
        },
        SerdeOption::Tag(n) => {
            let mut s = string_of("tag = ");
            let q = debug_str(n.as_str());
            push_str(&mut s, q.as_str());
            s
        },
        SerdeOption::Content(n) => {
            let mut s = string_of("content = ");
            let q = debug_str(n.as_str());
            push_str(&mut s, q.as_str());
            s
        },
        SerdeOption::Untagged => string_of("untagged"),
        SerdeOption::DenyUnknownFields => string_of("deny_unknown_fields"),
    }
}

/// The Rust text of the container `#[serde(..)]` attribute of the options
/// `os`.
pub fn serde_attr(os: &Vec<SerdeOption>) -> (r: String)
    ensures
        r@ == serde_line(options_view(os@)),
{
    if os.len() == 0 {
        assert(options_view(os@).len() == 0);
        return String::new();
    }
    let mut s = string_of("#[serde(");
    let ghost p = s@;
    let mut i: usize = 0;
    while i < os.len()
        invariant
            0 <= i <= os.len(),
            os.len() > 0,
            i == 0 ==> s@ == p,
            i > 0 ==> s@ == p + options_text(options_view(os@).take(i as int)),
        decreases os.len() - i,
    {
        if i > 0 {
            push_str(&mut s, ", ");
        }
        let t = option_exec(&os[i]);
        push_str(&mut s, t.as_str());
        let ghost w = options_view(os@).take(i + 1);
        assert(w.drop_last() =~= options_view(os@).take(i as int));
        assert(w.last() == os@[i as int]@);
        if i == 0 {
            assert(w.len() == 1);
            assert(w[0] == os@[0]@);
        }
        i = i + 1;
    }
    assert(options_view(os@).take(os.len() as int) =~= options_view(os@));
    push_str(&mut s, ")]");
    s
}

/// The catch-all variant `open` of an opened string enum, carrying the raw
/// wire string.
pub open spec fn open_variant_decl(open: Option<Seq<char>>) -> Seq<char> {
    match open {
        Some(o) => "#[doc = \" Catch-all for values outside the documented set;\"]#[doc = \" carries the raw wire string.\"]#[serde(untagged)]"@
            + o + "(::std::string::String),"@,
        None => nothing(),
    }
}

/// The text that follows a generated enum's attribute block.
pub open spec fn enum_body_text(space: TypeSpace, e: TypeEntryEnum, variants: Seq<char>, default_expr: Seq<char>) -> Seq<char> {
    "pub enum "@ + e.name@ + " { "@ + variants + open_variant_decl(spec_open_variant(space.settings, e)) + " }"@
        + enum_impls_text(space, e, default_expr)
}

fn enum_body(space: &TypeSpace, e: &TypeEntryEnum, variants: &str, open: &Option<String>, default_expr: &str) -> (r: String)
    requires
        match (*open, spec_open_variant(space.settings, *e)) {
            (Some(a), Some(b)) => a@ == b,
            (None, None) => true,
            _ => false,
        },
        names_variants(*e) ==> all_named(e.variants@),
        forall|i: int| 0 <= i < e.variants@.len() && key_unique(e.variants@, i) ==> match #[trigger] e.variants@[i].details {
            VariantDetails::Item(t) => entry_of(*space, t) is Some,
            _ => true,
        },
        forall|i: int| 0 <= i < e.variants@.len() && from_variant(*space, e.variants@, i) ==> from_ready(*space,
            #[trigger] e.variants@[i]),
    ensures
        r@ == enum_body_text(*space, *e, variants@, default_expr@),
{
    let mut body = string_of("pub enum ");
    push_str(&mut body, e.name.as_str());
    push_str(&mut body, " { ");
    push_str(&mut body, variants);
    let mut ov = String::new();
    match open {
        Some(o) => {
            ov = string_of("#[doc = \" Catch-all for values outside the documented set;\"]#[doc = \" carries the raw wire string.\"]#[serde(untagged)]");
            push_str(&mut ov, o.as_str());
            push_str(&mut ov, "(::std::string::String),");
        },
        None => {},
    }
    assert(ov@ == open_variant_decl(spec_open_variant(space.settings, *e)));
    push_str(&mut body, ov.as_str());
    push_str(&mut body, " }");
    let impls = enum_impls(space, e, default_expr);
    push_str(&mut body, impls.as_str());
    body
}

/// Whether `r` is the text of the enum generated for `e`: its attribute
/// block (its derive list and attributes, both sorted sets as the derive
/// and attribute rules give them, and its serde options), `pub enum` with
/// the declarations `variants` of its variants and, where it is opened,
/// the catch-all variant, then the impls that follow it.
pub open spec fn is_enum_item(
    r: Seq<char>,
    space: TypeSpace,
    own_derives: Seq<Seq<char>>,
    own_attrs: Seq<Seq<char>>,
    e: TypeEntryEnum,
    doc: Seq<Seq<char>>,
    variants: Seq<char>,
    default_expr: Seq<char>,
) -> bool {
    let settings = space.settings;
    let open = spec_open_variant(settings, e);
    exists|derives: Seq<Seq<char>>, attrs: Seq<Seq<char>>|
        #![trigger is_derive_list(derives, settings, TypeKind::Enum, enum_base_derives(all_simple(e.variants@), open is Some), own_derives, strings_view(settings.extra_derives@), Seq::empty()), is_sorted_set_of(attrs, Seq::empty(), strings_view(settings.extra_attrs@), own_attrs)]
        is_derive_list(derives, settings, TypeKind::Enum, enum_base_derives(all_simple(e.variants@), open is Some),
            own_derives, strings_view(settings.extra_derives@), Seq::empty())
        && is_sorted_set_of(attrs, Seq::empty(), strings_view(settings.extra_attrs@), own_attrs)
        && r == header_text(doc, attrs, uncond_attrs_at(settings.unconditional_attrs@, TypeKind::Enum, AttrPosition::BeforeDerive),
            cond_attrs_at(settings.conditional_attrs@, TypeKind::Enum, AttrPosition::BeforeDerive),
            cond_derives_for(settings.conditional_derives@, TypeKind::Enum), derives, serde_line(spec_enum_serde_options(e)),
            uncond_attrs_at(settings.unconditional_attrs@, TypeKind::Enum, AttrPosition::AfterDerive),
            cond_attrs_at(settings.conditional_attrs@, TypeKind::Enum, AttrPosition::AfterDerive)) + enum_body_text(space, e,
            variants, default_expr)
}

/// The Rust text of the enum generated for `e`, given the type's own
/// derives and attributes, its doc strings, the declarations of its
/// variants, and the expression of its schema default (used where it has
/// one). An untagged enum has at most one unit variant; the variants must
/// be as [`enum_impls`] asks.
pub fn enum_item(
    space: &TypeSpace,
    own_derives: &Vec<String>,
    own_attrs: &Vec<String>,
    e: &TypeEntryEnum,
    doc: &Vec<String>,
    variants: &str,
    default_expr: &str,
) -> (r: String)
    requires
        e.tag_type is Untagged ==> simple_count(e.variants@) <= 1,
        names_variants(*e) ==> all_named(e.variants@),
        forall|i: int| 0 <= i < e.variants@.len() && key_unique(e.variants@, i) ==> match #[trigger] e.variants@[i].details {
            VariantDetails::Item(t) => entry_of(*space, t) is Some,
            _ => true,
        },
        forall|i: int| 0 <= i < e.variants@.len() && from_variant(*space, e.variants@, i) ==> from_ready(*space,
            #[trigger] e.variants@[i]),
    ensures
        is_enum_item(r@, *space, strings_view(own_derives@), strings_view(own_attrs@), *e, strings_view(doc@),
            variants@, default_expr@),
{
    let plan = enum_plan(space, own_derives, e);
    let attrs = strings_to_attrs(own_attrs, &space.settings.extra_attrs);
    let lists = type_attr_lists(&space.settings, TypeKind::Enum);
    let serde = serde_attr(&plan.serde);
    let mut s = header(doc, &attrs, &lists, &plan.derives, serde.as_str());
    let ghost h = s@;
    let body = enum_body(space, e, variants, &plan.open_variant, default_expr);
    push_str(&mut s, body.as_str());
    proof {
        let derives = strings_view(plan.derives@);
        let ats = strings_view(attrs@);
        assert(h == header_text(strings_view(doc@), ats, strings_view(lists.uncond_pre@), pairs_view(lists.cond_pre@),
            pairs_view(lists.cond_derives@), derives, serde_line(spec_enum_serde_options(*e)), strings_view(lists.uncond_post@),
            pairs_view(lists.cond_post@)));
        assert(body@ == enum_body_text(*space, *e, variants@, default_expr@));
        assert(is_derive_list(derives, space.settings, TypeKind::Enum, enum_base_derives(all_simple(e.variants@),
            spec_open_variant(space.settings, *e) is Some), strings_view(own_derives@), strings_view(space.settings.extra_derives@),
            Seq::empty()));
        assert(is_sorted_set_of(ats, Seq::empty(), strings_view(space.settings.extra_attrs@), strings_view(own_attrs@)));
        assert(s@ == h + body@);
    }
    s
}

/// Whether `t` occurs in `s`.
pub open spec fn has_infix(s: Seq<char>, t: Seq<char>) -> bool {
    exists|a: int| 0 <= a && a + t.len() <= s.len() && #[trigger] s.subrange(a, a + t.len()) == t
}

pub proof fn lemma_infix_extend(x: Seq<char>, y: Seq<char>, t: Seq<char>)
    ensures
        has_infix(x, t) ==> has_infix(x + y, t) && has_infix(y + x, t),
{
    if has_infix(x, t) {
        let a = choose|a: int| 0 <= a && a + t.len() <= x.len() && #[trigger] x.subrange(a, a + t.len()) == t;
        assert((x + y).subrange(a, a + t.len()) =~= t);
        assert((y + x).subrange(y.len() + a, y.len() + a + t.len()) =~= t);
    }
}

pub proof fn lemma_infix_self(t: Seq<char>)
    ensures
        has_infix(t, t),
{
    let a: int = 0;
    assert(t.subrange(a, a + t.len()) =~= t);
}

proof fn lemma_arms_hold(vs: Seq<Variant>, i: int)
    requires
        0 <= i < vs.len(),
    ensures
        has_infix(display_arms(vs), display_arm(vs[i])),
        has_infix(from_str_arms(vs), from_str_arm(vs[i])),
    decreases vs.len(),
{
    if i == vs.len() - 1 {
        lemma_infix_self(display_arm(vs[i]));
        lemma_infix_self(from_str_arm(vs[i]));
        lemma_infix_extend(display_arm(vs[i]), display_arms(vs.drop_last()), display_arm(vs[i]));
        lemma_infix_extend(from_str_arm(vs[i]), from_str_arms(vs.drop_last()), from_str_arm(vs[i]));
    } else {
        lemma_arms_hold(vs.drop_last(), i);
        assert(vs.drop_last()[i] == vs[i]);
        lemma_infix_extend(display_arms(vs.drop_last()), display_arm(vs.last()), display_arm(vs[i]));
        lemma_infix_extend(from_str_arms(vs.drop_last()), from_str_arm(vs.last()), from_str_arm(vs[i]));
    }
}

/// The string conversions of an enum of unit variants go both ways for
/// each variant: `Display` writes its wire name, and `FromStr` maps that
/// name back to it, whether or not the enum is opened.
pub proof fn law_simple_enum_round_trip(name: Seq<char>, vs: Seq<Variant>, open: Option<Seq<char>>, i: int)
    requires
        0 <= i < vs.len(),
    ensures
        has_infix(simple_enum_text(name, vs, open), display_arm(vs[i])),
        has_infix(simple_enum_text(name, vs, open), from_str_arm(vs[i])),
{
    lemma_arms_hold(vs, i);
    let h = simple_head(name, open);
    let d = display_arms(vs);
    let m = simple_mid(name, open);
    let f = from_str_arms(vs);
    let t = simple_tail(name, open);
    let x = display_arm(vs[i]);
    let y = from_str_arm(vs[i]);
    lemma_infix_extend(d, h, x);
    lemma_infix_extend(h + d, m, x);
    lemma_infix_extend(h + d + m, f, x);
    lemma_infix_extend(h + d + m + f, t, x);
    lemma_infix_extend(f, h + d + m, y);
    lemma_infix_extend(h + d + m + f, t, y);
}

} // verus!
