//! The Rust source text of a generated struct: its attribute block with
//! its serde options, its field declarations, its `Default` impl, and its
//! builder: the `builder()` constructor and the builder type, which holds
//! each field as a `Result`, sets it from anything that converts into it,
//! and builds the struct or fails naming the first field without a value.

use vstd::prelude::*;

use crate::attrs::{
    cond_attrs_at, cond_derives_for, is_derive_list, is_sorted_set_of, pairs_view, strings_to_attrs,
    type_attr_lists, uncond_attrs_at,
};
use crate::emit::{base_derives, spec_struct_default, spec_struct_serde_options, struct_plan, DefaultPlan, DefaultPlanView};
use crate::enum_impls::{
    has_infix, id_ident, id_ready, ident_of_id, lemma_infix_extend, lemma_infix_self, serde_attr, serde_line,
};
use crate::ident::{ident_defined, ident_within, spec_ident};
use crate::output::{default_impl_exec, default_impl_text, header, header_text, nothing};
use crate::settings::{strings_view, AttrPosition};
use crate::space::{entry_of, TypeSpace};
use crate::strings::{debug_str, push_str, str_debug, string_of};
use crate::type_entry::{StructProperty, TypeEntryStruct};
use crate::{TypeId, TypeKind};

verus! {

/// Where a field's value comes from when none is given.
#[derive(Debug)]
pub enum FieldDefault {
    /// The field must be given.
    NoDefault,
    /// `Default::default()`.
    Default,
    /// A call of the named function.
    Custom(String),
}

/// Whether the field has a default.
pub open spec fn has_default(d: FieldDefault) -> bool {
    !(d is NoDefault)
}

/// Whether each field of `ds` has a default, in order.
pub open spec fn defaults_present(ds: Seq<FieldDefault>) -> Seq<bool> {
    ds.map_values(|d: FieldDefault| has_default(d))
}

/// The expression of a field's default.
pub open spec fn default_expr_of(d: FieldDefault) -> Seq<char> {
    match d {
        FieldDefault::NoDefault => Seq::empty(),
        FieldDefault::Default => "Default::default()"@,
        FieldDefault::Custom(f) => f@ + "()"@,
    }
}

/// The type expression of the type with id `t`, seen from the builder
/// module.
pub open spec fn scoped_ident(space: TypeSpace, t: TypeId) -> Seq<char> {
    spec_ident(space, entry_of(space, t)->0, Some("super"@))
}

/// Whether the type with id `t` has a defined expression seen from the
/// builder module.
pub open spec fn scoped_ready(space: TypeSpace, t: TypeId) -> bool {
    &&& entry_of(space, t) is Some
    &&& ident_defined(space, entry_of(space, t)->0, Some("super"@))
}

/// The declaration of field `p`: its doc string, the attributes `attrs`
/// given for it, then `pub name: Type,`.
pub open spec fn field_decl(space: TypeSpace, p: StructProperty, attrs: Seq<char>) -> Seq<char> {
    (match p.description {
        Some(d) => "#[doc = "@ + str_debug(d@) + "]"@,
        None => nothing(),
    }) + attrs + "pub "@ + p.name@ + ": "@ + id_ident(space, p.type_id) + ","@
}

/// The declarations of the first `n` fields.
pub open spec fn field_decls(space: TypeSpace, ps: Seq<StructProperty>, attrs: Seq<Seq<char>>, n: nat) -> Seq<char>
    decreases n,
{
    if n == 0 {
        Seq::empty()
    } else {
        field_decls(space, ps, attrs, (n - 1) as nat) + field_decl(space, ps[n - 1], attrs[n - 1])
    }
}

/// `name: default,` for each of the first `n` fields.
pub open spec fn default_inits(ps: Seq<StructProperty>, ds: Seq<FieldDefault>, n: nat) -> Seq<char>
    decreases n,
{
    if n == 0 {
        Seq::empty()
    } else {
        default_inits(ps, ds, (n - 1) as nat) + ps[n - 1].name@ + ": "@ + default_expr_of(ds[n - 1]) + ","@
    }
}

/// The `Default` impl of a struct: the expression of its schema default,
/// or each field's own default, or none.
pub open spec fn struct_default_text(
    name: Seq<char>,
    d: DefaultPlanView,
    default_expr: Seq<char>,
    ps: Seq<StructProperty>,
    ds: Seq<FieldDefault>,
) -> Seq<char> {
    match d {
        DefaultPlanView::SchemaValue => default_impl_text(name, default_expr),
        DefaultPlanView::FieldDefaults => "impl ::std::default::Default for "@ + name + " { fn default() -> Self { Self { "@
            + default_inits(ps, ds, ps.len()) + " } } }"@,
        _ => nothing(),
    }
}

/// The `builder()` constructor of a struct.
pub open spec fn builder_fn_text(name: Seq<char>) -> Seq<char> {
    "impl "@ + name + " { pub fn builder() -> builder::"@ + name + " { Default::default() } }"@
}

/// Whether `r` is the text of the struct generated for `s`: its attribute
/// block (its derive list and attributes, both sorted sets as the derive
/// and attribute rules give them, and its serde options), `pub struct`
/// with its field declarations (`field_attrs` holding each field's
/// attributes), its `Default` impl, and, where builders are asked for,
/// its `builder()` constructor.
pub open spec fn is_struct_item(
    r: Seq<char>,
    space: TypeSpace,
    own_derives: Seq<Seq<char>>,
    own_attrs: Seq<Seq<char>>,
    s: TypeEntryStruct,
    doc: Seq<Seq<char>>,
    field_attrs: Seq<Seq<char>>,
    defaults: Seq<FieldDefault>,
    default_expr: Seq<char>,
) -> bool {
    let settings = space.settings;
    exists|derives: Seq<Seq<char>>, attrs: Seq<Seq<char>>|
        #![trigger is_derive_list(derives, settings, TypeKind::Struct, base_derives(), own_derives, strings_view(settings.extra_derives@), Seq::empty()), is_sorted_set_of(attrs, Seq::empty(), strings_view(settings.extra_attrs@), own_attrs)]
        is_derive_list(derives, settings, TypeKind::Struct, base_derives(), own_derives, strings_view(settings.extra_derives@),
            Seq::empty())
        && is_sorted_set_of(attrs, Seq::empty(), strings_view(settings.extra_attrs@), own_attrs)
        && r == header_text(doc, attrs, uncond_attrs_at(settings.unconditional_attrs@, TypeKind::Struct, AttrPosition::BeforeDerive),
            cond_attrs_at(settings.conditional_attrs@, TypeKind::Struct, AttrPosition::BeforeDerive),
            cond_derives_for(settings.conditional_derives@, TypeKind::Struct), derives,
            serde_line(spec_struct_serde_options(settings, s)),
            uncond_attrs_at(settings.unconditional_attrs@, TypeKind::Struct, AttrPosition::AfterDerive),
            cond_attrs_at(settings.conditional_attrs@, TypeKind::Struct, AttrPosition::AfterDerive)) + struct_body_text(space, s,
            field_attrs, defaults, default_expr)
}

fn scoped_ident_of(space: &TypeSpace, t: TypeId) -> (r: String)
    requires
        scoped_ready(*space, t),
    ensures
        r@ == scoped_ident(*space, t),
{
    let e = match space.get_entry(t) {
        Some(e) => e,
        None => {
            assert(false);
            return String::new();
        },
    };
    let m: Option<String> = Some(string_of("super"));
    let r = e.type_ident(space, &m);
    proof {
        let f = choose|f: nat| #[trigger] ident_within(*space, *e, Some("super"@), f) is Some;
        assert(ident_within(*space, *e, Some("super"@), f) is Some);
    }
    r
}

fn push_field_decls(s: &mut String, space: &TypeSpace, ps: &Vec<StructProperty>, attrs: &Vec<String>)
    requires
        ps@.len() == attrs@.len(),
        forall|k: int| 0 <= k < ps@.len() ==> id_ready(*space, (#[trigger] ps@[k]).type_id),
    ensures
        final(s)@ == old(s)@ + field_decls(*space, ps@, strings_view(attrs@), ps@.len()),
{
    let ghost p = s@;
    assert(p + Seq::<char>::empty() =~= p);
    let mut i: usize = 0;
    while i < ps.len()
        invariant
            i <= ps.len(),
            ps@.len() == attrs@.len(),
            forall|k: int| 0 <= k < ps@.len() ==> id_ready(*space, (#[trigger] ps@[k]).type_id),
            s@ == p + field_decls(*space, ps@, strings_view(attrs@), i as nat),
            p == old(s)@,
        decreases ps.len() - i,
    {
        let f = &ps[i];
        let ghost before = s@;
        match &f.description {
            Some(d) => {
                push_str(s, "#[doc = ");
                let q = debug_str(d.as_str());
                push_str(s, q.as_str());
                push_str(s, "]");
            },
            None => {},
        }
        push_str(s, attrs[i].as_str());
        push_str(s, "pub ");
        push_str(s, f.name.as_str());
        push_str(s, ": ");
        let ty = ident_of_id(space, f.type_id);
        push_str(s, ty.as_str());
        push_str(s, ",");
        assert(s@ =~= before + field_decl(*space, ps@[i as int], strings_view(attrs@)[i as int]));
        i = i + 1;
    }
}

fn push_default_inits(s: &mut String, ps: &Vec<StructProperty>, ds: &Vec<FieldDefault>)
    requires
        ps@.len() == ds@.len(),
    ensures
        final(s)@ == old(s)@ + default_inits(ps@, ds@, ps@.len()),
{
    let ghost p = s@;
    assert(p + Seq::<char>::empty() =~= p);
    let mut i: usize = 0;
    while i < ps.len()
        invariant
            i <= ps.len(),
            ps@.len() == ds@.len(),
            s@ == p + default_inits(ps@, ds@, i as nat),
            p == old(s)@,
        decreases ps.len() - i,
    {
        push_str(s, ps[i].name.as_str());
        push_str(s, ": ");
        match &ds[i] {
            FieldDefault::NoDefault => {},
            FieldDefault::Default => push_str(s, "Default::default()"),
            FieldDefault::Custom(f) => {
                push_str(s, f.as_str());
                push_str(s, "()");
            },
        }
        push_str(s, ",");
        i = i + 1;
    }
}

fn defaults_present_exec(ds: &Vec<FieldDefault>) -> (r: Vec<bool>)
    ensures
        r@ == defaults_present(ds@),
{
    let mut r: Vec<bool> = Vec::new();
    let mut i: usize = 0;
    while i < ds.len()
        invariant
            i <= ds.len(),
            r@ == defaults_present(ds@).take(i as int),
        decreases ds.len() - i,
    {
        let b = match &ds[i] {
            FieldDefault::NoDefault => false,
            _ => true,
        };
        r.push(b);
        assert(r@ =~= defaults_present(ds@).take(i + 1));
        i = i + 1;
    }
    assert(defaults_present(ds@).take(ds.len() as int) =~= defaults_present(ds@));
    r
}

/// The text that follows a generated struct's attribute block.
pub open spec fn struct_body_text(
    space: TypeSpace,
    s: TypeEntryStruct,
    field_attrs: Seq<Seq<char>>,
    defaults: Seq<FieldDefault>,
    default_expr: Seq<char>,
) -> Seq<char> {
    "pub struct "@ + s.name@ + " { "@ + field_decls(space, s.properties@, field_attrs, s.properties@.len()) + " }"@
        + struct_default_text(s.name@, spec_struct_default(space.settings, s, defaults_present(defaults)), default_expr,
        s.properties@, defaults) + (if space.settings.struct_builder {
        builder_fn_text(s.name@)
    } else {
        nothing()
    })
}

fn struct_body(
    space: &TypeSpace,
    s: &TypeEntryStruct,
    field_attrs: &Vec<String>,
    defaults: &Vec<FieldDefault>,
    plan_default: &DefaultPlan,
    builder: bool,
    default_expr: &str,
) -> (r: String)
    requires
        field_attrs@.len() == s.properties@.len(),
        defaults@.len() == s.properties@.len(),
        forall|k: int| 0 <= k < s.properties@.len() ==> id_ready(*space, (#[trigger] s.properties@[k]).type_id),
        plan_default@ == spec_struct_default(space.settings, *s, defaults_present(defaults@)),
        builder == space.settings.struct_builder,
    ensures
        r@ == struct_body_text(*space, *s, strings_view(field_attrs@), defaults@, default_expr@),
{
    let name = s.name.as_str();
    let mut body = string_of("pub struct ");
    push_str(&mut body, name);
    push_str(&mut body, " { ");
    push_field_decls(&mut body, space, &s.properties, field_attrs);
    push_str(&mut body, " }");
    let d = match plan_default {
        DefaultPlan::SchemaValue => default_impl_exec(name, default_expr),
        DefaultPlan::FieldDefaults => {
            let mut t = string_of("impl ::std::default::Default for ");
            push_str(&mut t, name);
            push_str(&mut t, " { fn default() -> Self { Self { ");
            push_default_inits(&mut t, &s.properties, defaults);
            push_str(&mut t, " } } }");
            t
        },
        _ => String::new(),
    };
    assert(d@ == struct_default_text(s.name@, spec_struct_default(space.settings, *s, defaults_present(defaults@)), default_expr@,
        s.properties@, defaults@));
    push_str(&mut body, d.as_str());
    let mut b = String::new();
    if builder {
        b = string_of("impl ");
        push_str(&mut b, name);
        push_str(&mut b, " { pub fn builder() -> builder::");
        push_str(&mut b, name);
        push_str(&mut b, " { Default::default() } }");
    }
    push_str(&mut body, b.as_str());
    body
}

/// The Rust text of the struct generated for `s`, given the type's own
/// derives and attributes, its doc strings, each field's attributes and
/// default, and the expression of its schema default (used where it has
/// one). Each field's type must have a defined expression.
pub fn struct_item(
    space: &TypeSpace,
    own_derives: &Vec<String>,
    own_attrs: &Vec<String>,
    s: &TypeEntryStruct,
    doc: &Vec<String>,
    field_attrs: &Vec<String>,
    defaults: &Vec<FieldDefault>,
    default_expr: &str,
) -> (r: String)
    requires
        field_attrs@.len() == s.properties@.len(),
        defaults@.len() == s.properties@.len(),
        forall|k: int| 0 <= k < s.properties@.len() ==> id_ready(*space, (#[trigger] s.properties@[k]).type_id),
    ensures
        is_struct_item(r@, *space, strings_view(own_derives@), strings_view(own_attrs@), *s, strings_view(doc@),
            strings_view(field_attrs@), defaults@, default_expr@),
{
    let present = defaults_present_exec(defaults);
    let plan = struct_plan(&space.settings, own_derives, s, &present);
    let attrs = strings_to_attrs(own_attrs, &space.settings.extra_attrs);
    let lists = type_attr_lists(&space.settings, TypeKind::Struct);
    let serde = serde_attr(&plan.serde);
    let mut out = header(doc, &attrs, &lists, &plan.derives, serde.as_str());
    let ghost h = out@;
    let body = struct_body(space, s, field_attrs, defaults, &plan.default, plan.builder, default_expr);
    push_str(&mut out, body.as_str());
    proof {
        let derives = strings_view(plan.derives@);
        let ats = strings_view(attrs@);
        assert(h == header_text(strings_view(doc@), ats, strings_view(lists.uncond_pre@), pairs_view(lists.cond_pre@),
            pairs_view(lists.cond_derives@), derives, serde_line(spec_struct_serde_options(space.settings, *s)),
            strings_view(lists.uncond_post@), pairs_view(lists.cond_post@)));
        assert(is_derive_list(derives, space.settings, TypeKind::Struct, base_derives(), strings_view(own_derives@),
            strings_view(space.settings.extra_derives@), Seq::empty()));
        assert(is_sorted_set_of(ats, Seq::empty(), strings_view(space.settings.extra_attrs@), strings_view(own_attrs@)));
        assert(body@ == struct_body_text(*space, *s, strings_view(field_attrs@), defaults@, default_expr@));
        assert(out@ == h + body@);
    }
    out
}

/// The builder's `Result` field for each of the first `n` fields.
pub open spec fn builder_fields(space: TypeSpace, ps: Seq<StructProperty>, n: nat) -> Seq<char>
    decreases n,
{
    if n == 0 {
        Seq::empty()
    } else {
        builder_fields(space, ps, (n - 1) as nat) + ps[n - 1].name@ + ": ::std::result::Result<"@ + scoped_ident(space,
            ps[n - 1].type_id) + ", ::std::string::String>,"@
    }
}

/// What the builder starts a field with: the error naming it where it has
/// no default, else its default.
pub open spec fn builder_start(name: Seq<char>, d: FieldDefault) -> Seq<char> {
    match d {
        FieldDefault::NoDefault => "Err("@ + str_debug("no value supplied for "@ + name) + ".to_string())"@,
        FieldDefault::Default => "Ok(Default::default())"@,
        FieldDefault::Custom(f) => "Ok(super::"@ + f@ + "())"@,
    }
}

/// The builder's start for each of the first `n` fields.
pub open spec fn builder_starts(ps: Seq<StructProperty>, ds: Seq<FieldDefault>, n: nat) -> Seq<char>
    decreases n,
{
    if n == 0 {
        Seq::empty()
    } else {
        builder_starts(ps, ds, (n - 1) as nat) + ps[n - 1].name@ + ": "@ + builder_start(ps[n - 1].name@, ds[n - 1]) + ","@
    }
}

/// The builder's setter of each of the first `n` fields: it takes anything
/// that converts into the field's type, and keeps the conversion's error.
pub open spec fn builder_setters(space: TypeSpace, ps: Seq<StructProperty>, n: nat) -> Seq<char>
    decreases n,
{
    if n == 0 {
        Seq::empty()
    } else {
        let f = ps[n - 1].name@;
        builder_setters(space, ps, (n - 1) as nat) + "pub fn "@ + f
            + "<T>(mut self, value: T) -> Self where T: ::std::convert::TryInto<"@ + scoped_ident(space, ps[n - 1].type_id)
            + ">, T::Error: ::std::fmt::Display, { self."@ + f + " = value.try_into().map_err(|e| format!("@ + str_debug(
            "error converting supplied value for "@ + f + ": {e}"@,
        ) + ")); self }"@
    }
}

/// `name: value.name?,` for each of the first `n` fields.
pub open spec fn builder_takes(ps: Seq<StructProperty>, n: nat) -> Seq<char>
    decreases n,
{
    if n == 0 {
        Seq::empty()
    } else {
        builder_takes(ps, (n - 1) as nat) + ps[n - 1].name@ + ": value."@ + ps[n - 1].name@ + "?,"@
    }
}

/// `name: Ok(value.name),` for each of the first `n` fields.
pub open spec fn builder_gives(ps: Seq<StructProperty>, n: nat) -> Seq<char>
    decreases n,
{
    if n == 0 {
        Seq::empty()
    } else {
        builder_gives(ps, (n - 1) as nat) + ps[n - 1].name@ + ": Ok(value."@ + ps[n - 1].name@ + "),"@
    }
}

/// The builder type of the struct `s`, in the builder module: a `Result`
/// per field, started from the field's default or from the error naming
/// it, a setter per field, the struct built from it (failing with the
/// first error), and the builder made from the struct.
pub open spec fn builder_text(space: TypeSpace, s: TypeEntryStruct, ds: Seq<FieldDefault>) -> Seq<char> {
    let name = s.name@;
    let ps = s.properties@;
    let v = if ps.len() == 0 { "_value"@ } else { "value"@ };
    "#[derive(Clone, Debug)] pub struct "@ + name + " { "@ + builder_fields(space, ps, ps.len()) + " }"@
        + "impl ::std::default::Default for "@ + name + " { fn default() -> Self { Self { "@ + builder_starts(ps, ds, ps.len())
        + " } } }"@ + "impl "@ + name + " { "@ + builder_setters(space, ps, ps.len()) + " }"@
        + "impl ::std::convert::TryFrom<"@ + name + "> for super::"@ + name
        + " { type Error = super::error::ConversionError; fn try_from("@ + v + ": "@ + name
        + ") -> ::std::result::Result<Self, super::error::ConversionError> { Ok(Self { "@ + builder_takes(ps, ps.len())
        + " }) } }"@ + "impl ::std::convert::From<super::"@ + name + "> for "@ + name + " { fn from("@ + v + ": super::"@ + name
        + ") -> Self { Self { "@ + builder_gives(ps, ps.len()) + " } } }"@
}

fn push_builder_fields(s: &mut String, space: &TypeSpace, ps: &Vec<StructProperty>)
    requires
        forall|k: int| 0 <= k < ps@.len() ==> scoped_ready(*space, (#[trigger] ps@[k]).type_id),
    ensures
        final(s)@ == old(s)@ + builder_fields(*space, ps@, ps@.len()),
{
    let ghost p = s@;
    assert(p + Seq::<char>::empty() =~= p);
    let mut i: usize = 0;
    while i < ps.len()
        invariant
            i <= ps.len(),
            forall|k: int| 0 <= k < ps@.len() ==> scoped_ready(*space, (#[trigger] ps@[k]).type_id),
            s@ == p + builder_fields(*space, ps@, i as nat),
            p == old(s)@,
        decreases ps.len() - i,
    {
        push_str(s, ps[i].name.as_str());
        push_str(s, ": ::std::result::Result<");
        let ty = scoped_ident_of(space, ps[i].type_id);
        push_str(s, ty.as_str());
        push_str(s, ", ::std::string::String>,");
        i = i + 1;
    }
}

fn push_builder_starts(s: &mut String, ps: &Vec<StructProperty>, ds: &Vec<FieldDefault>)
    requires
        ps@.len() == ds@.len(),
    ensures
        final(s)@ == old(s)@ + builder_starts(ps@, ds@, ps@.len()),
{
    let ghost p = s@;
    assert(p + Seq::<char>::empty() =~= p);
    let mut i: usize = 0;
    while i < ps.len()
        invariant
            i <= ps.len(),
            ps@.len() == ds@.len(),
            s@ == p + builder_starts(ps@, ds@, i as nat),
            p == old(s)@,
        decreases ps.len() - i,
    {
        let name = ps[i].name.as_str();
        push_str(s, name);
        push_str(s, ": ");
        let t = match &ds[i] {
            FieldDefault::NoDefault => {
                let mut m = string_of("no value supplied for ");
                push_str(&mut m, name);
                let q = debug_str(m.as_str());
                let mut t = string_of("Err(");
                push_str(&mut t, q.as_str());
                push_str(&mut t, ".to_string())");
                t
            },
            FieldDefault::Default => string_of("Ok(Default::default())"),
            FieldDefault::Custom(f) => {
                let mut t = string_of("Ok(super::");
                push_str(&mut t, f.as_str());
                push_str(&mut t, "())");
                t
            },
        };
        push_str(s, t.as_str());
        push_str(s, ",");
        i = i + 1;
    }
}

fn push_builder_setters(s: &mut String, space: &TypeSpace, ps: &Vec<StructProperty>)
    requires
        forall|k: int| 0 <= k < ps@.len() ==> scoped_ready(*space, (#[trigger] ps@[k]).type_id),
    ensures
        final(s)@ == old(s)@ + builder_setters(*space, ps@, ps@.len()),
{
    let ghost p = s@;
    assert(p + Seq::<char>::empty() =~= p);
    let mut i: usize = 0;
    while i < ps.len()
        invariant
            i <= ps.len(),
            forall|k: int| 0 <= k < ps@.len() ==> scoped_ready(*space, (#[trigger] ps@[k]).type_id),
            s@ == p + builder_setters(*space, ps@, i as nat),
            p == old(s)@,
        decreases ps.len() - i,
    {
        let f = ps[i].name.as_str();
        let ghost before = s@;
        push_str(s, "pub fn ");
        push_str(s, f);
        push_str(s, "<T>(mut self, value: T) -> Self where T: ::std::convert::TryInto<");
        let ty = scoped_ident_of(space, ps[i].type_id);
        push_str(s, ty.as_str());
        push_str(s, ">, T::Error: ::std::fmt::Display, { self.");
        push_str(s, f);
        push_str(s, " = value.try_into().map_err(|e| format!(");
        let mut m = string_of("error converting supplied value for ");
        push_str(&mut m, f);
        push_str(&mut m, ": {e}");
        let q = debug_str(m.as_str());
        push_str(s, q.as_str());
        push_str(s, ")); self }");
        assert(s@ =~= before + "pub fn "@ + f@ + "<T>(mut self, value: T) -> Self where T: ::std::convert::TryInto<"@
            + scoped_ident(*space, ps@[i as int].type_id) + ">, T::Error: ::std::fmt::Display, { self."@ + f@
            + " = value.try_into().map_err(|e| format!("@ + str_debug("error converting supplied value for "@ + f@ + ": {e}"@)
            + ")); self }"@);
        i = i + 1;
    }
}

fn push_builder_moves(s: &mut String, ps: &Vec<StructProperty>, take: bool)
    ensures
        final(s)@ == old(s)@ + if take { builder_takes(ps@, ps@.len()) } else { builder_gives(ps@, ps@.len()) },
{
    let ghost p = s@;
    assert(p + Seq::<char>::empty() =~= p);
    let mut i: usize = 0;
    while i < ps.len()
        invariant
            i <= ps.len(),
            s@ == p + if take { builder_takes(ps@, i as nat) } else { builder_gives(ps@, i as nat) },
            p == old(s)@,
        decreases ps.len() - i,
    {
        let f = ps[i].name.as_str();
        push_str(s, f);
        if take {
            push_str(s, ": value.");
            push_str(s, f);
            push_str(s, "?,");
        } else {
            push_str(s, ": Ok(value.");
            push_str(s, f);
            push_str(s, "),");
        }
        i = i + 1;
    }
}

/// The Rust text of the builder type of the struct `s`, which goes in the
/// builder module, given each field's default. Each field's type must have
/// a defined expression seen from that module.
pub fn builder_item(space: &TypeSpace, s: &TypeEntryStruct, defaults: &Vec<FieldDefault>) -> (r: String)
    requires
        defaults@.len() == s.properties@.len(),
        forall|k: int| 0 <= k < s.properties@.len() ==> scoped_ready(*space, (#[trigger] s.properties@[k]).type_id),
    ensures
        r@ == builder_text(*space, *s, defaults@),
{
    let name = s.name.as_str();
    let v = if s.properties.len() == 0 { "_value" } else { "value" };
    let mut out = string_of("#[derive(Clone, Debug)] pub struct ");
    push_str(&mut out, name);
    push_str(&mut out, " { ");
    push_builder_fields(&mut out, space, &s.properties);
    push_str(&mut out, " }");
    push_str(&mut out, "impl ::std::default::Default for ");
    push_str(&mut out, name);
    push_str(&mut out, " { fn default() -> Self { Self { ");
    push_builder_starts(&mut out, &s.properties, defaults);
    push_str(&mut out, " } } }");
    push_str(&mut out, "impl ");
    push_str(&mut out, name);
    push_str(&mut out, " { ");
    push_builder_setters(&mut out, space, &s.properties);
    push_str(&mut out, " }");
    push_str(&mut out, "impl ::std::convert::TryFrom<");
    push_str(&mut out, name);
    push_str(&mut out, "> for super::");
    push_str(&mut out, name);
    push_str(&mut out, " { type Error = super::error::ConversionError; fn try_from(");
    push_str(&mut out, v);
    push_str(&mut out, ": ");
    push_str(&mut out, name);
    push_str(&mut out, ") -> ::std::result::Result<Self, super::error::ConversionError> { Ok(Self { ");
    push_builder_moves(&mut out, &s.properties, true);
    push_str(&mut out, " }) } }");
    push_str(&mut out, "impl ::std::convert::From<super::");
    push_str(&mut out, name);
    push_str(&mut out, "> for ");
    push_str(&mut out, name);
    push_str(&mut out, " { fn from(");
    push_str(&mut out, v);
    push_str(&mut out, ": super::");
    push_str(&mut out, name);
    push_str(&mut out, ") -> Self { Self { ");
    push_builder_moves(&mut out, &s.properties, false);
    push_str(&mut out, " } } }");
    out
}

/// The declaration of a field names it by the property's Rust name.
pub open spec fn field_named(space: TypeSpace, p: StructProperty) -> Seq<char> {
    "pub "@ + p.name@ + ": "@ + id_ident(space, p.type_id) + ","@
}

proof fn lemma_decls_hold(space: TypeSpace, ps: Seq<StructProperty>, attrs: Seq<Seq<char>>, n: nat, i: int)
    requires
        0 <= i < n <= ps.len(),
        n <= attrs.len(),
    ensures
        has_infix(field_decls(space, ps, attrs, n), field_named(space, ps[i])),
    decreases n,
{
    let prev = field_decls(space, ps, attrs, (n - 1) as nat);
    if i == n - 1 {
        let p = ps[i];
        let pre = (match p.description {
            Some(d) => "#[doc = "@ + str_debug(d@) + "]"@,
            None => nothing(),
        }) + attrs[i];
        assert(field_decl(space, p, attrs[i]) =~= pre + field_named(space, p));
        lemma_infix_self(field_named(space, p));
        lemma_infix_extend(field_named(space, p), pre, field_named(space, p));
        lemma_infix_extend(field_decl(space, p, attrs[i]), prev, field_named(space, p));
    } else {
        lemma_decls_hold(space, ps, attrs, (n - 1) as nat, i);
        lemma_infix_extend(prev, field_decl(space, ps[n - 1], attrs[n - 1]), field_named(space, ps[i]));
    }
}

proof fn lemma_inits_hold(ps: Seq<StructProperty>, ds: Seq<FieldDefault>, n: nat, i: int)
    requires
        0 <= i < n <= ps.len(),
        n <= ds.len(),
    ensures
        has_infix(default_inits(ps, ds, n), ps[i].name@ + ": "@ + default_expr_of(ds[i]) + ","@),
    decreases n,
{
    let prev = default_inits(ps, ds, (n - 1) as nat);
    let t = ps[i].name@ + ": "@ + default_expr_of(ds[i]) + ","@;
    if i == n - 1 {
        assert(default_inits(ps, ds, n) =~= prev + t);
        lemma_infix_self(t);
        lemma_infix_extend(t, prev, t);
    } else {
        lemma_inits_hold(ps, ds, (n - 1) as nat, i);
        let last = ps[n - 1].name@ + ": "@ + default_expr_of(ds[n - 1]) + ","@;
        assert(default_inits(ps, ds, n) =~= prev + last);
        lemma_infix_extend(prev, last, t);
    }
}

proof fn lemma_takes_hold(ps: Seq<StructProperty>, n: nat, i: int)
    requires
        0 <= i < n <= ps.len(),
    ensures
        has_infix(builder_takes(ps, n), ps[i].name@ + ": value."@ + ps[i].name@ + "?,"@),
    decreases n,
{
    let prev = builder_takes(ps, (n - 1) as nat);
    let t = ps[i].name@ + ": value."@ + ps[i].name@ + "?,"@;
    if i == n - 1 {
        assert(builder_takes(ps, n) =~= prev + t);
        lemma_infix_self(t);
        lemma_infix_extend(t, prev, t);
    } else {
        lemma_takes_hold(ps, (n - 1) as nat, i);
        let last = ps[n - 1].name@ + ": value."@ + ps[n - 1].name@ + "?,"@;
        assert(builder_takes(ps, n) =~= prev + last);
        lemma_infix_extend(prev, last, t);
    }
}

/// Every field of a generated struct is declared `pub name: Type,` with
/// the property's Rust name (not its wire name) and its type's expression,
/// and that same name is the one the `Default` impl initializes and the
/// builder moves into the struct.
pub proof fn law_struct_fields_by_rust_name(
    space: TypeSpace,
    s: TypeEntryStruct,
    field_attrs: Seq<Seq<char>>,
    defaults: Seq<FieldDefault>,
    i: int,
)
    requires
        0 <= i < s.properties@.len(),
        field_attrs.len() == s.properties@.len(),
        defaults.len() == s.properties@.len(),
    ensures
        has_infix(field_decls(space, s.properties@, field_attrs, s.properties@.len()), "pub "@ + s.properties@[i].name@ + ": "@
            + id_ident(space, s.properties@[i].type_id) + ","@),
        has_infix(default_inits(s.properties@, defaults, s.properties@.len()), s.properties@[i].name@ + ": "@ + default_expr_of(
            defaults[i]) + ","@),
        has_infix(builder_takes(s.properties@, s.properties@.len()), s.properties@[i].name@ + ": value."@ + s.properties@[i].name@
            + "?,"@),
{
    lemma_decls_hold(space, s.properties@, field_attrs, s.properties@.len(), i);
    lemma_inits_hold(s.properties@, defaults, s.properties@.len(), i);
    lemma_takes_hold(s.properties@, s.properties@.len(), i);
}

} // verus!
