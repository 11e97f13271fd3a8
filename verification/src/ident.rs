//! The Rust type expressions that name the types of a type space.
//!
//! A type expression is produced as Rust source text; parsed as a type, it
//! gives the tokens that generated code uses.

use vstd::prelude::*;

use crate::space::{entry_of, Type, TypeSpace};
use crate::strings::{decimal, push_decimal, push_str};
use crate::type_entry::{TypeEntry, TypeEntryDetails};

verus! {

/// `name`, qualified by the module `type_mod` where there is one.
pub open spec fn qualified(type_mod: Option<Seq<char>>, name: Seq<char>) -> Seq<char> {
    match type_mod {
        Some(m) => m + "::"@ + name,
        None => name,
    }
}

/// The texts `xs` separated by `, `.
pub open spec fn comma_join(xs: Seq<Seq<char>>) -> Seq<char>
    decreases xs.len(),
{
    if xs.len() == 0 {
        Seq::empty()
    } else if xs.len() == 1 {
        xs[0]
    } else {
        comma_join(xs.drop_last()) + ", "@ + xs.last()
    }
}

/// The texts `xs`, each followed by `, `.
pub open spec fn trailing_join(xs: Seq<Seq<char>>) -> Seq<char>
    decreases xs.len(),
{
    if xs.len() == 0 {
        Seq::empty()
    } else {
        trailing_join(xs.drop_last()) + xs.last() + ", "@
    }
}

/// The type expression of a tuple of the types named `xs`; a single item
/// takes a trailing comma.
pub open spec fn tuple_text(xs: Seq<Seq<char>>) -> Seq<char> {
    if xs.len() == 1 {
        "("@ + xs[0] + ",)"@
    } else {
        "("@ + comma_join(xs) + ")"@
    }
}

/// The type expression of the type `e` of `space`, for types defined in the
/// module `type_mod` (none: unqualified), following at most `fuel` type
/// ids; `None` where a followed id has no entry, where a reference is
/// reached, or where the steps run out.
pub open spec fn ident_within(space: TypeSpace, e: TypeEntry, type_mod: Option<Seq<char>>, fuel: nat) -> Option<Seq<char>>
    decreases fuel, 2nat, 0nat,
{
    match e.details {
        TypeEntryDetails::Enum(d) => Some(qualified(type_mod, d.name@)),
        TypeEntryDetails::Struct(d) => Some(qualified(type_mod, d.name@)),
        TypeEntryDetails::Newtype(d) => Some(qualified(type_mod, d.name@)),
        TypeEntryDetails::Option(id) => match entry_of(space, id) {
            None => None,
            Some(inner) => match ident_of_id(space, id, type_mod, fuel) {
                None => None,
                Some(t) => if inner.details is Option {
                    Some(t)
                } else {
                    Some("::std::option::Option<"@ + t + ">"@)
                },
            },
        },
        TypeEntryDetails::Box(id) => match ident_of_id(space, id, type_mod, fuel) {
            None => None,
            Some(t) => Some("::std::boxed::Box<"@ + t + ">"@),
        },
        TypeEntryDetails::Vec(id) => match ident_of_id(space, id, type_mod, fuel) {
            None => None,
            Some(t) => Some("::std::vec::Vec<"@ + t + ">"@),
        },
        TypeEntryDetails::MapOf(k, v) => match (entry_of(space, k), entry_of(space, v)) {
            (Some(ke), Some(ve)) => if ke.details is String && ve.details is JsonValue {
                Some("::serde_json::Map<::std::string::String, ::serde_json::Value>"@)
            } else {
                match (ident_of_id(space, k, type_mod, fuel), ident_of_id(space, v, type_mod, fuel)) {
                    (Some(kt), Some(vt)) => Some(space.settings.map_type.path@ + "<"@ + kt + ", "@ + vt + ">"@),
                    _ => None,
                }
            },
            _ => None,
        },
        TypeEntryDetails::SetOf(id) => match ident_of_id(space, id, type_mod, fuel) {
            None => None,
            Some(t) => Some("Vec<"@ + t + ">"@),
        },
        TypeEntryDetails::Tuple(ids) => match idents_of_ids(space, ids@, type_mod, fuel) {
            None => None,
            Some(ts) => Some(tuple_text(ts)),
        },
        TypeEntryDetails::Array(id, len) => match ident_of_id(space, id, type_mod, fuel) {
            None => None,
            Some(t) => Some("["@ + t + "; "@ + decimal(len as nat) + "]"@),
        },
        TypeEntryDetails::Native(n) => if n.parameters@.len() == 0 {
            Some(n.path@)
        } else {
            match idents_of_ids(space, n.parameters@, type_mod, fuel) {
                None => None,
                Some(ts) => Some(n.path@ + "<"@ + trailing_join(ts) + ">"@),
            }
        },
        TypeEntryDetails::Unit => Some("()"@),
        TypeEntryDetails::String => Some("::std::string::String"@),
        TypeEntryDetails::Boolean => Some("bool"@),
        TypeEntryDetails::JsonValue => Some("::serde_json::Value"@),
        TypeEntryDetails::Integer(n) => Some(n@),
        TypeEntryDetails::Float(n) => Some(n@),
        TypeEntryDetails::Reference(_) => None,
    }
}

/// The type expression of the type with id `id`, the step to it included.
pub open spec fn ident_of_id(space: TypeSpace, id: crate::TypeId, type_mod: Option<Seq<char>>, fuel: nat) -> Option<Seq<char>>
    decreases fuel, 0nat, 0nat,
{
    if fuel == 0 {
        None
    } else {
        match entry_of(space, id) {
            Some(e) => ident_within(space, e, type_mod, (fuel - 1) as nat),
            None => None,
        }
    }
}

/// The type expressions of the types `ids`, in order.
pub open spec fn idents_of_ids(space: TypeSpace, ids: Seq<crate::TypeId>, type_mod: Option<Seq<char>>, fuel: nat) -> Option<Seq<Seq<char>>>
    decreases fuel, 1nat, ids.len(),
{
    if ids.len() == 0 {
        Some(Seq::empty())
    } else {
        match (idents_of_ids(space, ids.drop_last(), type_mod, fuel), ident_of_id(space, ids.last(), type_mod, fuel)) {
            (Some(ts), Some(t)) => Some(ts.push(t)),
            _ => None,
        }
    }
}

/// More steps do not change a type expression that fewer steps give.
pub proof fn lemma_ident_within_mono(space: TypeSpace, e: TypeEntry, type_mod: Option<Seq<char>>, f1: nat, f2: nat)
    requires
        f1 <= f2,
        ident_within(space, e, type_mod, f1) is Some,
    ensures
        ident_within(space, e, type_mod, f2) == ident_within(space, e, type_mod, f1),
    decreases f1, 2nat, 0nat,
{
    match e.details {
        TypeEntryDetails::Option(id) => lemma_ident_of_id_mono(space, id, type_mod, f1, f2),
        TypeEntryDetails::Box(id) => lemma_ident_of_id_mono(space, id, type_mod, f1, f2),
        TypeEntryDetails::Vec(id) => lemma_ident_of_id_mono(space, id, type_mod, f1, f2),
        TypeEntryDetails::SetOf(id) => lemma_ident_of_id_mono(space, id, type_mod, f1, f2),
        TypeEntryDetails::Array(id, _) => lemma_ident_of_id_mono(space, id, type_mod, f1, f2),
        TypeEntryDetails::MapOf(k, v) => {
            if ident_of_id(space, k, type_mod, f1) is Some {
                lemma_ident_of_id_mono(space, k, type_mod, f1, f2);
            }
            if ident_of_id(space, v, type_mod, f1) is Some {
                lemma_ident_of_id_mono(space, v, type_mod, f1, f2);
            }
        },
        TypeEntryDetails::Tuple(ids) => lemma_idents_of_ids_mono(space, ids@, type_mod, f1, f2),
        TypeEntryDetails::Native(n) => {
            if n.parameters@.len() > 0 {
                lemma_idents_of_ids_mono(space, n.parameters@, type_mod, f1, f2);
            }
        },
        _ => {},
    }
}

proof fn lemma_ident_of_id_mono(space: TypeSpace, id: crate::TypeId, type_mod: Option<Seq<char>>, f1: nat, f2: nat)
    requires
        f1 <= f2,
        ident_of_id(space, id, type_mod, f1) is Some,
    ensures
        ident_of_id(space, id, type_mod, f2) == ident_of_id(space, id, type_mod, f1),
    decreases f1, 0nat, 0nat,
{
    if let Some(e) = entry_of(space, id) {
        lemma_ident_within_mono(space, e, type_mod, (f1 - 1) as nat, (f2 - 1) as nat);
    }
}

proof fn lemma_idents_of_ids_mono(space: TypeSpace, ids: Seq<crate::TypeId>, type_mod: Option<Seq<char>>, f1: nat, f2: nat)
    requires
        f1 <= f2,
        idents_of_ids(space, ids, type_mod, f1) is Some,
    ensures
        idents_of_ids(space, ids, type_mod, f2) == idents_of_ids(space, ids, type_mod, f1),
    decreases f1, 1nat, ids.len(),
{
    if ids.len() > 0 {
        lemma_idents_of_ids_mono(space, ids.drop_last(), type_mod, f1, f2);
        lemma_ident_of_id_mono(space, ids.last(), type_mod, f1, f2);
    }
}

/// Whether some number of steps gives the type expression of `e`.
pub open spec fn ident_defined(space: TypeSpace, e: TypeEntry, type_mod: Option<Seq<char>>) -> bool {
    exists|f: nat| #[trigger] ident_within(space, e, type_mod, f) is Some
}

/// The optional module as characters.
pub open spec fn opt_chars(m: Option<String>) -> Option<Seq<char>> {
    match m {
        Some(s) => Some(s@),
        None => None,
    }
}

fn push_qualified(s: &mut String, type_mod: &Option<String>, name: &str)
    ensures
        final(s)@ == old(s)@ + qualified(opt_chars(*type_mod), name@),
{
    match type_mod {
        Some(m) => {
            push_str(s, m.as_str());
            push_str(s, "::");
            push_str(s, name);
            assert(final(s)@ =~= old(s)@ + qualified(opt_chars(*type_mod), name@));
        },
        None => push_str(s, name),
    }
}

impl TypeEntry {
    fn ident_rec(&self, space: &TypeSpace, type_mod: &Option<String>, Ghost(fuel): Ghost<nat>) -> (r: String)
        requires
            ident_within(*space, *self, opt_chars(*type_mod), fuel) is Some,
        ensures
            ident_within(*space, *self, opt_chars(*type_mod), fuel) == Some(r@),
        decreases fuel,
    {
        let ghost m = opt_chars(*type_mod);
        let mut s = String::new();
        match &self.details {
            TypeEntryDetails::Enum(d) => push_qualified(&mut s, type_mod, d.name.as_str()),
            TypeEntryDetails::Struct(d) => push_qualified(&mut s, type_mod, d.name.as_str()),
            TypeEntryDetails::Newtype(d) => push_qualified(&mut s, type_mod, d.name.as_str()),
            TypeEntryDetails::Option(id) => {
                let inner = space.get_entry(*id).unwrap();
                let t = inner.ident_rec(space, type_mod, Ghost((fuel - 1) as nat));
                match &inner.details {
                    TypeEntryDetails::Option(_) => {
                        s = t;
                    },
                    _ => {
                        push_str(&mut s, "::std::option::Option<");
                        push_str(&mut s, t.as_str());
                        push_str(&mut s, ">");
                    },
                }
            },
            TypeEntryDetails::Box(id) => {
                let t = space.get_entry(*id).unwrap().ident_rec(space, type_mod, Ghost((fuel - 1) as nat));
                push_str(&mut s, "::std::boxed::Box<");
                push_str(&mut s, t.as_str());
                push_str(&mut s, ">");
            },
            TypeEntryDetails::Vec(id) => {
                let t = space.get_entry(*id).unwrap().ident_rec(space, type_mod, Ghost((fuel - 1) as nat));
                push_str(&mut s, "::std::vec::Vec<");
                push_str(&mut s, t.as_str());
                push_str(&mut s, ">");
            },
            TypeEntryDetails::MapOf(k, v) => {
                let ke = space.get_entry(*k).unwrap();
                let ve = space.get_entry(*v).unwrap();
                let plain = match (&ke.details, &ve.details) {
                    (TypeEntryDetails::String, TypeEntryDetails::JsonValue) => true,
                    _ => false,
                };
                if plain {
                    push_str(&mut s, "::serde_json::Map<::std::string::String, ::serde_json::Value>");
                } else {
                    let kt = ke.ident_rec(space, type_mod, Ghost((fuel - 1) as nat));
                    let vt = ve.ident_rec(space, type_mod, Ghost((fuel - 1) as nat));
                    push_str(&mut s, space.settings.map_type.path.as_str());
                    push_str(&mut s, "<");
                    push_str(&mut s, kt.as_str());
                    push_str(&mut s, ", ");
                    push_str(&mut s, vt.as_str());
                    push_str(&mut s, ">");
                }
            },
            TypeEntryDetails::SetOf(id) => {
                let t = space.get_entry(*id).unwrap().ident_rec(space, type_mod, Ghost((fuel - 1) as nat));
                push_str(&mut s, "Vec<");
                push_str(&mut s, t.as_str());
                push_str(&mut s, ">");
            },
            TypeEntryDetails::Tuple(ids) => {
                let ts = idents_rec(space, ids, type_mod, Ghost(fuel));
                if ts.len() == 1 {
                    push_str(&mut s, "(");
                    push_str(&mut s, ts[0].as_str());
                    push_str(&mut s, ",)");
                } else {
                    push_str(&mut s, "(");
                    push_comma_joined(&mut s, &ts);
                    push_str(&mut s, ")");
                }
            },
            TypeEntryDetails::Array(id, len) => {
                let t = space.get_entry(*id).unwrap().ident_rec(space, type_mod, Ghost((fuel - 1) as nat));
                push_str(&mut s, "[");
                push_str(&mut s, t.as_str());
                push_str(&mut s, "; ");
                push_decimal(&mut s, *len as u64);
                push_str(&mut s, "]");
            },
            TypeEntryDetails::Native(n) => {
                push_str(&mut s, n.path.as_str());
                if n.parameters.len() > 0 {
                    let ts = idents_rec(space, &n.parameters, type_mod, Ghost(fuel));
                    push_str(&mut s, "<");
                    push_trailing_joined(&mut s, &ts);
                    push_str(&mut s, ">");
                }
            },
            TypeEntryDetails::Unit => push_str(&mut s, "()"),
            TypeEntryDetails::String => push_str(&mut s, "::std::string::String"),
            TypeEntryDetails::Boolean => push_str(&mut s, "bool"),
            TypeEntryDetails::JsonValue => push_str(&mut s, "::serde_json::Value"),
            TypeEntryDetails::Integer(n) => push_str(&mut s, n.as_str()),
            TypeEntryDetails::Float(n) => push_str(&mut s, n.as_str()),
            TypeEntryDetails::Reference(_) => {},
        }
        s
    }

    /// The type expression of the type, for types defined in the module
    /// `type_mod` (none: unqualified). The type ids followed must have
    /// entries and the following must end, which holds exactly when some
    /// number of steps gives the expression.
    pub fn type_ident(&self, space: &TypeSpace, type_mod: &Option<String>) -> (r: String)
        requires
            ident_defined(*space, *self, opt_chars(*type_mod)),
        ensures
            forall|f: nat| #[trigger] ident_within(*space, *self, opt_chars(*type_mod), f) is Some ==> ident_within(*space, *self, opt_chars(*type_mod), f) == Some(r@),
    {
        let ghost m = opt_chars(*type_mod);
        let ghost f0 = choose|f: nat| #[trigger] ident_within(*space, *self, m, f) is Some;
        let r = self.ident_rec(space, type_mod, Ghost(f0));
        assert forall|f: nat| #[trigger] ident_within(*space, *self, m, f) is Some implies ident_within(*space, *self, m, f) == Some(r@) by {
            if f <= f0 {
                lemma_ident_within_mono(*space, *self, m, f, f0);
            } else {
                lemma_ident_within_mono(*space, *self, m, f0, f);
            }
        }
        r
    }
}

fn idents_rec(space: &TypeSpace, ids: &Vec<crate::TypeId>, type_mod: &Option<String>, Ghost(fuel): Ghost<nat>) -> (r: Vec<String>)
    requires
        idents_of_ids(*space, ids@, opt_chars(*type_mod), fuel) is Some,
    ensures
        idents_of_ids(*space, ids@, opt_chars(*type_mod), fuel) == Some(r@.map_values(|x: String| x@)),
    decreases fuel, 0nat,
{
    let ghost m = opt_chars(*type_mod);
    let mut out: Vec<String> = Vec::new();
    let mut i: usize = 0;
    assert(ids@.take(0) =~= Seq::<crate::TypeId>::empty());
    assert(out@.map_values(|x: String| x@) =~= Seq::<Seq<char>>::empty());
    while i < ids.len()
        invariant
            i <= ids.len(),
            m == opt_chars(*type_mod),
            idents_of_ids(*space, ids@, m, fuel) is Some,
            idents_of_ids(*space, ids@.take(i as int), m, fuel) == Some(out@.map_values(|x: String| x@)),
        decreases ids.len() - i,
    {
        proof {
            lemma_idents_prefix(*space, ids@, m, fuel, i + 1);
            assert(ids@.take(i + 1).drop_last() =~= ids@.take(i as int));
            assert(ids@.take(i + 1).last() == ids@[i as int]);
            assert(ident_of_id(*space, ids@[i as int], m, fuel) is Some);
            assert(fuel > 0);
        }
        let e = space.get_entry(ids[i]).unwrap();
        let t = e.ident_rec(space, type_mod, Ghost((fuel - 1) as nat));
        let ghost before = out@;
        out.push(t);
        assert(out@.map_values(|x: String| x@) =~= before.map_values(|x: String| x@).push(t@));
        i = i + 1;
    }
    assert(ids@.take(ids.len() as int) =~= ids@);
    out
}

proof fn lemma_idents_prefix(space: TypeSpace, ids: Seq<crate::TypeId>, m: Option<Seq<char>>, fuel: nat, n: int)
    requires
        0 <= n <= ids.len(),
        idents_of_ids(space, ids, m, fuel) is Some,
    ensures
        idents_of_ids(space, ids.take(n), m, fuel) is Some,
        n > 0 ==> ident_of_id(space, ids[n - 1], m, fuel) is Some,
    decreases ids.len() - n,
{
    if n < ids.len() {
        assert(ids.drop_last().take(n) =~= ids.take(n));
        lemma_idents_prefix(space, ids.drop_last(), m, fuel, n);
        if n > 0 {
            assert(ids.drop_last()[n - 1] == ids[n - 1]);
        }
    } else {
        assert(ids.take(n) =~= ids);
        if n > 0 {
            assert(ids.drop_last().take(n - 1) =~= ids.drop_last());
        }
    }
}

fn push_comma_joined(s: &mut String, xs: &Vec<String>)
    ensures
        final(s)@ == old(s)@ + comma_join(xs@.map_values(|x: String| x@)),
{
    let ghost v = xs@.map_values(|x: String| x@);
    let mut i: usize = 0;
    assert(v.take(0) =~= Seq::<Seq<char>>::empty());
    assert(old(s)@ + comma_join(v.take(0)) =~= old(s)@);
    while i < xs.len()
        invariant
            i <= xs.len(),
            v == xs@.map_values(|x: String| x@),
            s@ == old(s)@ + comma_join(v.take(i as int)),
        decreases xs.len() - i,
    {
        assert(v.take(i + 1).drop_last() =~= v.take(i as int));
        if i > 0 {
            push_str(s, ", ");
        }
        push_str(s, xs[i].as_str());
        assert(s@ =~= old(s)@ + comma_join(v.take(i + 1)));
        i = i + 1;
    }
    assert(v.take(xs.len() as int) =~= v);
}

fn push_trailing_joined(s: &mut String, xs: &Vec<String>)
    ensures
        final(s)@ == old(s)@ + trailing_join(xs@.map_values(|x: String| x@)),
{
    let ghost v = xs@.map_values(|x: String| x@);
    let mut i: usize = 0;
    assert(v.take(0) =~= Seq::<Seq<char>>::empty());
    assert(old(s)@ + trailing_join(v.take(0)) =~= old(s)@);
    while i < xs.len()
        invariant
            i <= xs.len(),
            v == xs@.map_values(|x: String| x@),
            s@ == old(s)@ + trailing_join(v.take(i as int)),
        decreases xs.len() - i,
    {
        assert(v.take(i + 1).drop_last() =~= v.take(i as int));
        push_str(s, xs[i].as_str());
        push_str(s, ", ");
        assert(s@ =~= old(s)@ + trailing_join(v.take(i + 1)));
        i = i + 1;
    }
    assert(v.take(xs.len() as int) =~= v);
}

impl<'a> Type<'a> {
    /// The name of the type: its type expression, unqualified.
    pub fn name(&self) -> (r: String)
        requires
            ident_defined(*self.type_space, *self.type_entry, None),
        ensures
            forall|f: nat| #[trigger] ident_within(*self.type_space, *self.type_entry, None, f) is Some ==> ident_within(*self.type_space, *self.type_entry, None, f) == Some(r@),
    {
        self.type_entry.type_ident(self.type_space, &None)
    }

    /// The type expression for the type as might be used for a function
    /// return or the type of a member of a struct, qualified by the type
    /// space's module.
    pub fn ident(&self) -> (r: String)
        requires
            ident_defined(*self.type_space, *self.type_entry, opt_chars(self.type_space.settings.type_mod)),
        ensures
            forall|f: nat| #[trigger] ident_within(*self.type_space, *self.type_entry, opt_chars(self.type_space.settings.type_mod), f) is Some ==> ident_within(*self.type_space, *self.type_entry, opt_chars(self.type_space.settings.type_mod), f) == Some(r@),
    {
        self.type_entry.type_ident(self.type_space, &self.type_space.settings.type_mod)
    }
}


/// `&`, with the lifetime `lt` where there is one, before `t`.
pub open spec fn borrowed(lt: Option<Seq<char>>, t: Seq<char>) -> Seq<char> {
    match lt {
        Some(l) => "&'"@ + l + " "@ + t,
        None => "&"@ + t,
    }
}

/// Whether every variant of an enum is simple.
pub open spec fn all_variants_simple(vs: Seq<crate::type_entry::Variant>) -> bool {
    forall|k: int| 0 <= k < vs.len() ==> (#[trigger] vs[k]).details is Simple
}

/// The type expression for the type `e` as a parameter of a function: enums
/// whose variants are all simple and scalar types are passed by value,
/// strings as `&str`, options and tuples by their parts, anything else by
/// reference; `lt` names the lifetime of the references.
pub open spec fn param_within(space: TypeSpace, e: TypeEntry, lt: Option<Seq<char>>, fuel: nat) -> Option<Seq<char>>
    decreases fuel, 2nat, 0nat,
{
    let m = opt_chars(space.settings.type_mod);
    match e.details {
        TypeEntryDetails::Enum(d) => if all_variants_simple(d.variants@) {
            ident_within(space, e, m, fuel)
        } else {
            match ident_within(space, e, m, fuel) {
                Some(t) => Some(borrowed(lt, t)),
                None => None,
            }
        },
        TypeEntryDetails::Option(id) => match entry_of(space, id) {
            None => None,
            Some(inner) => match param_of_id(space, id, lt, fuel) {
                None => None,
                Some(t) => if inner.details is Option {
                    Some(t)
                } else {
                    Some("Option<"@ + t + ">"@)
                },
            },
        },
        TypeEntryDetails::Tuple(ids) => match params_of_ids(space, ids@, lt, fuel) {
            None => None,
            Some(ts) => Some(tuple_text(ts)),
        },
        TypeEntryDetails::Unit => ident_within(space, e, m, fuel),
        TypeEntryDetails::Boolean => ident_within(space, e, m, fuel),
        TypeEntryDetails::Integer(_) => ident_within(space, e, m, fuel),
        TypeEntryDetails::Float(_) => ident_within(space, e, m, fuel),
        TypeEntryDetails::String => Some(borrowed(lt, "str"@)),
        TypeEntryDetails::Reference(_) => None,
        _ => match ident_within(space, e, m, fuel) {
            Some(t) => Some(borrowed(lt, t)),
            None => None,
        },
    }
}

/// The parameter type expression of the type with id `id`, the step to it
/// included.
pub open spec fn param_of_id(space: TypeSpace, id: crate::TypeId, lt: Option<Seq<char>>, fuel: nat) -> Option<Seq<char>>
    decreases fuel, 0nat, 0nat,
{
    if fuel == 0 {
        None
    } else {
        match entry_of(space, id) {
            Some(e) => param_within(space, e, lt, (fuel - 1) as nat),
            None => None,
        }
    }
}

/// The parameter type expressions of the types `ids`, in order.
pub open spec fn params_of_ids(space: TypeSpace, ids: Seq<crate::TypeId>, lt: Option<Seq<char>>, fuel: nat) -> Option<Seq<Seq<char>>>
    decreases fuel, 1nat, ids.len(),
{
    if ids.len() == 0 {
        Some(Seq::empty())
    } else {
        match (params_of_ids(space, ids.drop_last(), lt, fuel), param_of_id(space, ids.last(), lt, fuel)) {
            (Some(ts), Some(t)) => Some(ts.push(t)),
            _ => None,
        }
    }
}

/// More steps do not change a parameter type expression that fewer steps
/// give.
pub proof fn lemma_param_within_mono(space: TypeSpace, e: TypeEntry, lt: Option<Seq<char>>, f1: nat, f2: nat)
    requires
        f1 <= f2,
        param_within(space, e, lt, f1) is Some,
    ensures
        param_within(space, e, lt, f2) == param_within(space, e, lt, f1),
    decreases f1, 2nat, 0nat,
{
    let m = opt_chars(space.settings.type_mod);
    match e.details {
        TypeEntryDetails::Option(id) => lemma_param_of_id_mono(space, id, lt, f1, f2),
        TypeEntryDetails::Tuple(ids) => lemma_params_of_ids_mono(space, ids@, lt, f1, f2),
        TypeEntryDetails::String => {},
        TypeEntryDetails::Reference(_) => {},
        _ => lemma_ident_within_mono(space, e, m, f1, f2),
    }
}

proof fn lemma_param_of_id_mono(space: TypeSpace, id: crate::TypeId, lt: Option<Seq<char>>, f1: nat, f2: nat)
    requires
        f1 <= f2,
        param_of_id(space, id, lt, f1) is Some,
    ensures
        param_of_id(space, id, lt, f2) == param_of_id(space, id, lt, f1),
    decreases f1, 0nat, 0nat,
{
    if let Some(e) = entry_of(space, id) {
        lemma_param_within_mono(space, e, lt, (f1 - 1) as nat, (f2 - 1) as nat);
    }
}

proof fn lemma_params_of_ids_mono(space: TypeSpace, ids: Seq<crate::TypeId>, lt: Option<Seq<char>>, f1: nat, f2: nat)
    requires
        f1 <= f2,
        params_of_ids(space, ids, lt, f1) is Some,
    ensures
        params_of_ids(space, ids, lt, f2) == params_of_ids(space, ids, lt, f1),
    decreases f1, 1nat, ids.len(),
{
    if ids.len() > 0 {
        lemma_params_of_ids_mono(space, ids.drop_last(), lt, f1, f2);
        lemma_param_of_id_mono(space, ids.last(), lt, f1, f2);
    }
}

/// Whether some number of steps gives the parameter type expression of
/// `e`.
pub open spec fn param_defined(space: TypeSpace, e: TypeEntry, lt: Option<Seq<char>>) -> bool {
    exists|f: nat| #[trigger] param_within(space, e, lt, f) is Some
}

/// The characters of an optional lifetime name.
pub open spec fn opt_str_chars(lt: Option<&str>) -> Option<Seq<char>> {
    match lt {
        Some(l) => Some(l@),
        None => None,
    }
}

fn push_borrowed(s: &mut String, lt: Option<&str>, t: &str)
    ensures
        final(s)@ == old(s)@ + borrowed(opt_str_chars(lt), t@),
{
    match lt {
        Some(l) => {
            push_str(s, "&'");
            push_str(s, l);
            push_str(s, " ");
            push_str(s, t);
            assert(final(s)@ =~= old(s)@ + borrowed(opt_str_chars(lt), t@));
        },
        None => {
            push_str(s, "&");
            push_str(s, t);
            assert(final(s)@ =~= old(s)@ + borrowed(opt_str_chars(lt), t@));
        },
    }
}

fn variants_all_simple(vs: &Vec<crate::type_entry::Variant>) -> (r: bool)
    ensures
        r == all_variants_simple(vs@),
{
    let mut i: usize = 0;
    while i < vs.len()
        invariant
            i <= vs.len(),
            forall|k: int| 0 <= k < i ==> (#[trigger] vs@[k]).details is Simple,
        decreases vs.len() - i,
    {
        match vs[i].details {
            crate::type_entry::VariantDetails::Simple => {},
            _ => {
                return false;
            },
        }
        i = i + 1;
    }
    true
}

impl TypeEntry {
    fn param_rec(&self, space: &TypeSpace, lt: Option<&str>, Ghost(fuel): Ghost<nat>) -> (r: String)
        requires
            param_within(*space, *self, opt_str_chars(lt), fuel) is Some,
        ensures
            param_within(*space, *self, opt_str_chars(lt), fuel) == Some(r@),
        decreases fuel,
    {
        let type_mod = &space.settings.type_mod;
        let mut s = String::new();
        match &self.details {
            TypeEntryDetails::Enum(d) => {
                let t = self.ident_rec(space, type_mod, Ghost(fuel));
                if variants_all_simple(&d.variants) {
                    s = t;
                } else {
                    push_borrowed(&mut s, lt, t.as_str());
                }
            },
            TypeEntryDetails::Option(id) => {
                let inner = space.get_entry(*id).unwrap();
                let t = inner.param_rec(space, lt, Ghost((fuel - 1) as nat));
                match &inner.details {
                    TypeEntryDetails::Option(_) => {
                        s = t;
                    },
                    _ => {
                        push_str(&mut s, "Option<");
                        push_str(&mut s, t.as_str());
                        push_str(&mut s, ">");
                    },
                }
            },
            TypeEntryDetails::Tuple(ids) => {
                let ts = params_rec(space, ids, lt, Ghost(fuel));
                if ts.len() == 1 {
                    push_str(&mut s, "(");
                    push_str(&mut s, ts[0].as_str());
                    push_str(&mut s, ",)");
                } else {
                    push_str(&mut s, "(");
                    push_comma_joined(&mut s, &ts);
                    push_str(&mut s, ")");
                }
            },
            TypeEntryDetails::Unit | TypeEntryDetails::Boolean | TypeEntryDetails::Integer(_)
            | TypeEntryDetails::Float(_) => {
                s = self.ident_rec(space, type_mod, Ghost(fuel));
            },
            TypeEntryDetails::String => push_borrowed(&mut s, lt, "str"),
            TypeEntryDetails::Reference(_) => {},
            _ => {
                let t = self.ident_rec(space, type_mod, Ghost(fuel));
                push_borrowed(&mut s, lt, t.as_str());
            },
        }
        s
    }

    /// The type expression for the type as a parameter of a function (see
    /// [`param_within`]); `lt` names the lifetime of the references. The
    /// type ids followed must have entries and the following must end.
    pub fn type_parameter_ident(&self, space: &TypeSpace, lt: Option<&str>) -> (r: String)
        requires
            param_defined(*space, *self, opt_str_chars(lt)),
        ensures
            forall|f: nat| #[trigger] param_within(*space, *self, opt_str_chars(lt), f) is Some ==> param_within(*space, *self, opt_str_chars(lt), f) == Some(r@),
    {
        let ghost l = opt_str_chars(lt);
        let ghost f0 = choose|f: nat| #[trigger] param_within(*space, *self, l, f) is Some;
        let r = self.param_rec(space, lt, Ghost(f0));
        assert forall|f: nat| #[trigger] param_within(*space, *self, l, f) is Some implies param_within(*space, *self, l, f) == Some(r@) by {
            if f <= f0 {
                lemma_param_within_mono(*space, *self, l, f, f0);
            } else {
                lemma_param_within_mono(*space, *self, l, f0, f);
            }
        }
        r
    }
}

fn params_rec(space: &TypeSpace, ids: &Vec<crate::TypeId>, lt: Option<&str>, Ghost(fuel): Ghost<nat>) -> (r: Vec<String>)
    requires
        params_of_ids(*space, ids@, opt_str_chars(lt), fuel) is Some,
    ensures
        params_of_ids(*space, ids@, opt_str_chars(lt), fuel) == Some(r@.map_values(|x: String| x@)),
    decreases fuel, 0nat,
{
    let ghost l = opt_str_chars(lt);
    let mut out: Vec<String> = Vec::new();
    let mut i: usize = 0;
    assert(ids@.take(0) =~= Seq::<crate::TypeId>::empty());
    assert(out@.map_values(|x: String| x@) =~= Seq::<Seq<char>>::empty());
    while i < ids.len()
        invariant
            i <= ids.len(),
            l == opt_str_chars(lt),
            params_of_ids(*space, ids@, l, fuel) is Some,
            params_of_ids(*space, ids@.take(i as int), l, fuel) == Some(out@.map_values(|x: String| x@)),
        decreases ids.len() - i,
    {
        proof {
            lemma_params_prefix(*space, ids@, l, fuel, i + 1);
            assert(ids@.take(i + 1).drop_last() =~= ids@.take(i as int));
            assert(ids@.take(i + 1).last() == ids@[i as int]);
            assert(param_of_id(*space, ids@[i as int], l, fuel) is Some);
            assert(fuel > 0);
        }
        let e = space.get_entry(ids[i]).unwrap();
        let t = e.param_rec(space, lt, Ghost((fuel - 1) as nat));
        let ghost before = out@;
        out.push(t);
        assert(out@.map_values(|x: String| x@) =~= before.map_values(|x: String| x@).push(t@));
        i = i + 1;
    }
    assert(ids@.take(ids.len() as int) =~= ids@);
    out
}

proof fn lemma_params_prefix(space: TypeSpace, ids: Seq<crate::TypeId>, l: Option<Seq<char>>, fuel: nat, n: int)
    requires
        0 <= n <= ids.len(),
        params_of_ids(space, ids, l, fuel) is Some,
    ensures
        params_of_ids(space, ids.take(n), l, fuel) is Some,
        n > 0 ==> param_of_id(space, ids[n - 1], l, fuel) is Some,
    decreases ids.len() - n,
{
    if n < ids.len() {
        assert(ids.drop_last().take(n) =~= ids.take(n));
        lemma_params_prefix(space, ids.drop_last(), l, fuel, n);
        if n > 0 {
            assert(ids.drop_last()[n - 1] == ids[n - 1]);
        }
    } else {
        assert(ids.take(n) =~= ids);
    }
}

impl<'a> Type<'a> {
    /// The type expression for the type as a parameter of a function: simple
    /// types as with [`Type::ident`], complex types behind `&`.
    pub fn parameter_ident(&self) -> (r: String)
        requires
            param_defined(*self.type_space, *self.type_entry, None),
        ensures
            forall|f: nat| #[trigger] param_within(*self.type_space, *self.type_entry, None, f) is Some ==> param_within(*self.type_space, *self.type_entry, None, f) == Some(r@),
    {
        self.type_entry.type_parameter_ident(self.type_space, None)
    }

    /// The type expression for the type as a parameter of a function, with
    /// the lifetime `lifetime` on its references.
    pub fn parameter_ident_with_lifetime(&self, lifetime: &str) -> (r: String)
        requires
            param_defined(*self.type_space, *self.type_entry, Some(lifetime@)),
        ensures
            forall|f: nat| #[trigger] param_within(*self.type_space, *self.type_entry, Some(lifetime@), f) is Some ==> param_within(*self.type_space, *self.type_entry, Some(lifetime@), f) == Some(r@),
    {
        self.type_entry.type_parameter_ident(self.type_space, Some(lifetime))
    }

    /// The path of the builder type of a struct, where the settings ask for
    /// builders: `builder::{Name}`, under the type space's module if there
    /// is one.
    pub fn builder(&self) -> (r: Option<String>)
        ensures
            match r {
                Some(b) => self.type_space.settings.struct_builder && (self.type_entry.details matches TypeEntryDetails::Struct(st) && b@ == qualified(opt_chars(self.type_space.settings.type_mod), "builder::"@ + st.name@)),
                None => !self.type_space.settings.struct_builder || !(self.type_entry.details is Struct),
            },
    {
        if !self.type_space.settings.struct_builder {
            return None;
        }
        match &self.type_entry.details {
            TypeEntryDetails::Struct(st) => {
                let mut s = String::new();
                match &self.type_space.settings.type_mod {
                    Some(m) => {
                        push_str(&mut s, m.as_str());
                        push_str(&mut s, "::");
                    },
                    None => {},
                }
                push_str(&mut s, "builder::");
                push_str(&mut s, st.name.as_str());
                assert(s@ =~= qualified(opt_chars(self.type_space.settings.type_mod), "builder::"@ + st.name@));
                Some(s)
            },
            _ => None,
        }
    }
}


/// The type expression of `e`, as some number of steps gives it.
pub open spec fn spec_ident(space: TypeSpace, e: TypeEntry, m: Option<Seq<char>>) -> Seq<char> {
    ident_within(space, e, m, choose|f: nat| #[trigger] ident_within(space, e, m, f) is Some)->0
}

/// The index of the last definition entry of `k` in `refs`: the entry that
/// the reference table keeps for `k`.
pub open spec fn def_index(refs: Seq<(crate::space::RefKey, crate::TypeId)>, k: Seq<char>) -> Option<int>
    decreases refs.len(),
{
    if refs.len() == 0 {
        None
    } else if refs.last().0 matches crate::space::RefKey::Def(x) && x@ == k {
        Some(refs.len() - 1)
    } else {
        def_index(refs.drop_last(), k)
    }
}

/// The name of the type of definition `k`, where the reference table has
/// `k` and its type has an entry.
pub open spec fn def_name(space: TypeSpace, k: Seq<char>) -> Option<Seq<char>> {
    match def_index(space.ref_to_id@, k) {
        Some(i) => match entry_of(space, space.ref_to_id@[i].1) {
            Some(e) => Some(spec_ident(space, e, None)),
            None => None,
        },
        None => None,
    }
}

/// The keys of a list of pairs.
pub open spec fn pair_keys(s: Seq<(String, String)>) -> Seq<Seq<char>> {
    s.map_values(|p: (String, String)| p.0@)
}

/// Whether `r` lists each definition whose type has an entry once, with
/// the name of its type, in ascending order of the keys.
pub open spec fn definition_names_are(space: TypeSpace, r: Seq<(String, String)>) -> bool {
    &&& crate::attrs::strictly_sorted(pair_keys(r))
    &&& forall|j: int| 0 <= j < r.len() ==> def_name(space, #[trigger] r[j].0@) == Some(r[j].1@)
    &&& forall|k: Seq<char>| #[trigger] def_name(space, k) is Some ==> pair_keys(r).contains(k)
}

/// Whether every definition of `space` with an entry has a type name.
pub open spec fn definitions_named(space: TypeSpace) -> bool {
    forall|i: int| 0 <= i < space.ref_to_id@.len() && (#[trigger] space.ref_to_id@[i]).0 is Def && entry_of(space, space.ref_to_id@[i].1) is Some
        ==> ident_defined(space, entry_of(space, space.ref_to_id@[i].1)->0, None)
}

proof fn lemma_def_index(refs: Seq<(crate::space::RefKey, crate::TypeId)>, k: Seq<char>)
    ensures
        def_index(refs, k) matches Some(i) ==> 0 <= i < refs.len() && (refs[i].0 matches crate::space::RefKey::Def(x) && x@ == k)
            && forall|j: int| i < j < refs.len() ==> !((#[trigger] refs[j]).0 matches crate::space::RefKey::Def(y) && y@ == k),
        def_index(refs, k) is None ==> forall|j: int| 0 <= j < refs.len() ==> !((#[trigger] refs[j]).0 matches crate::space::RefKey::Def(y) && y@ == k),
    decreases refs.len(),
{
    if refs.len() > 0 {
        let p = refs.drop_last();
        lemma_def_index(p, k);
        if refs.last().0 matches crate::space::RefKey::Def(x) && x@ == k {
        } else {
            match def_index(p, k) {
                Some(i) => {
                    assert forall|j: int| i < j < refs.len() implies !((#[trigger] refs[j]).0 matches crate::space::RefKey::Def(y) && y@ == k) by {
                        if j < p.len() {
                            assert(p[j] == refs[j]);
                        }
                    }
                },
                None => {
                    assert forall|j: int| 0 <= j < refs.len() implies !((#[trigger] refs[j]).0 matches crate::space::RefKey::Def(y) && y@ == k) by {
                        if j < p.len() {
                            assert(p[j] == refs[j]);
                        }
                    }
                },
            }
        }
    }
}

proof fn lemma_def_index_at(refs: Seq<(crate::space::RefKey, crate::TypeId)>, k: Seq<char>, i: int)
    requires
        0 <= i < refs.len(),
        refs[i].0 matches crate::space::RefKey::Def(x) && x@ == k,
        forall|j: int| i < j < refs.len() ==> !((#[trigger] refs[j]).0 matches crate::space::RefKey::Def(y) && y@ == k),
    ensures
        def_index(refs, k) == Some(i),
{
    lemma_def_index(refs, k);
    match def_index(refs, k) {
        Some(p) => {
            if p < i {
            } else if p > i {
            }
        },
        None => {},
    }
}

/// Inserts a pair whose key is new into a list sorted by key.
fn insert_pair_sorted(out: &mut Vec<(String, String)>, k: String, n: String)
    requires
        crate::attrs::strictly_sorted(pair_keys(old(out)@)),
        !pair_keys(old(out)@).contains(k@),
    ensures
        crate::attrs::strictly_sorted(pair_keys(final(out)@)),
        forall|j: int| 0 <= j < final(out)@.len() ==> #[trigger] final(out)@[j] == (k, n) || old(out)@.contains(final(out)@[j]),
        forall|q: (String, String)| old(out)@.contains(q) ==> #[trigger] final(out)@.contains(q),
        final(out)@.contains((k, n)),
{
    let ghost o = out@;
    let mut pos: usize = 0;
    while pos < out.len() && crate::attrs::str_lt(out[pos].0.as_str(), k.as_str())
        invariant
            pos <= out.len(),
            out@ == o,
            forall|a: int| 0 <= a < pos ==> crate::attrs::lex_lt(#[trigger] o[a].0@, k@),
        decreases out.len() - pos,
    {
        pos = pos + 1;
    }
    proof {
        if pos < o.len() {
            assert(!crate::attrs::lex_lt(o[pos as int].0@, k@));
            assert(pair_keys(o)[pos as int] == o[pos as int].0@);
            assert(o[pos as int].0@ != k@);
            crate::attrs::lemma_lex_total(o[pos as int].0@, k@);
        }
    }
    let ghost p = (k, n);
    out.insert(pos, (k, n));
    let ghost w = out@;
    proof {
        assert(w == o.insert(pos as int, p));
        let ks = pair_keys(w);
        let ko = pair_keys(o);
        assert forall|a: int, b: int| 0 <= a < b < ks.len() implies crate::attrs::lex_lt(#[trigger] ks[a], #[trigger] ks[b]) by {
            assert(ks[a] == w[a].0@ && ks[b] == w[b].0@);
            if b < pos {
                assert(ko[a] == o[a].0@ && ko[b] == o[b].0@);
            } else if b == pos {
                assert(w[b] == p);
            } else if a < pos {
                assert(w[a] == o[a]);
                assert(w[b] == o[b - 1]);
                assert(ko[pos as int] == o[pos as int].0@);
                if b - 1 > pos {
                    assert(ko[b - 1] == o[b - 1].0@);
                    crate::attrs::lemma_lex_transitive(o[a].0@, k@, o[pos as int].0@);
                    crate::attrs::lemma_lex_transitive(o[a].0@, o[pos as int].0@, o[b - 1].0@);
                } else {
                    crate::attrs::lemma_lex_transitive(o[a].0@, k@, o[pos as int].0@);
                }
            } else if a == pos {
                assert(w[a] == p);
                assert(w[b] == o[b - 1]);
                if b - 1 > pos {
                    assert(ko[pos as int] == o[pos as int].0@);
                    assert(ko[b - 1] == o[b - 1].0@);
                    crate::attrs::lemma_lex_transitive(k@, o[pos as int].0@, o[b - 1].0@);
                }
            } else {
                assert(w[a] == o[a - 1] && w[b] == o[b - 1]);
                assert(ko[a - 1] == o[a - 1].0@ && ko[b - 1] == o[b - 1].0@);
            }
        }
        assert forall|j: int| 0 <= j < w.len() implies #[trigger] w[j] == p || o.contains(w[j]) by {
            if j < pos {
                assert(w[j] == o[j]);
            } else if j > pos {
                assert(w[j] == o[j - 1]);
            }
        }
        assert forall|q: (String, String)| o.contains(q) implies #[trigger] w.contains(q) by {
            let i = choose|i: int| 0 <= i < o.len() && o[i] == q;
            if i < pos {
                assert(w[i] == q);
            } else {
                assert(w[i + 1] == q);
            }
        }
        assert(w[pos as int] == p);
    }
}

impl TypeSpace {
    /// Each definition key whose type has an entry, with the name of the
    /// type emitted for it, in ascending order of the keys; the reference
    /// table keeps the last type given to a key.
    pub fn definition_rust_names(&self) -> (r: Vec<(String, String)>)
        requires
            definitions_named(*self),
        ensures
            definition_names_are(*self, r@),
    {
        let refs = &self.ref_to_id;
        let mut out: Vec<(String, String)> = Vec::new();
        let mut i: usize = 0;
        assert(pair_keys(out@) =~= Seq::<Seq<char>>::empty());
        assert forall|k: Seq<char>| #[trigger] def_name(*self, k) is Some && def_index(self.ref_to_id@, k)->0 < 0
            implies pair_keys(out@).contains(k) by {
            lemma_def_index(self.ref_to_id@, k);
        }
        while i < refs.len()
            invariant
                i <= refs.len(),
                refs == &self.ref_to_id,
                definitions_named(*self),
                crate::attrs::strictly_sorted(pair_keys(out@)),
                forall|j: int| 0 <= j < out@.len() ==> def_name(*self, #[trigger] out@[j].0@) == Some(out@[j].1@)
                    && def_index(self.ref_to_id@, out@[j].0@)->0 < i,
                forall|k: Seq<char>| #[trigger] def_name(*self, k) is Some && def_index(self.ref_to_id@, k)->0 < i
                    ==> pair_keys(out@).contains(k),
            decreases refs.len() - i,
        {
            if let crate::space::RefKey::Def(k) = &refs[i].0 {
                let mut last = true;
                let mut j: usize = i + 1;
                while j < refs.len()
                    invariant
                        i < j <= refs.len(),
                        refs == &self.ref_to_id,
                        refs@[i as int].0 matches crate::space::RefKey::Def(x) && x@ == k@,
                        last == forall|t: int| i < t < j ==> !((#[trigger] refs@[t]).0 matches crate::space::RefKey::Def(y) && y@ == k@),
                    decreases refs.len() - j,
                {
                    if let crate::space::RefKey::Def(k2) = &refs[j].0 {
                        if crate::strings::str_equal(k2.as_str(), k.as_str()) {
                            last = false;
                        }
                    }
                    j = j + 1;
                }
                if last {
                    proof {
                        lemma_def_index_at(self.ref_to_id@, k@, i as int);
                    }
                    if let Some(e) = self.get_entry(refs[i].1) {
                        let name = e.type_ident(self, &None);
                        proof {
                            let f = choose|f: nat| #[trigger] ident_within(*self, *e, None, f) is Some;
                            assert(ident_within(*self, *e, None, f) is Some);
                            assert(opt_chars(None) == None::<Seq<char>>);
                            assert(def_name(*self, k@) == Some(name@));
                            assert forall|j: int| 0 <= j < out@.len() implies pair_keys(out@)[j] != k@ by {
                                assert(pair_keys(out@)[j] == out@[j].0@);
                                assert(def_index(self.ref_to_id@, out@[j].0@)->0 < i);
                            }
                        }
                        let ghost before = out@;
                        let kc = k.clone();
                        let ghost gp = (kc, name);
                        insert_pair_sorted(&mut out, kc, name);
                        proof {
                            assert forall|j: int| 0 <= j < out@.len() implies def_name(*self, #[trigger] out@[j].0@) == Some(out@[j].1@)
                                && def_index(self.ref_to_id@, out@[j].0@)->0 < i + 1 by {
                                if !before.contains(out@[j]) {
                                    assert(out@[j] == gp);
                                } else {
                                    let t = choose|t: int| 0 <= t < before.len() && before[t] == out@[j];
                                    assert(def_name(*self, before[t].0@) == Some(before[t].1@));
                                }
                            }
                            assert forall|kk: Seq<char>| #[trigger] def_name(*self, kk) is Some && def_index(self.ref_to_id@, kk)->0 < i + 1
                                implies pair_keys(out@).contains(kk) by {
                                if kk == k@ {
                                    let t = choose|t: int| 0 <= t < out@.len() && out@[t] == gp;
                                    assert(pair_keys(out@)[t] == kk);
                                } else {
                                    lemma_def_index(self.ref_to_id@, kk);
                                    assert(def_index(self.ref_to_id@, kk)->0 != i);
                                    assert(pair_keys(before).contains(kk));
                                    let t = choose|t: int| 0 <= t < before.len() && pair_keys(before)[t] == kk;
                                    assert(before.contains(before[t]));
                                    assert(out@.contains(before[t]));
                                    let u = choose|u: int| 0 <= u < out@.len() && out@[u] == before[t];
                                    assert(pair_keys(out@)[u] == kk);
                                }
                            }
                        }
                    } else {
                        proof {
                            assert(def_name(*self, k@) is None);
                            assert forall|kk: Seq<char>| #[trigger] def_name(*self, kk) is Some && def_index(self.ref_to_id@, kk)->0 < i + 1
                                implies pair_keys(out@).contains(kk) by {
                                if kk != k@ {
                                    lemma_def_index(self.ref_to_id@, kk);
                                }
                            }
                        }
                    }
                } else {
                    proof {
                        assert forall|kk: Seq<char>| #[trigger] def_name(*self, kk) is Some && def_index(self.ref_to_id@, kk)->0 < i + 1
                            implies pair_keys(out@).contains(kk) by {
                            lemma_def_index(self.ref_to_id@, kk);
                        }
                    }
                }
            } else {
                proof {
                    assert forall|kk: Seq<char>| #[trigger] def_name(*self, kk) is Some && def_index(self.ref_to_id@, kk)->0 < i + 1
                        implies pair_keys(out@).contains(kk) by {
                        lemma_def_index(self.ref_to_id@, kk);
                    }
                }
            }
            i = i + 1;
        }
        proof {
            assert forall|k: Seq<char>| #[trigger] def_name(*self, k) is Some implies pair_keys(out@).contains(k) by {
                lemma_def_index(self.ref_to_id@, k);
            }
        }
        out
    }
}

/// The id of the one type a `Box`, `Vec`, `Option` or set entry wraps.
pub open spec fn wrapped_id(d: TypeEntryDetails) -> crate::TypeId {
    match d {
        TypeEntryDetails::Box(id) => id,
        TypeEntryDetails::Vec(id) => id,
        TypeEntryDetails::Option(id) => id,
        TypeEntryDetails::SetOf(id) => id,
        _ => arbitrary(),
    }
}

proof fn lemma_wrapped_ident(space: TypeSpace, e: TypeEntry, m: Option<Seq<char>>) -> (f: nat)
    requires
        e.details is Box || e.details is Vec || e.details is Option || e.details is SetOf,
        entry_of(space, wrapped_id(e.details)) is Some,
    ensures
        ident_defined(space, e, m) <==> ident_defined(space, entry_of(space, wrapped_id(e.details))->0, m),
        ident_defined(space, entry_of(space, wrapped_id(e.details))->0, m) ==> {
            &&& ident_within(space, e, m, f + 1) is Some
            &&& spec_ident(space, e, m) == ident_within(space, e, m, f + 1)->0
            &&& ident_within(space, entry_of(space, wrapped_id(e.details))->0, m, f) == Some(spec_ident(space, entry_of(space,
                wrapped_id(e.details))->0, m))
        },
{
    let id = wrapped_id(e.details);
    let inner = entry_of(space, id)->0;
    let mut g: nat = 0;
    if ident_defined(space, inner, m) {
        g = choose|f: nat| #[trigger] ident_within(space, inner, m, f) is Some;
        assert(ident_of_id(space, id, m, g + 1) == ident_within(space, inner, m, g));
        assert(ident_within(space, e, m, g + 1) is Some);
        let f = choose|f: nat| #[trigger] ident_within(space, e, m, f) is Some;
        assert(f >= 1) by {
            if f == 0 {
                assert(ident_of_id(space, id, m, 0) is None);
            }
        }
        let h = (f - 1) as nat;
        assert(ident_of_id(space, id, m, f) == ident_within(space, inner, m, h));
        assert(ident_within(space, inner, m, h) is Some);
        if h <= g {
            lemma_ident_within_mono(space, inner, m, h, g);
            lemma_ident_within_mono(space, e, m, f, g + 1);
        } else {
            lemma_ident_within_mono(space, inner, m, g, h);
            lemma_ident_within_mono(space, e, m, g + 1, f);
        }
    }
    if ident_defined(space, e, m) {
        let f = choose|f: nat| #[trigger] ident_within(space, e, m, f) is Some;
        assert(f >= 1) by {
            if f == 0 {
                assert(ident_of_id(space, id, m, 0) is None);
            }
        }
        assert(ident_within(space, inner, m, (f - 1) as nat) is Some);
    }
    g
}

/// The type expression of a `Box` entry wraps that of its inner type:
/// `::std::boxed::Box<t>` where the inner type's expression is `t` (in
/// the same module); it is defined exactly where the inner one is.
pub proof fn law_box_ident(space: TypeSpace, e: TypeEntry, m: Option<Seq<char>>)
    requires
        e.details matches TypeEntryDetails::Box(id) && entry_of(space, id) is Some,
    ensures
        ({
            let inner = entry_of(space, e.details->Box_0)->0;
            &&& ident_defined(space, e, m) <==> ident_defined(space, inner, m)
            &&& ident_defined(space, inner, m) ==> spec_ident(space, e, m) == "::std::boxed::Box<"@ + spec_ident(space, inner, m)
                + ">"@
        }),
{
    let f = lemma_wrapped_ident(space, e, m);
}

/// The type expression of a `Vec` entry is `::std::vec::Vec<t>` where its
/// item type's expression is `t`; it is defined exactly where that one is.
pub proof fn law_vec_ident(space: TypeSpace, e: TypeEntry, m: Option<Seq<char>>)
    requires
        e.details matches TypeEntryDetails::Vec(id) && entry_of(space, id) is Some,
    ensures
        ({
            let inner = entry_of(space, e.details->Vec_0)->0;
            &&& ident_defined(space, e, m) <==> ident_defined(space, inner, m)
            &&& ident_defined(space, inner, m) ==> spec_ident(space, e, m) == "::std::vec::Vec<"@ + spec_ident(space, inner, m)
                + ">"@
        }),
{
    let f = lemma_wrapped_ident(space, e, m);
}

/// The type expression of an `Option` entry is `::std::option::Option<t>`
/// where its inner type's expression is `t`, except that an option of an
/// option is not wrapped twice; it is defined exactly where the inner one
/// is.
pub proof fn law_option_ident(space: TypeSpace, e: TypeEntry, m: Option<Seq<char>>)
    requires
        e.details matches TypeEntryDetails::Option(id) && entry_of(space, id) is Some,
    ensures
        ({
            let inner = entry_of(space, e.details->Option_0)->0;
            &&& ident_defined(space, e, m) <==> ident_defined(space, inner, m)
            &&& ident_defined(space, inner, m) && !(inner.details is Option) ==> spec_ident(space, e, m)
                == "::std::option::Option<"@ + spec_ident(space, inner, m) + ">"@
            &&& ident_defined(space, inner, m) && inner.details is Option ==> spec_ident(space, e, m) == spec_ident(space, inner, m)
        }),
{
    let f = lemma_wrapped_ident(space, e, m);
}

} // verus!
