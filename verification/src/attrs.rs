//! The derive and attribute lists emitted around a generated type, chosen
//! from the settings for the type's kind.
//!
//! Derives and attributes are given as Rust source text; the code that
//! emits them parses each into tokens.

use vstd::prelude::*;

use crate::settings::{AttrPosition, TypeSpaceSettings, seq_has, strings_view};
use crate::strings::{chars_of, str_equal};
use crate::space::{entry_of, TypeSpace};
use crate::type_entry::{StructProperty, StructPropertyRename, TypeEntry, TypeEntryDetails};
use crate::{TypeKind, TypeKindFilter};

verus! {

/// Lexicographic order of character sequences, by code point (the order of
/// `str`).
pub open spec fn lex_lt(a: Seq<char>, b: Seq<char>) -> bool
    decreases a.len(),
{
    if a.len() == 0 {
        b.len() > 0
    } else if b.len() == 0 {
        false
    } else if a[0] != b[0] {
        (a[0] as int) < (b[0] as int)
    } else {
        lex_lt(a.drop_first(), b.drop_first())
    }
}

/// `lex_lt` is irreflexive.
pub proof fn lemma_lex_irreflexive(a: Seq<char>)
    ensures
        !lex_lt(a, a),
    decreases a.len(),
{
    if a.len() > 0 {
        lemma_lex_irreflexive(a.drop_first());
    }
}

/// `lex_lt` is transitive.
pub proof fn lemma_lex_transitive(a: Seq<char>, b: Seq<char>, c: Seq<char>)
    requires
        lex_lt(a, b),
        lex_lt(b, c),
    ensures
        lex_lt(a, c),
    decreases a.len(),
{
    if a.len() > 0 && b.len() > 0 && c.len() > 0 {
        if a[0] == b[0] && b[0] == c[0] {
            lemma_lex_transitive(a.drop_first(), b.drop_first(), c.drop_first());
        }
    }
}

/// Two sequences are equal or ordered one way or the other.
pub proof fn lemma_lex_total(a: Seq<char>, b: Seq<char>)
    ensures
        lex_lt(a, b) || lex_lt(b, a) || a == b,
    decreases a.len(),
{
    if a.len() > 0 && b.len() > 0 {
        if a[0] == b[0] {
            lemma_lex_total(a.drop_first(), b.drop_first());
            if a.drop_first() == b.drop_first() {
                assert(a =~= seq![a[0]] + a.drop_first());
                assert(b =~= seq![b[0]] + b.drop_first());
            }
        }
    } else if a.len() == 0 && b.len() == 0 {
        assert(a =~= b);
    }
}

/// Whether `s` is in strictly increasing order: sorted without
/// duplicates.
pub open spec fn strictly_sorted(s: Seq<Seq<char>>) -> bool {
    forall|i: int, j: int| 0 <= i < j < s.len() ==> lex_lt(#[trigger] s[i], #[trigger] s[j])
}

/// Whether `a` comes strictly before `b`.
pub fn str_lt(a: &str, b: &str) -> (r: bool)
    ensures
        r == lex_lt(a@, b@),
{
    let x = chars_of(a);
    let y = chars_of(b);
    let mut i: usize = 0;
    assert(a@.skip(0) =~= a@);
    assert(b@.skip(0) =~= b@);
    while i < x.len() && i < y.len()
        invariant
            i <= x.len(),
            i <= y.len(),
            x@ == a@,
            y@ == b@,
            forall|k: int| 0 <= k < i ==> x@[k] == y@[k],
            lex_lt(a@, b@) == lex_lt(a@.skip(i as int), b@.skip(i as int)),
        decreases x.len() - i,
    {
        let ghost sa = a@.skip(i as int);
        let ghost sb = b@.skip(i as int);
        assert(sa[0] == x@[i as int]);
        assert(sb[0] == y@[i as int]);
        if x[i] != y[i] {
            return x[i] < y[i];
        }
        assert(sa.drop_first() =~= a@.skip(i + 1));
        assert(sb.drop_first() =~= b@.skip(i + 1));
        i = i + 1;
    }
    i == x.len() && i < y.len()
}

/// Inserts `x` into the strictly sorted `v` unless it is there.
pub fn sorted_insert(v: &mut Vec<String>, x: &str)
    requires
        strictly_sorted(strings_view(old(v)@)),
    ensures
        strictly_sorted(strings_view(final(v)@)),
        forall|y: Seq<char>| seq_has(strings_view(final(v)@), y) <==> (seq_has(strings_view(old(v)@), y) || y == x@),
{
    let ghost s0 = strings_view(v@);
    let mut i: usize = 0;
    while i < v.len() && str_lt(v[i].as_str(), x)
        invariant
            i <= v.len(),
            v@ == old(v)@,
            s0 == strings_view(v@),
            forall|k: int| 0 <= k < i ==> lex_lt(#[trigger] s0[k], x@),
        decreases v.len() - i,
    {
        i = i + 1;
    }
    if i < v.len() && str_equal(v[i].as_str(), x) {
        assert(s0[i as int] == x@);
        assert(seq_has(s0, x@));
        return;
    }
    proof {
        if i < v.len() {
            lemma_lex_total(s0[i as int], x@);
            assert forall|k: int| i <= k < s0.len() implies lex_lt(x@, #[trigger] s0[k]) by {
                if k > i {
                    lemma_lex_transitive(x@, s0[i as int], s0[k]);
                }
            }
        }
    }
    v.insert(i, crate::strings::string_of(x));
    let ghost s1 = strings_view(v@);
    assert(s1 =~= s0.insert(i as int, x@));
    assert forall|a: int, b: int| 0 <= a < b < s1.len() implies lex_lt(#[trigger] s1[a], #[trigger] s1[b]) by {
        if a < i && b > i {
            assert(s1[b] == s0[b - 1]);
            assert(lex_lt(x@, s0[b - 1]));
            lemma_lex_transitive(s1[a], x@, s1[b]);
        } else if a == i {
            assert(s1[b] == s0[b - 1]);
        } else if a > i {
            assert(s1[a] == s0[a - 1]);
            assert(s1[b] == s0[b - 1]);
        }
    }
    assert forall|y: Seq<char>| seq_has(s1, y) <==> (seq_has(s0, y) || y == x@) by {
        if seq_has(s1, y) {
            let k = choose|k: int| 0 <= k < s1.len() && s1[k] == y;
            if k < i {
                assert(s0[k] == y);
            } else if k > i {
                assert(s0[k - 1] == y);
            }
        }
        if seq_has(s0, y) {
            let k = choose|k: int| 0 <= k < s0.len() && s0[k] == y;
            if k < i {
                assert(s1[k] == y);
            } else {
                assert(s1[k + 1] == y);
            }
        }
        if y == x@ {
            assert(s1[i as int] == y);
        }
    }
}

/// The strictly sorted union of the strings of `a` and `b`.
pub fn sorted_union(a: &Vec<String>, b: &Vec<String>) -> (r: Vec<String>)
    ensures
        strictly_sorted(strings_view(r@)),
        forall|y: Seq<char>| seq_has(strings_view(r@), y) <==> (seq_has(strings_view(a@), y) || seq_has(strings_view(b@), y)),
{
    let mut out: Vec<String> = Vec::new();
    let mut i: usize = 0;
    while i < a.len()
        invariant
            i <= a.len(),
            strictly_sorted(strings_view(out@)),
            forall|y: Seq<char>| seq_has(strings_view(out@), y) <==> seq_has(strings_view(a@).take(i as int), y),
        decreases a.len() - i,
    {
        sorted_insert(&mut out, a[i].as_str());
        proof {
            let t = strings_view(a@).take(i + 1);
            assert(t =~= strings_view(a@).take(i as int).push(a@[i as int]@));
            assert forall|y: Seq<char>| seq_has(t, y) <==> (seq_has(strings_view(a@).take(i as int), y) || y == a@[i as int]@) by {
                crate::settings::lemma_seq_has_push(strings_view(a@).take(i as int), a@[i as int]@, y);
            }
        }
        i = i + 1;
    }
    assert(strings_view(a@).take(a.len() as int) =~= strings_view(a@));
    let mut j: usize = 0;
    while j < b.len()
        invariant
            j <= b.len(),
            strictly_sorted(strings_view(out@)),
            forall|y: Seq<char>| seq_has(strings_view(out@), y) <==> (seq_has(strings_view(a@), y) || seq_has(strings_view(b@).take(j as int), y)),
        decreases b.len() - j,
    {
        sorted_insert(&mut out, b[j].as_str());
        proof {
            let t = strings_view(b@).take(j + 1);
            assert(t =~= strings_view(b@).take(j as int).push(b@[j as int]@));
            assert forall|y: Seq<char>| seq_has(t, y) <==> (seq_has(strings_view(b@).take(j as int), y) || y == b@[j as int]@) by {
                crate::settings::lemma_seq_has_push(strings_view(b@).take(j as int), b@[j as int]@, y);
            }
        }
        j = j + 1;
    }
    assert(strings_view(b@).take(b.len() as int) =~= strings_view(b@));
    out
}


/// The derives of the unconditional derives that select `kind`, in order.
pub open spec fn selected_derives(s: Seq<crate::settings::UnconditionalDerive>, kind: TypeKind) -> Seq<Seq<char>>
    decreases s.len(),
{
    if s.len() == 0 {
        Seq::empty()
    } else if s.last().kinds.selects(kind) {
        selected_derives(s.drop_last(), kind).push(s.last().derive@)
    } else {
        selected_derives(s.drop_last(), kind)
    }
}

/// `acc` with each of `xs` appended, in order, unless already there.
pub open spec fn push_all_unique(acc: Seq<Seq<char>>, xs: Seq<Seq<char>>) -> Seq<Seq<char>>
    decreases xs.len(),
{
    if xs.len() == 0 {
        acc
    } else {
        crate::settings::push_unique(push_all_unique(acc, xs.drop_last()), xs.last())
    }
}

/// `s` without the values of `denied`, in order.
pub open spec fn without(s: Seq<Seq<char>>, denied: Seq<Seq<char>>) -> Seq<Seq<char>>
    decreases s.len(),
{
    if s.len() == 0 {
        s
    } else if seq_has(denied, s.last()) {
        without(s.drop_last(), denied)
    } else {
        without(s.drop_last(), denied).push(s.last())
    }
}

/// Whether `e` is the sorted set of the values of `a`, `b` and `c`.
pub open spec fn is_sorted_set_of(e: Seq<Seq<char>>, a: Seq<Seq<char>>, b: Seq<Seq<char>>, c: Seq<Seq<char>>) -> bool {
    &&& strictly_sorted(e)
    &&& forall|y: Seq<char>| seq_has(e, y) <==> (seq_has(a, y) || seq_has(b, y) || seq_has(c, y))
}

/// Whether `r` is the derive list of a type of kind `kind`: where no
/// unconditional derive selects the kind, the sorted set of the base
/// derives, the extra derives and the type's own; otherwise the selected
/// unconditional derives in insertion order, followed by the sorted set of
/// the extra derives and the type's own; either way without duplicates and
/// without the denied derives.
pub open spec fn is_derive_list(
    r: Seq<Seq<char>>,
    settings: TypeSpaceSettings,
    kind: TypeKind,
    base: Seq<Seq<char>>,
    own: Seq<Seq<char>>,
    extra: Seq<Seq<char>>,
    denied: Seq<Seq<char>>,
) -> bool {
    let u = selected_derives(settings.unconditional_derives@, kind);
    exists|e: Seq<Seq<char>>| {
        &&& (u.len() == 0 ==> is_sorted_set_of(e, base, extra, own))
        &&& (u.len() > 0 ==> is_sorted_set_of(e, Seq::empty(), extra, own))
        &&& r == without(
            if u.len() == 0 {
                e
            } else {
                push_all_unique(push_all_unique(Seq::empty(), u), e)
            },
            denied,
        )
    }
}

fn push_all_unique_exec(acc: &mut Vec<String>, xs: &Vec<String>)
    ensures
        strings_view(final(acc)@) == push_all_unique(strings_view(old(acc)@), strings_view(xs@)),
{
    let mut i: usize = 0;
    assert(strings_view(xs@).take(0) =~= Seq::<Seq<char>>::empty());
    while i < xs.len()
        invariant
            i <= xs.len(),
            strings_view(acc@) == push_all_unique(strings_view(old(acc)@), strings_view(xs@).take(i as int)),
        decreases xs.len() - i,
    {
        let ghost t = strings_view(xs@).take(i + 1);
        assert(t.drop_last() =~= strings_view(xs@).take(i as int));
        assert(t.last() == xs@[i as int]@);
        if !crate::settings::contains_string(acc, xs[i].as_str()) {
            let ghost before = strings_view(acc@);
            acc.push(xs[i].clone());
            assert(strings_view(acc@) =~= before.push(xs@[i as int]@));
        }
        i = i + 1;
    }
    assert(strings_view(xs@).take(xs.len() as int) =~= strings_view(xs@));
}

pub(crate) fn without_exec(xs: &Vec<String>, denied: &Vec<String>) -> (r: Vec<String>)
    ensures
        strings_view(r@) == without(strings_view(xs@), strings_view(denied@)),
{
    let mut out: Vec<String> = Vec::new();
    let mut i: usize = 0;
    assert(strings_view(xs@).take(0) =~= Seq::<Seq<char>>::empty());
    while i < xs.len()
        invariant
            i <= xs.len(),
            strings_view(out@) == without(strings_view(xs@).take(i as int), strings_view(denied@)),
        decreases xs.len() - i,
    {
        let ghost t = strings_view(xs@).take(i + 1);
        assert(t.drop_last() =~= strings_view(xs@).take(i as int));
        assert(t.last() == xs@[i as int]@);
        if !crate::settings::contains_string(denied, xs[i].as_str()) {
            let ghost before = strings_view(out@);
            out.push(xs[i].clone());
            assert(strings_view(out@) =~= before.push(xs@[i as int]@));
        }
        i = i + 1;
    }
    assert(strings_view(xs@).take(xs.len() as int) =~= strings_view(xs@));
    out
}

/// The ordered list of derive paths emitted for a type of kind `kind`
/// (see [`is_derive_list`]).
pub fn compute_derive_list_denying(
    settings: &TypeSpaceSettings,
    kind: TypeKind,
    base: &Vec<String>,
    own: &Vec<String>,
    extra: &Vec<String>,
    denied: &Vec<String>,
) -> (r: Vec<String>)
    ensures
        is_derive_list(strings_view(r@), *settings, kind, strings_view(base@), strings_view(own@), strings_view(extra@), strings_view(denied@)),
{
    let ghost uv = selected_derives(settings.unconditional_derives@, kind);
    let mut uncond: Vec<String> = Vec::new();
    let mut i: usize = 0;
    assert(settings.unconditional_derives@.take(0) =~= Seq::<crate::settings::UnconditionalDerive>::empty());
    while i < settings.unconditional_derives.len()
        invariant
            i <= settings.unconditional_derives.len(),
            strings_view(uncond@) == selected_derives(settings.unconditional_derives@.take(i as int), kind),
        decreases settings.unconditional_derives.len() - i,
    {
        let ghost t = settings.unconditional_derives@.take(i + 1);
        assert(t.drop_last() =~= settings.unconditional_derives@.take(i as int));
        let u = &settings.unconditional_derives[i];
        if u.kinds.matches(kind) {
            let ghost before = strings_view(uncond@);
            uncond.push(u.derive.clone());
            assert(strings_view(uncond@) =~= before.push(u.derive@));
        }
        i = i + 1;
    }
    assert(settings.unconditional_derives@.take(settings.unconditional_derives.len() as int) =~= settings.unconditional_derives@);
    let list = if uncond.len() == 0 {
        let c = sorted_union(base, extra);
        let e = sorted_union(&c, own);
        assert(is_sorted_set_of(strings_view(e@), strings_view(base@), strings_view(extra@), strings_view(own@)));
        e
    } else {
        let mut out: Vec<String> = Vec::new();
        assert(strings_view(out@) =~= Seq::<Seq<char>>::empty());
        push_all_unique_exec(&mut out, &uncond);
        let e = sorted_union(extra, own);
        assert(is_sorted_set_of(strings_view(e@), Seq::empty(), strings_view(extra@), strings_view(own@)));
        push_all_unique_exec(&mut out, &e);
        proof {
            assert(strings_view(out@) == push_all_unique(push_all_unique(Seq::empty(), uv), strings_view(e@)));
        }
        out
    };
    let r = without_exec(&list, denied);
    r
}


/// The attributes of the unconditional attributes that select `kind` and
/// stand at `pos`, in order.
pub open spec fn uncond_attrs_at(s: Seq<crate::settings::UnconditionalAttr>, kind: TypeKind, pos: AttrPosition) -> Seq<Seq<char>>
    decreases s.len(),
{
    if s.len() == 0 {
        Seq::empty()
    } else if s.last().kinds.selects(kind) && s.last().position == pos {
        uncond_attrs_at(s.drop_last(), kind, pos).push(s.last().attr@)
    } else {
        uncond_attrs_at(s.drop_last(), kind, pos)
    }
}

/// The features and attributes of the conditional attributes that select
/// `kind` and stand at `pos`, in order.
pub open spec fn cond_attrs_at(s: Seq<crate::settings::ConditionalAttr>, kind: TypeKind, pos: AttrPosition) -> Seq<(Seq<char>, Seq<char>)>
    decreases s.len(),
{
    if s.len() == 0 {
        Seq::empty()
    } else if s.last().kinds.selects(kind) && s.last().position == pos {
        cond_attrs_at(s.drop_last(), kind, pos).push((s.last().cfg@, s.last().attr@))
    } else {
        cond_attrs_at(s.drop_last(), kind, pos)
    }
}

/// The features and derives of the conditional derives that select `kind`,
/// in order.
pub open spec fn cond_derives_for(s: Seq<crate::settings::ConditionalDerive>, kind: TypeKind) -> Seq<(Seq<char>, Seq<char>)>
    decreases s.len(),
{
    if s.len() == 0 {
        Seq::empty()
    } else if s.last().kinds.selects(kind) {
        cond_derives_for(s.drop_last(), kind).push((s.last().cfg@, s.last().derive@))
    } else {
        cond_derives_for(s.drop_last(), kind)
    }
}

/// The features and texts of pairs of strings.
pub open spec fn pairs_view(s: Seq<(String, String)>) -> Seq<(Seq<char>, Seq<char>)> {
    s.map_values(|p: (String, String)| (p.0@, p.1@))
}

/// The attribute and derive lines emitted around a generated type's main
/// derive, grouped by position: unconditional attributes before and after
/// it, conditional attributes (feature, attribute) before and after it, and
/// conditional derives (feature, derive), which always come before it.
#[derive(Debug)]
pub struct TypeAttrLists {
    pub uncond_pre: Vec<String>,
    pub uncond_post: Vec<String>,
    pub cond_pre: Vec<(String, String)>,
    pub cond_post: Vec<(String, String)>,
    pub cond_derives: Vec<(String, String)>,
}

/// Every conditional and unconditional attribute and derive of the settings
/// that applies to a type of kind `kind`, in insertion order within each
/// list.
pub fn type_attr_lists(settings: &TypeSpaceSettings, kind: TypeKind) -> (r: TypeAttrLists)
    ensures
        strings_view(r.uncond_pre@) == uncond_attrs_at(settings.unconditional_attrs@, kind, AttrPosition::BeforeDerive),
        strings_view(r.uncond_post@) == uncond_attrs_at(settings.unconditional_attrs@, kind, AttrPosition::AfterDerive),
        pairs_view(r.cond_pre@) == cond_attrs_at(settings.conditional_attrs@, kind, AttrPosition::BeforeDerive),
        pairs_view(r.cond_post@) == cond_attrs_at(settings.conditional_attrs@, kind, AttrPosition::AfterDerive),
        pairs_view(r.cond_derives@) == cond_derives_for(settings.conditional_derives@, kind),
{
    let mut lists = TypeAttrLists {
        uncond_pre: Vec::new(),
        uncond_post: Vec::new(),
        cond_pre: Vec::new(),
        cond_post: Vec::new(),
        cond_derives: Vec::new(),
    };
    let ghost ua = settings.unconditional_attrs@;
    let mut i: usize = 0;
    assert(ua.take(0) =~= Seq::<crate::settings::UnconditionalAttr>::empty());
    assert(strings_view(lists.uncond_pre@) =~= Seq::<Seq<char>>::empty());
    assert(strings_view(lists.uncond_post@) =~= Seq::<Seq<char>>::empty());
    while i < settings.unconditional_attrs.len()
        invariant
            i <= ua.len(),
            ua == settings.unconditional_attrs@,
            strings_view(lists.uncond_pre@) == uncond_attrs_at(ua.take(i as int), kind, AttrPosition::BeforeDerive),
            strings_view(lists.uncond_post@) == uncond_attrs_at(ua.take(i as int), kind, AttrPosition::AfterDerive),
            lists.cond_pre@.len() == 0,
            lists.cond_post@.len() == 0,
            lists.cond_derives@.len() == 0,
        decreases ua.len() - i,
    {
        assert(ua.take(i + 1).drop_last() =~= ua.take(i as int));
        let entry = &settings.unconditional_attrs[i];
        if entry.kinds.matches(kind) {
            match entry.position {
                AttrPosition::BeforeDerive => {
                    let ghost before = strings_view(lists.uncond_pre@);
                    lists.uncond_pre.push(entry.attr.clone());
                    assert(strings_view(lists.uncond_pre@) =~= before.push(entry.attr@));
                },
                AttrPosition::AfterDerive => {
                    let ghost before = strings_view(lists.uncond_post@);
                    lists.uncond_post.push(entry.attr.clone());
                    assert(strings_view(lists.uncond_post@) =~= before.push(entry.attr@));
                },
            }
        }
        i = i + 1;
    }
    assert(ua.take(ua.len() as int) =~= ua);
    let ghost ca = settings.conditional_attrs@;
    let mut j: usize = 0;
    assert(ca.take(0) =~= Seq::<crate::settings::ConditionalAttr>::empty());
    assert(pairs_view(lists.cond_pre@) =~= Seq::<(Seq<char>, Seq<char>)>::empty());
    assert(pairs_view(lists.cond_post@) =~= Seq::<(Seq<char>, Seq<char>)>::empty());
    while j < settings.conditional_attrs.len()
        invariant
            j <= ca.len(),
            ca == settings.conditional_attrs@,
            strings_view(lists.uncond_pre@) == uncond_attrs_at(ua, kind, AttrPosition::BeforeDerive),
            strings_view(lists.uncond_post@) == uncond_attrs_at(ua, kind, AttrPosition::AfterDerive),
            pairs_view(lists.cond_pre@) == cond_attrs_at(ca.take(j as int), kind, AttrPosition::BeforeDerive),
            pairs_view(lists.cond_post@) == cond_attrs_at(ca.take(j as int), kind, AttrPosition::AfterDerive),
            lists.cond_derives@.len() == 0,
        decreases ca.len() - j,
    {
        assert(ca.take(j + 1).drop_last() =~= ca.take(j as int));
        let entry = &settings.conditional_attrs[j];
        if entry.kinds.matches(kind) {
            match entry.position {
                AttrPosition::BeforeDerive => {
                    let ghost before = pairs_view(lists.cond_pre@);
                    lists.cond_pre.push((entry.cfg.clone(), entry.attr.clone()));
                    assert(pairs_view(lists.cond_pre@) =~= before.push((entry.cfg@, entry.attr@)));
                },
                AttrPosition::AfterDerive => {
                    let ghost before = pairs_view(lists.cond_post@);
                    lists.cond_post.push((entry.cfg.clone(), entry.attr.clone()));
                    assert(pairs_view(lists.cond_post@) =~= before.push((entry.cfg@, entry.attr@)));
                },
            }
        }
        j = j + 1;
    }
    assert(ca.take(ca.len() as int) =~= ca);
    let ghost cd = settings.conditional_derives@;
    let mut k: usize = 0;
    assert(cd.take(0) =~= Seq::<crate::settings::ConditionalDerive>::empty());
    assert(pairs_view(lists.cond_derives@) =~= Seq::<(Seq<char>, Seq<char>)>::empty());
    while k < settings.conditional_derives.len()
        invariant
            k <= cd.len(),
            cd == settings.conditional_derives@,
            strings_view(lists.uncond_pre@) == uncond_attrs_at(ua, kind, AttrPosition::BeforeDerive),
            strings_view(lists.uncond_post@) == uncond_attrs_at(ua, kind, AttrPosition::AfterDerive),
            pairs_view(lists.cond_pre@) == cond_attrs_at(ca, kind, AttrPosition::BeforeDerive),
            pairs_view(lists.cond_post@) == cond_attrs_at(ca, kind, AttrPosition::AfterDerive),
            pairs_view(lists.cond_derives@) == cond_derives_for(cd.take(k as int), kind),
        decreases cd.len() - k,
    {
        assert(cd.take(k + 1).drop_last() =~= cd.take(k as int));
        let entry = &settings.conditional_derives[k];
        if entry.kinds.matches(kind) {
            let ghost before = pairs_view(lists.cond_derives@);
            lists.cond_derives.push((entry.cfg.clone(), entry.derive.clone()));
            assert(pairs_view(lists.cond_derives@) =~= before.push((entry.cfg@, entry.derive@)));
        }
        k = k + 1;
    }
    assert(cd.take(cd.len() as int) =~= cd);
    lists
}

/// The type's own attributes and the extra attributes of the settings, as
/// one sorted list without duplicates.
pub fn strings_to_attrs(own: &Vec<String>, extra: &Vec<String>) -> (r: Vec<String>)
    ensures
        is_sorted_set_of(strings_view(r@), Seq::empty(), strings_view(extra@), strings_view(own@)),
{
    sorted_union(extra, own)
}


/// The ordered list of derive paths emitted for a type of kind `kind`, with
/// nothing denied (see [`is_derive_list`]).
pub fn compute_derive_list(
    settings: &TypeSpaceSettings,
    kind: TypeKind,
    base: &Vec<String>,
    own: &Vec<String>,
    extra: &Vec<String>,
) -> (r: Vec<String>)
    ensures
        is_derive_list(strings_view(r@), *settings, kind, strings_view(base@), strings_view(own@), strings_view(extra@), Seq::empty()),
{
    let denied: Vec<String> = Vec::new();
    assert(strings_view(denied@) =~= Seq::<Seq<char>>::empty());
    compute_derive_list_denying(settings, kind, base, own, extra, &denied)
}

/// The human-readable part of a generated type's doc comment: its
/// description, or else its name in backticks.
pub fn doc_description(name: &str, description: Option<&String>) -> (r: String)
    ensures
        match description {
            Some(d) => r@ == d@,
            None => r@ == "`"@ + name@ + "`"@,
        },
{
    match description {
        Some(d) => d.clone(),
        None => {
            let mut s = crate::strings::string_of("`");
            crate::strings::push_str(&mut s, name);
            crate::strings::push_str(&mut s, "`");
            s
        },
    }
}

/// The struct that a property's deep-patch attribute would name: the
/// property is not flattened, the settings say something about deep patches
/// (a per-field filter, or the bulk policy on), and the property's type is
/// `Option` of a generated struct (possibly boxed).
pub open spec fn spec_deep_patch_inner(space: TypeSpace, prop: StructProperty, has_filter: bool) -> Option<Seq<char>> {
    if prop.rename is Flatten {
        None
    } else if !has_filter && space.settings.deep_patches == crate::settings::DeepPatchPolicy::Off {
        None
    } else {
        match entry_of(space, prop.type_id) {
            Some(outer) => match outer.details {
                TypeEntryDetails::Option(inner_id) => match entry_of(space, inner_id) {
                    Some(inner) => {
                        let target = match inner.details {
                            TypeEntryDetails::Box(id) => entry_of(space, id),
                            _ => Some(inner),
                        };
                        match target {
                            Some(t) => match t.details {
                                TypeEntryDetails::Struct(st) => Some(st.name@),
                                _ => None,
                            },
                            None => None,
                        }
                    },
                    None => None,
                },
                _ => None,
            },
            None => None,
        }
    }
}

/// The name of the struct that a property's deep-patch attribute would name
/// (see [`spec_deep_patch_inner`]); `has_filter` says whether a per-field
/// filter is configured.
pub fn deep_patch_inner<'a>(space: &'a TypeSpace, prop: &StructProperty, has_filter: bool) -> (r: Option<&'a str>)
    ensures
        match r {
            Some(n) => spec_deep_patch_inner(*space, *prop, has_filter) == Some(n@),
            None => spec_deep_patch_inner(*space, *prop, has_filter) is None,
        },
{
    if let StructPropertyRename::Flatten = prop.rename {
        return None;
    }
    let off = match space.settings.deep_patches {
        crate::settings::DeepPatchPolicy::Off => true,
        _ => false,
    };
    if !has_filter && off {
        return None;
    }
    let outer = match space.get_entry(prop.type_id) {
        Some(e) => e,
        None => {
            return None;
        },
    };
    let inner_id = match &outer.details {
        TypeEntryDetails::Option(id) => *id,
        _ => {
            return None;
        },
    };
    let mut inner: &'a TypeEntry = match space.get_entry(inner_id) {
        Some(e) => e,
        None => {
            return None;
        },
    };
    if let TypeEntryDetails::Box(id) = &inner.details {
        inner = match space.get_entry(*id) {
            Some(e) => e,
            None => {
                return None;
            },
        };
    }
    match &inner.details {
        TypeEntryDetails::Struct(st) => Some(st.name.as_str()),
        _ => None,
    }
}

/// Whether a deep-patch attribute is emitted for a field: the per-field
/// filter's answer where there is a filter, else whether the bulk policy
/// covers every `Option` struct field.
pub fn deep_patch_allowed(settings: &TypeSpaceSettings, filter_answer: Option<bool>) -> (r: bool)
    ensures
        r == match filter_answer {
            Some(a) => a,
            None => settings.deep_patches == crate::settings::DeepPatchPolicy::AllOptionStructs,
        },
{
    match filter_answer {
        Some(a) => a,
        None => match settings.deep_patches {
            crate::settings::DeepPatchPolicy::AllOptionStructs => true,
            _ => false,
        },
    }
}

/// The patch type named by a deep-patch attribute for the struct `inner`:
/// `Option<{inner}Patch>`.
pub fn deep_patch_name(inner: &str) -> (r: String)
    ensures
        r@ == "Option<"@ + inner@ + "Patch>"@,
{
    let mut s = crate::strings::string_of("Option<");
    crate::strings::push_str(&mut s, inner);
    crate::strings::push_str(&mut s, "Patch>");
    s
}


proof fn lemma_sorted_no_duplicates(e: Seq<Seq<char>>)
    requires
        strictly_sorted(e),
    ensures
        crate::settings::no_duplicates(e),
{
    assert forall|i: int, j: int| 0 <= i < j < e.len() implies e[i] != e[j] by {
        if e[i] == e[j] {
            lemma_lex_irreflexive(e[i]);
        }
    }
}

proof fn lemma_push_all_unique_no_duplicates(acc: Seq<Seq<char>>, xs: Seq<Seq<char>>)
    requires
        crate::settings::no_duplicates(acc),
    ensures
        crate::settings::no_duplicates(push_all_unique(acc, xs)),
    decreases xs.len(),
{
    if xs.len() > 0 {
        lemma_push_all_unique_no_duplicates(acc, xs.drop_last());
        crate::settings::law_push_unique_keeps_unique(push_all_unique(acc, xs.drop_last()), xs.last());
    }
}

proof fn lemma_without(s: Seq<Seq<char>>, denied: Seq<Seq<char>>)
    requires
        crate::settings::no_duplicates(s),
    ensures
        crate::settings::no_duplicates(without(s, denied)),
        forall|k: int| 0 <= k < without(s, denied).len() ==> !seq_has(denied, #[trigger] without(s, denied)[k]),
        forall|k: int| 0 <= k < without(s, denied).len() ==> seq_has(s, #[trigger] without(s, denied)[k]),
    decreases s.len(),
{
    if s.len() > 0 {
        let p = s.drop_last();
        assert(crate::settings::no_duplicates(p));
        lemma_without(p, denied);
        let w = without(p, denied);
        assert forall|k: int| 0 <= k < w.len() implies seq_has(s, #[trigger] w[k]) by {
            let j = choose|j: int| 0 <= j < p.len() && p[j] == w[k];
            assert(s[j] == w[k]);
        }
        if !seq_has(denied, s.last()) {
            assert forall|k: int| 0 <= k < w.len() implies w[k] != s.last() by {
                let j = choose|j: int| 0 <= j < p.len() && p[j] == w[k];
                assert(s[j] == p[j]);
            }
            let w2 = w.push(s.last());
            assert forall|k: int| 0 <= k < w2.len() implies seq_has(s, #[trigger] w2[k]) by {
                if k == w.len() {
                    assert(s[s.len() - 1] == w2[k]);
                }
            }
        }
    }
}

/// A derive list holds no derive twice and no denied derive.
pub proof fn law_derive_list_clean(
    r: Seq<Seq<char>>,
    settings: TypeSpaceSettings,
    kind: TypeKind,
    base: Seq<Seq<char>>,
    own: Seq<Seq<char>>,
    extra: Seq<Seq<char>>,
    denied: Seq<Seq<char>>,
)
    requires
        is_derive_list(r, settings, kind, base, own, extra, denied),
    ensures
        crate::settings::no_duplicates(r),
        forall|k: int| 0 <= k < r.len() ==> !seq_has(denied, #[trigger] r[k]),
{
    let u = selected_derives(settings.unconditional_derives@, kind);
    let e = choose|e: Seq<Seq<char>>| {
        &&& (u.len() == 0 ==> is_sorted_set_of(e, base, extra, own))
        &&& (u.len() > 0 ==> is_sorted_set_of(e, Seq::empty(), extra, own))
        &&& r == without(
            if u.len() == 0 {
                e
            } else {
                push_all_unique(push_all_unique(Seq::empty(), u), e)
            },
            denied,
        )
    };
    lemma_sorted_no_duplicates(e);
    if u.len() == 0 {
        lemma_without(e, denied);
    } else {
        lemma_push_all_unique_no_duplicates(Seq::empty(), u);
        lemma_push_all_unique_no_duplicates(push_all_unique(Seq::empty(), u), e);
        lemma_without(push_all_unique(push_all_unique(Seq::empty(), u), e), denied);
    }
}

/// Where unconditional derives select a kind, they lead its derive list,
/// in the order they were added, unless denied.
pub proof fn law_unconditional_derives_lead(
    r: Seq<Seq<char>>,
    settings: TypeSpaceSettings,
    kind: TypeKind,
    base: Seq<Seq<char>>,
    own: Seq<Seq<char>>,
    extra: Seq<Seq<char>>,
)
    requires
        is_derive_list(r, settings, kind, base, own, extra, Seq::empty()),
        crate::settings::no_duplicates(selected_derives(settings.unconditional_derives@, kind)),
    ensures
        r.take(selected_derives(settings.unconditional_derives@, kind).len() as int)
            == selected_derives(settings.unconditional_derives@, kind),
{
    let u = selected_derives(settings.unconditional_derives@, kind);
    if u.len() > 0 {
        let e = choose|e: Seq<Seq<char>>| {
            &&& (u.len() == 0 ==> is_sorted_set_of(e, base, extra, own))
            &&& (u.len() > 0 ==> is_sorted_set_of(e, Seq::empty(), extra, own))
            &&& r == without(
                if u.len() == 0 {
                    e
                } else {
                    push_all_unique(push_all_unique(Seq::empty(), u), e)
                },
                Seq::empty(),
            )
        };
        lemma_push_all_unique_distinct(Seq::empty(), u);
        lemma_push_all_unique_prefix(push_all_unique(Seq::empty(), u), e);
        lemma_without_nothing(push_all_unique(push_all_unique(Seq::empty(), u), e));
    }
}

proof fn lemma_push_all_unique_distinct(acc: Seq<Seq<char>>, xs: Seq<Seq<char>>)
    requires
        acc.len() == 0,
        crate::settings::no_duplicates(xs),
    ensures
        push_all_unique(acc, xs) == xs,
    decreases xs.len(),
{
    if xs.len() > 0 {
        let p = xs.drop_last();
        assert(crate::settings::no_duplicates(p));
        lemma_push_all_unique_distinct(acc, p);
        if seq_has(p, xs.last()) {
            let j = choose|j: int| 0 <= j < p.len() && p[j] == xs.last();
            assert(xs[j] == xs[xs.len() - 1]);
        }
        assert(p.push(xs.last()) =~= xs);
    }
}

proof fn lemma_push_all_unique_prefix(acc: Seq<Seq<char>>, xs: Seq<Seq<char>>)
    ensures
        push_all_unique(acc, xs).take(acc.len() as int) == acc,
        push_all_unique(acc, xs).len() >= acc.len(),
    decreases xs.len(),
{
    if xs.len() == 0 {
        assert(acc.take(acc.len() as int) =~= acc);
    } else {
        lemma_push_all_unique_prefix(acc, xs.drop_last());
        let p = push_all_unique(acc, xs.drop_last());
        if !seq_has(p, xs.last()) {
            assert(p.push(xs.last()).take(acc.len() as int) =~= p.take(acc.len() as int));
        }
    }
}

proof fn lemma_without_nothing(s: Seq<Seq<char>>)
    ensures
        without(s, Seq::empty()) == s,
    decreases s.len(),
{
    if s.len() > 0 {
        lemma_without_nothing(s.drop_last());
        assert(s.drop_last().push(s.last()) =~= s);
    }
}


proof fn lemma_push_all_unique_members(acc: Seq<Seq<char>>, xs: Seq<Seq<char>>, y: Seq<char>)
    requires
        seq_has(push_all_unique(acc, xs), y),
    ensures
        seq_has(acc, y) || seq_has(xs, y),
    decreases xs.len(),
{
    if xs.len() > 0 {
        let p = push_all_unique(acc, xs.drop_last());
        crate::settings::lemma_seq_has_push(p, xs.last(), y);
        if seq_has(p, y) {
            lemma_push_all_unique_members(acc, xs.drop_last(), y);
            if seq_has(xs.drop_last(), y) {
                let j = choose|j: int| 0 <= j < xs.drop_last().len() && xs.drop_last()[j] == y;
                assert(xs[j] == y);
            }
        } else {
            assert(xs[xs.len() - 1] == y);
        }
    }
}

proof fn lemma_without_sorted(s: Seq<Seq<char>>, denied: Seq<Seq<char>>)
    requires
        strictly_sorted(s),
    ensures
        strictly_sorted(without(s, denied)),
        forall|k: int| 0 <= k < without(s, denied).len() ==> seq_has(s, #[trigger] without(s, denied)[k]),
    decreases s.len(),
{
    if s.len() > 0 {
        let p = s.drop_last();
        assert(strictly_sorted(p)) by {
            assert forall|i: int, j: int| 0 <= i < j < p.len() implies lex_lt(#[trigger] p[i], #[trigger] p[j]) by {
                assert(p[i] == s[i] && p[j] == s[j]);
            }
        }
        lemma_without_sorted(p, denied);
        let w = without(p, denied);
        assert forall|k: int| 0 <= k < w.len() implies seq_has(s, #[trigger] w[k]) by {
            let j = choose|j: int| 0 <= j < p.len() && p[j] == w[k];
            assert(s[j] == w[k]);
        }
        if !seq_has(denied, s.last()) {
            let w2 = w.push(s.last());
            assert forall|a: int, b: int| 0 <= a < b < w2.len() implies lex_lt(#[trigger] w2[a], #[trigger] w2[b]) by {
                if b == w.len() {
                    let j = choose|j: int| 0 <= j < p.len() && p[j] == w[a];
                    assert(lex_lt(s[j], s[s.len() - 1]));
                }
            }
            assert forall|k: int| 0 <= k < w2.len() implies seq_has(s, #[trigger] w2[k]) by {
                if k == w.len() {
                    assert(s[s.len() - 1] == w2[k]);
                }
            }
        }
    }
}

/// Every derive of a derive list comes from the base derives, the extra
/// derives, the type's own derives, or the unconditional derives that
/// select the kind.
pub proof fn law_derive_list_members(
    r: Seq<Seq<char>>,
    settings: TypeSpaceSettings,
    kind: TypeKind,
    base: Seq<Seq<char>>,
    own: Seq<Seq<char>>,
    extra: Seq<Seq<char>>,
    denied: Seq<Seq<char>>,
)
    requires
        is_derive_list(r, settings, kind, base, own, extra, denied),
    ensures
        forall|k: int| 0 <= k < r.len() ==> seq_has(base, #[trigger] r[k]) || seq_has(extra, r[k])
            || seq_has(own, r[k]) || seq_has(selected_derives(settings.unconditional_derives@, kind), r[k]),
{
    let u = selected_derives(settings.unconditional_derives@, kind);
    if u.len() > 0 {
        law_base_derives_suppressed(r, settings, kind, base, own, extra, denied);
    } else {
        let e = choose|e: Seq<Seq<char>>| {
            &&& is_sorted_set_of(e, base, extra, own)
            &&& r == without(e, denied)
        };
        lemma_without_sorted(e, denied);
        assert forall|k: int| 0 <= k < r.len() implies seq_has(base, #[trigger] r[k]) || seq_has(extra, r[k])
            || seq_has(own, r[k]) by {
            assert(seq_has(e, r[k]));
        }
    }
}

/// Where no unconditional derive selects a kind, its derive list is in
/// lexicographic order.
pub proof fn law_legacy_derive_list_sorted(
    r: Seq<Seq<char>>,
    settings: TypeSpaceSettings,
    kind: TypeKind,
    base: Seq<Seq<char>>,
    own: Seq<Seq<char>>,
    extra: Seq<Seq<char>>,
    denied: Seq<Seq<char>>,
)
    requires
        is_derive_list(r, settings, kind, base, own, extra, denied),
        selected_derives(settings.unconditional_derives@, kind).len() == 0,
    ensures
        strictly_sorted(r),
{
    let e = choose|e: Seq<Seq<char>>| {
        &&& is_sorted_set_of(e, base, extra, own)
        &&& r == without(e, denied)
    };
    lemma_without_sorted(e, denied);
}

/// Once an unconditional derive selects a kind, the base derives are
/// suppressed for it: each derive of its list is an unconditional,
/// extra or own derive.
pub proof fn law_base_derives_suppressed(
    r: Seq<Seq<char>>,
    settings: TypeSpaceSettings,
    kind: TypeKind,
    base: Seq<Seq<char>>,
    own: Seq<Seq<char>>,
    extra: Seq<Seq<char>>,
    denied: Seq<Seq<char>>,
)
    requires
        is_derive_list(r, settings, kind, base, own, extra, denied),
        selected_derives(settings.unconditional_derives@, kind).len() > 0,
    ensures
        forall|k: int| 0 <= k < r.len() ==> seq_has(selected_derives(settings.unconditional_derives@, kind), #[trigger] r[k])
            || seq_has(extra, r[k]) || seq_has(own, r[k]),
{
    let u = selected_derives(settings.unconditional_derives@, kind);
    let e = choose|e: Seq<Seq<char>>| {
        &&& is_sorted_set_of(e, Seq::empty(), extra, own)
        &&& r == without(push_all_unique(push_all_unique(Seq::empty(), u), e), denied)
    };
    let full = push_all_unique(push_all_unique(Seq::empty(), u), e);
    lemma_push_all_unique_no_duplicates(Seq::empty(), u);
    lemma_push_all_unique_no_duplicates(push_all_unique(Seq::empty(), u), e);
    lemma_without(full, denied);
    assert forall|k: int| 0 <= k < r.len() implies seq_has(u, #[trigger] r[k]) || seq_has(extra, r[k]) || seq_has(own, r[k]) by {
        assert(seq_has(full, r[k]));
        lemma_push_all_unique_members(push_all_unique(Seq::empty(), u), e, r[k]);
        if seq_has(push_all_unique(Seq::empty(), u), r[k]) {
            lemma_push_all_unique_members(Seq::empty(), u, r[k]);
        }
    }
}

} // verus!
