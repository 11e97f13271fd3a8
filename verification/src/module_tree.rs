//! The module tree of partitioned output. A module path such as
//! `shared/enums` names nested modules, one per `/`-separated segment.
//! The tree holds every module path in use and each of their ancestors,
//! once each, in ascending order segment by segment (so a parent comes
//! right before its subtree and siblings by name). Each node has its
//! preamble and its types; only leaves get the `error` and `defaults`
//! submodules. The text of the tree nests the modules accordingly.

use vstd::prelude::*;

use crate::attrs::{lemma_lex_irreflexive, lemma_lex_total, lemma_lex_transitive, lex_lt, str_lt};
use crate::settings::strings_view;
use crate::strings::{push_char, push_str, str_equal, string_of};

verus! {

/// The segments of a module path: its parts between `/`.
pub open spec fn segments(s: Seq<char>) -> Seq<Seq<char>>
    decreases s.len(),
{
    if s.len() == 0 {
        seq![Seq::empty()]
    } else {
        let r = segments(s.drop_last());
        if s.last() == '/' {
            r.push(Seq::empty())
        } else {
            r.update(r.len() - 1, r.last().push(s.last()))
        }
    }
}

pub proof fn lemma_segments_len(s: Seq<char>)
    ensures
        segments(s).len() >= 1,
    decreases s.len(),
{
    if s.len() > 0 {
        lemma_segments_len(s.drop_last());
    }
}

/// Paths of segments in ascending order: segment by segment, a path
/// before its extensions.
pub open spec fn seg_lt(a: Seq<Seq<char>>, b: Seq<Seq<char>>) -> bool
    decreases a.len(),
{
    if a.len() == 0 {
        b.len() > 0
    } else if b.len() == 0 {
        false
    } else if a[0] != b[0] {
        lex_lt(a[0], b[0])
    } else {
        seg_lt(a.drop_first(), b.drop_first())
    }
}

/// `seg_lt` is irreflexive.
pub proof fn lemma_seg_irreflexive(a: Seq<Seq<char>>)
    ensures
        !seg_lt(a, a),
    decreases a.len(),
{
    if a.len() > 0 {
        lemma_seg_irreflexive(a.drop_first());
    }
}

/// `seg_lt` is transitive.
pub proof fn lemma_seg_transitive(a: Seq<Seq<char>>, b: Seq<Seq<char>>, c: Seq<Seq<char>>)
    requires
        seg_lt(a, b),
        seg_lt(b, c),
    ensures
        seg_lt(a, c),
    decreases a.len(),
{
    if a.len() > 0 {
        if a[0] == b[0] && b[0] == c[0] {
            lemma_seg_transitive(a.drop_first(), b.drop_first(), c.drop_first());
        } else if a[0] != b[0] && b[0] != c[0] {
            lemma_lex_transitive(a[0], b[0], c[0]);
            if a[0] == c[0] {
                lemma_lex_irreflexive(a[0]);
            }
        }
    }
}

/// Two paths are equal or ordered one way or the other.
pub proof fn lemma_seg_total(a: Seq<Seq<char>>, b: Seq<Seq<char>>)
    ensures
        seg_lt(a, b) || seg_lt(b, a) || a == b,
    decreases a.len(),
{
    if a.len() > 0 && b.len() > 0 {
        if a[0] == b[0] {
            lemma_seg_total(a.drop_first(), b.drop_first());
            if a.drop_first() == b.drop_first() {
                assert(a =~= seq![a[0]] + a.drop_first());
                assert(b =~= seq![b[0]] + b.drop_first());
            }
        } else {
            lemma_lex_total(a[0], b[0]);
        }
    } else if a.len() == 0 && b.len() == 0 {
        assert(a =~= b);
    }
}

/// Whether `p` is a path strictly inside `q`'s ancestry: `q` extends `p`.
pub open spec fn extends(q: Seq<Seq<char>>, p: Seq<Seq<char>>) -> bool {
    p.len() < q.len() && q.take(p.len() as int) == p
}

/// The segments of the path `s`.
pub fn segments_of(s: &str) -> (r: Vec<String>)
    ensures
        strings_view(r@) == segments(s@),
{
    let cs = crate::strings::chars_of(s);
    let mut out: Vec<String> = Vec::new();
    let mut cur = String::new();
    let mut i: usize = 0;
    assert(s@.take(0) =~= Seq::<char>::empty());
    assert(strings_view(out@).push(cur@) =~= segments(s@.take(0)));
    while i < cs.len()
        invariant
            i <= cs.len(),
            cs@ == s@,
            strings_view(out@).push(cur@) == segments(s@.take(i as int)),
        decreases cs.len() - i,
    {
        let c = cs[i];
        let ghost t = s@.take(i + 1);
        assert(t.drop_last() =~= s@.take(i as int));
        assert(t.last() == c);
        let ghost r = segments(s@.take(i as int));
        if c == '/' {
            out.push(cur);
            cur = String::new();
            assert(strings_view(out@).push(cur@) =~= r.push(Seq::empty()));
        } else {
            push_char(&mut cur, c);
            assert(strings_view(out@).push(cur@) =~= r.update(r.len() - 1, r.last().push(c)));
        }
        i = i + 1;
    }
    assert(s@.take(cs.len() as int) =~= s@);
    out.push(cur);
    out
}

/// Whether `a` comes before `b`, segment by segment.
pub fn seg_less(a: &Vec<String>, b: &Vec<String>) -> (r: bool)
    ensures
        r == seg_lt(strings_view(a@), strings_view(b@)),
{
    let ghost x = strings_view(a@);
    let ghost y = strings_view(b@);
    let mut i: usize = 0;
    assert(x.skip(0) =~= x);
    assert(y.skip(0) =~= y);
    while i < a.len() && i < b.len()
        invariant
            i <= a.len(),
            i <= b.len(),
            x == strings_view(a@),
            y == strings_view(b@),
            seg_lt(x, y) == seg_lt(x.skip(i as int), y.skip(i as int)),
        decreases a.len() - i,
    {
        let ghost sa = x.skip(i as int);
        let ghost sb = y.skip(i as int);
        assert(sa[0] == a@[i as int]@);
        assert(sb[0] == b@[i as int]@);
        if !str_equal(a[i].as_str(), b[i].as_str()) {
            return str_lt(a[i].as_str(), b[i].as_str());
        }
        assert(sa.drop_first() =~= x.skip(i + 1));
        assert(sb.drop_first() =~= y.skip(i + 1));
        i = i + 1;
    }
    i == a.len() && i < b.len()
}

/// Whether the paths `a` and `b` are the same.
pub fn seg_same(a: &Vec<String>, b: &Vec<String>) -> (r: bool)
    ensures
        r == (strings_view(a@) == strings_view(b@)),
{
    if a.len() != b.len() {
        return false;
    }
    let mut i: usize = 0;
    while i < a.len()
        invariant
            i <= a.len(),
            a.len() == b.len(),
            forall|k: int| 0 <= k < i ==> a@[k]@ == b@[k]@,
        decreases a.len() - i,
    {
        if !str_equal(a[i].as_str(), b[i].as_str()) {
            assert(strings_view(a@)[i as int] != strings_view(b@)[i as int]);
            return false;
        }
        i = i + 1;
    }
    assert(strings_view(a@) =~= strings_view(b@));
    true
}

/// Whether `b` extends `a`.
pub fn extends_exec(b: &Vec<String>, a: &Vec<String>) -> (r: bool)
    ensures
        r == extends(strings_view(b@), strings_view(a@)),
{
    if a.len() >= b.len() {
        return false;
    }
    let mut i: usize = 0;
    while i < a.len()
        invariant
            i <= a.len(),
            a.len() < b.len(),
            forall|k: int| 0 <= k < i ==> a@[k]@ == b@[k]@,
        decreases a.len() - i,
    {
        if !str_equal(a[i].as_str(), b[i].as_str()) {
            assert(strings_view(b@).take(a.len() as int)[i as int] != strings_view(a@)[i as int]);
            return false;
        }
        i = i + 1;
    }
    assert(strings_view(b@).take(a.len() as int) =~= strings_view(a@));
    true
}

/// The paths of `v`, each as its segments.
pub open spec fn paths_view(v: Seq<Vec<String>>) -> Seq<Seq<Seq<char>>> {
    v.map_values(|p: Vec<String>| strings_view(p@))
}

/// Whether the paths `s` are in strictly ascending order.
pub open spec fn seg_sorted(s: Seq<Seq<Seq<char>>>) -> bool {
    forall|i: int, j: int| 0 <= i < j < s.len() ==> seg_lt(#[trigger] s[i], #[trigger] s[j])
}

fn insert_path(v: &mut Vec<Vec<String>>, x: Vec<String>)
    requires
        seg_sorted(paths_view(old(v)@)),
    ensures
        seg_sorted(paths_view(final(v)@)),
        forall|q: Seq<Seq<char>>| #[trigger] paths_view(final(v)@).contains(q) <==> (paths_view(old(v)@).contains(q) || q
            == strings_view(x@)),
{
    let ghost o = paths_view(v@);
    let ghost xv = strings_view(x@);
    let mut pos: usize = 0;
    while pos < v.len() && seg_less(&v[pos], &x)
        invariant
            pos <= v.len(),
            paths_view(v@) == o,
            xv == strings_view(x@),
            forall|a: int| 0 <= a < pos ==> seg_lt(#[trigger] o[a], xv),
        decreases v.len() - pos,
    {
        assert(o[pos as int] == strings_view(v@[pos as int]@));
        pos = pos + 1;
    }
    if pos < v.len() {
        assert(o[pos as int] == strings_view(v@[pos as int]@));
        if seg_same(&v[pos], &x) {
            assert forall|q: Seq<Seq<char>>| #[trigger] paths_view(v@).contains(q) <==> (o.contains(q) || q == xv) by {
                if q == xv {
                    assert(o[pos as int] == q);
                }
            }
            return;
        }
        proof {
            lemma_seg_total(o[pos as int], xv);
        }
    }
    v.insert(pos, x);
    proof {
        let n = paths_view(v@);
        assert(n =~= o.insert(pos as int, xv));
        assert forall|i: int, j: int| 0 <= i < j < n.len() implies seg_lt(#[trigger] n[i], #[trigger] n[j]) by {
            if j < pos {
                assert(n[i] == o[i] && n[j] == o[j]);
            } else if j == pos {
                assert(n[i] == o[i]);
            } else if i == pos {
                assert(n[j] == o[j - 1]);
                if j - 1 > pos {
                    lemma_seg_transitive(xv, o[pos as int], o[j - 1]);
                }
            } else if i < pos {
                assert(n[i] == o[i] && n[j] == o[j - 1]);
                if j - 1 >= pos {
                    lemma_seg_transitive(o[i], xv, o[pos as int]);
                    if j - 1 > pos {
                        lemma_seg_transitive(o[i], o[pos as int], o[j - 1]);
                    }
                }
            } else {
                assert(n[i] == o[i - 1] && n[j] == o[j - 1]);
            }
        }
        assert forall|q: Seq<Seq<char>>| #[trigger] n.contains(q) <==> (o.contains(q) || q == xv) by {
            if o.contains(q) {
                let k = choose|k: int| 0 <= k < o.len() && o[k] == q;
                if k < pos {
                    assert(n[k] == q);
                } else {
                    assert(n[k + 1] == q);
                }
            }
            if q == xv {
                assert(n[pos as int] == q);
            }
            if n.contains(q) {
                let k = choose|k: int| 0 <= k < n.len() && n[k] == q;
                if k < pos {
                    assert(o[k] == q);
                } else if k > pos {
                    assert(o[k - 1] == q);
                }
            }
        }
    }
}

/// Whether `q` is the path of module `m` or one of its ancestors.
pub open spec fn node_of(q: Seq<Seq<char>>, m: Seq<char>) -> bool {
    &&& 1 <= q.len() <= segments(m).len()
    &&& q == segments(m).take(q.len() as int)
}

pub(crate) fn path_prefix(segs: &Vec<String>, l: usize) -> (r: Vec<String>)
    requires
        l <= segs.len(),
    ensures
        strings_view(r@) == strings_view(segs@).take(l as int),
{
    let mut r: Vec<String> = Vec::new();
    let mut i: usize = 0;
    while i < l
        invariant
            i <= l <= segs.len(),
            strings_view(r@) == strings_view(segs@).take(i as int),
        decreases l - i,
    {
        let x = string_of(segs[i].as_str());
        let ghost prev = r@;
        r.push(x);
        assert(strings_view(r@) =~= strings_view(prev).push(x@));
        assert(strings_view(segs@)[i as int] == x@);
        assert(strings_view(segs@).take(i + 1) =~= strings_view(segs@).take(i as int).push(x@));
        i = i + 1;
    }
    r
}

/// The paths of the modules `mods` and of all their ancestors, each once,
/// in ascending order.
pub fn tree_paths(mods: &Vec<String>) -> (r: Vec<Vec<String>>)
    ensures
        seg_sorted(paths_view(r@)),
        forall|q: Seq<Seq<char>>| #[trigger] paths_view(r@).contains(q) <==> exists|a: int| 0 <= a < mods@.len() && node_of(q,
            #[trigger] mods@[a]@),
{
    let mut out: Vec<Vec<String>> = Vec::new();
    assert(paths_view(out@) =~= Seq::<Seq<Seq<char>>>::empty());
    let mut i: usize = 0;
    while i < mods.len()
        invariant
            i <= mods.len(),
            seg_sorted(paths_view(out@)),
            forall|q: Seq<Seq<char>>| #[trigger] paths_view(out@).contains(q) <==> exists|a: int| 0 <= a < i && node_of(q,
                #[trigger] mods@[a]@),
        decreases mods.len() - i,
    {
        let segs = segments_of(mods[i].as_str());
        let ghost sg = strings_view(segs@);
        let mut l: usize = 0;
        while l < segs.len()
            invariant
                l <= segs.len(),
                i < mods.len(),
                sg == strings_view(segs@),
                sg == segments(mods@[i as int]@),
                seg_sorted(paths_view(out@)),
                forall|q: Seq<Seq<char>>| #[trigger] paths_view(out@).contains(q) <==> ((exists|a: int| 0 <= a < i && node_of(q,
                    #[trigger] mods@[a]@)) || (1 <= q.len() <= l && q == sg.take(q.len() as int))),
            decreases segs.len() - l,
        {
            let p = path_prefix(&segs, l + 1);
            let ghost before = paths_view(out@);
            insert_path(&mut out, p);
            assert forall|q: Seq<Seq<char>>| #[trigger] paths_view(out@).contains(q) <==> ((exists|a: int| 0 <= a < i && node_of(q,
                #[trigger] mods@[a]@)) || (1 <= q.len() <= l + 1 && q == sg.take(q.len() as int))) by {
                if q.len() == l + 1 && q == sg.take(q.len() as int) {
                    assert(q == sg.take(l + 1));
                }
            }
            l = l + 1;
        }
        assert forall|q: Seq<Seq<char>>| #[trigger] paths_view(out@).contains(q) <==> exists|a: int| 0 <= a < i + 1 && node_of(q,
            #[trigger] mods@[a]@) by {
            if paths_view(out@).contains(q) && !(exists|a: int| 0 <= a < i && node_of(q, #[trigger] mods@[a]@)) {
                assert(node_of(q, mods@[i as int]@));
            }
            if exists|a: int| 0 <= a < i + 1 && node_of(q, #[trigger] mods@[a]@) {
                let a = choose|a: int| 0 <= a < i + 1 && node_of(q, #[trigger] mods@[a]@);
                if a == i {
                    assert(1 <= q.len() <= l && q == sg.take(q.len() as int));
                }
            }
        }
        i = i + 1;
    }
    out
}

/// A path comes before its extensions.
pub proof fn lemma_extends_after(q: Seq<Seq<char>>, p: Seq<Seq<char>>)
    requires
        extends(q, p),
    ensures
        seg_lt(p, q),
    decreases p.len(),
{
    if p.len() > 0 {
        assert(q[0] == q.take(p.len() as int)[0]);
        assert(q.drop_first().take(p.drop_first().len() as int) =~= q.take(p.len() as int).drop_first());
        lemma_extends_after(q.drop_first(), p.drop_first());
    }
}

} // verus!
