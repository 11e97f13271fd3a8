//! Partitioned output: which module each generated type goes to, and the
//! modules in use (the default module, every module that an import
//! preamble names, even with no type, and every module a type goes to),
//! arranged as the module tree of their `/`-separated paths.

use vstd::prelude::*;

use crate::attrs::{sorted_insert, strictly_sorted};
use crate::enum_impls::{has_infix, lemma_infix_extend, lemma_infix_self};
use crate::module_tree::{
    lemma_extends_after, lemma_seg_irreflexive, lemma_seg_transitive, lemma_segments_len, seg_lt,
    extends, extends_exec, node_of, path_prefix, paths_view, seg_same, seg_sorted, segments, segments_of, tree_paths,
};
use crate::settings::{seq_has, strings_view};
use crate::space::TypeSpace;
use crate::strings::{push_str, str_equal, string_of};
use crate::type_entry::{TypeEntry, TypeEntryDetails};
use crate::TypeId;

verus! {

/// The name of the item a type entry produces: structs, enums and
/// newtypes produce one; other entries do not.
pub open spec fn item_name(e: TypeEntry) -> Option<Seq<char>> {
    match e.details {
        TypeEntryDetails::Struct(s) => Some(s.name@),
        TypeEntryDetails::Enum(x) => Some(x.name@),
        TypeEntryDetails::Newtype(n) => Some(n.name@),
        _ => None,
    }
}

/// The value that the pairs `p` give the key `k`: the last pair with that
/// key (the only one, where keys do not repeat).
pub open spec fn pair_lookup(p: Seq<(String, String)>, k: Seq<char>) -> Option<Seq<char>>
    decreases p.len(),
{
    if p.len() == 0 {
        None
    } else if p.last().0@ == k {
        Some(p.last().1@)
    } else {
        pair_lookup(p.drop_last(), k)
    }
}

/// The module the type named `name` goes to.
pub open spec fn module_of(partition: Seq<(String, String)>, default_module: Seq<char>, name: Seq<char>) -> Seq<char> {
    match pair_lookup(partition, name) {
        Some(m) => m,
        None => default_module,
    }
}

/// Whether the item of entry `e` goes to module `m`.
pub open spec fn goes_to(partition: Seq<(String, String)>, default_module: Seq<char>, e: TypeEntry, m: Seq<char>) -> bool {
    match item_name(e) {
        Some(nm) => module_of(partition, default_module, nm) == m,
        None => false,
    }
}

/// Whether the module `m` is produced: it is the default module, an import
/// preamble names it, or a type goes to it.
pub open spec fn module_wanted(
    space: TypeSpace,
    partition: Seq<(String, String)>,
    default_module: Seq<char>,
    imports: Seq<(String, String)>,
    m: Seq<char>,
) -> bool {
    ||| m == default_module
    ||| exists|i: int| 0 <= i < imports.len() && (#[trigger] imports[i]).0@ == m
    ||| exists|j: int| 0 <= j < space.id_to_entry@.len() && #[trigger] goes_to(partition, default_module, space.id_to_entry@[j].1, m)
}

fn lookup(p: &Vec<(String, String)>, k: &str) -> (r: Option<String>)
    ensures
        match (r, pair_lookup(p@, k@)) {
            (Some(a), Some(b)) => a@ == b,
            (None, None) => true,
            _ => false,
        },
{
    let mut i: usize = p.len();
    assert(p@.take(p.len() as int) =~= p@);
    while i > 0
        invariant
            i <= p.len(),
            pair_lookup(p@, k@) == pair_lookup(p@.take(i as int), k@),
        decreases i,
    {
        let ghost t = p@.take(i as int);
        assert(t.drop_last() =~= p@.take(i - 1));
        if str_equal(p[i - 1].0.as_str(), k) {
            return Some(p[i - 1].1.clone());
        }
        i = i - 1;
    }
    assert(p@.take(0) =~= Seq::<(String, String)>::empty());
    None
}

fn item_name_of(e: &TypeEntry) -> (r: Option<&str>)
    ensures
        match (r, item_name(*e)) {
            (Some(a), Some(b)) => a@ == b,
            (None, None) => true,
            _ => false,
        },
{
    match &e.details {
        TypeEntryDetails::Struct(s) => Some(s.name.as_str()),
        TypeEntryDetails::Enum(x) => Some(x.name.as_str()),
        TypeEntryDetails::Newtype(n) => Some(n.name.as_str()),
        _ => None,
    }
}

fn module_for(partition: &Vec<(String, String)>, default_module: &str, name: &str) -> (r: String)
    ensures
        r@ == module_of(partition@, default_module@, name@),
{
    match lookup(partition, name) {
        Some(m) => m,
        None => string_of(default_module),
    }
}

fn wanted_modules(
    space: &TypeSpace,
    partition: &Vec<(String, String)>,
    default_module: &str,
    imports: &Vec<(String, String)>,
) -> (r: Vec<String>)
    ensures
        strictly_sorted(strings_view(r@)),
        forall|m: Seq<char>| seq_has(strings_view(r@), m) <==> module_wanted(*space, partition@, default_module@, imports@, m),
{
    let mut mods: Vec<String> = Vec::new();
    assert(strings_view(mods@) =~= Seq::<Seq<char>>::empty());
    sorted_insert(&mut mods, default_module);
    let mut i: usize = 0;
    while i < imports.len()
        invariant
            i <= imports.len(),
            strictly_sorted(strings_view(mods@)),
            forall|m: Seq<char>| seq_has(strings_view(mods@), m) <==> (m == default_module@ || exists|k: int| 0 <= k < i
                && (#[trigger] imports@[k]).0@ == m),
        decreases imports.len() - i,
    {
        let ghost before = strings_view(mods@);
        sorted_insert(&mut mods, imports[i].0.as_str());
        assert forall|m: Seq<char>| seq_has(strings_view(mods@), m) <==> (m == default_module@ || exists|k: int| 0 <= k < i + 1
            && (#[trigger] imports@[k]).0@ == m) by {
            if seq_has(before, m) && m != default_module@ {
                let k = choose|k: int| 0 <= k < i && (#[trigger] imports@[k]).0@ == m;
                assert(0 <= k < i + 1 && imports@[k].0@ == m);
            }
            if exists|k: int| 0 <= k < i + 1 && (#[trigger] imports@[k]).0@ == m {
                let k = choose|k: int| 0 <= k < i + 1 && (#[trigger] imports@[k]).0@ == m;
                if k < i {
                    assert(seq_has(before, m));
                }
            }
        }
        i = i + 1;
    }
    let es = &space.id_to_entry;
    let mut j: usize = 0;
    while j < es.len()
        invariant
            j <= es.len(),
            es == &space.id_to_entry,
            strictly_sorted(strings_view(mods@)),
            forall|m: Seq<char>| seq_has(strings_view(mods@), m) <==> (m == default_module@ || (exists|k: int| 0 <= k < imports@.len()
                && (#[trigger] imports@[k]).0@ == m) || exists|q: int| 0 <= q < j && #[trigger] goes_to(partition@, default_module@, es@[q].1, m)),
        decreases es.len() - j,
    {
        let ghost before = strings_view(mods@);
        match item_name_of(&es[j].1) {
            Some(nm) => {
                let target = module_for(partition, default_module, nm);
                assert(goes_to(partition@, default_module@, es@[j as int].1, target@));
                sorted_insert(&mut mods, target.as_str());
                assert forall|m: Seq<char>| seq_has(strings_view(mods@), m) <==> (m == default_module@ || (exists|k: int| 0 <= k
                    < imports@.len() && (#[trigger] imports@[k]).0@ == m) || exists|q: int| 0 <= q < j + 1 && #[trigger] goes_to(partition@, default_module@, es@[q].1, m)) by {
                    if m == target@ {
                        assert(goes_to(partition@, default_module@, es@[j as int].1, m));
                    }
                    if exists|q: int| 0 <= q < j + 1 && #[trigger] goes_to(partition@, default_module@, es@[q].1, m) {
                        let q = choose|q: int| 0 <= q < j + 1 && #[trigger] goes_to(partition@, default_module@, es@[q].1, m);
                        if q < j {
                            assert(seq_has(before, m));
                        }
                    }
                    if seq_has(before, m) && m != default_module@ && !(exists|k: int| 0 <= k < imports@.len()
                        && (#[trigger] imports@[k]).0@ == m) {
                        let q = choose|q: int| 0 <= q < j && #[trigger] goes_to(partition@, default_module@, es@[q].1, m);
                        assert(0 <= q < j + 1);
                    }
                }
            },
            None => {
                assert forall|m: Seq<char>| seq_has(strings_view(mods@), m) <==> (m == default_module@ || (exists|k: int| 0 <= k
                    < imports@.len() && (#[trigger] imports@[k]).0@ == m) || exists|q: int| 0 <= q < j + 1 && #[trigger] goes_to(partition@, default_module@, es@[q].1, m)) by {
                    if exists|q: int| 0 <= q < j + 1 && #[trigger] goes_to(partition@, default_module@, es@[q].1, m) {
                        let q = choose|q: int| 0 <= q < j + 1 && #[trigger] goes_to(partition@, default_module@, es@[q].1, m);
                        assert(q != j);
                    }
                }
            },
        }
        j = j + 1;
    }
    mods
}

/// One module of the module tree.
#[derive(Debug)]
pub struct ModuleNode {
    /// The module's path, as its segments.
    pub path: Vec<String>,
    /// The text placed first in its body (its imports); empty where none
    /// is given.
    pub preamble: String,
    /// The types whose items go in it, in the order of their ids.
    pub types: Vec<TypeId>,
    /// Whether no other module of the tree lies inside it: only such a
    /// module gets the `error` and `defaults` submodules.
    pub leaf: bool,
}

/// The path of a node, as its segments.
pub open spec fn node_path(n: ModuleNode) -> Seq<Seq<char>> {
    strings_view(n.path@)
}

/// The paths of the nodes `r`, in order.
pub open spec fn node_paths(r: Seq<ModuleNode>) -> Seq<Seq<Seq<char>>> {
    r.map_values(|n: ModuleNode| node_path(n))
}

/// Whether the item of entry `e` goes to the module with path `p`.
pub open spec fn goes_to_path(partition: Seq<(String, String)>, default_module: Seq<char>, e: TypeEntry, p: Seq<Seq<char>>) -> bool {
    match item_name(e) {
        Some(nm) => segments(module_of(partition, default_module, nm)) == p,
        None => false,
    }
}

/// The ids, in order, of the first `n` entries of `es` whose items go to
/// the module with path `p`.
pub open spec fn ids_at(
    es: Seq<(TypeId, TypeEntry)>,
    partition: Seq<(String, String)>,
    default_module: Seq<char>,
    p: Seq<Seq<char>>,
    n: nat,
) -> Seq<TypeId>
    decreases n,
{
    if n == 0 {
        Seq::empty()
    } else {
        let prev = ids_at(es, partition, default_module, p, (n - 1) as nat);
        if goes_to_path(partition, default_module, es[n - 1].1, p) {
            prev.push(es[n - 1].0)
        } else {
            prev
        }
    }
}

/// The preamble that `imports` gives the module with path `p`: that of
/// the last key with that path.
pub open spec fn path_lookup(imports: Seq<(String, String)>, p: Seq<Seq<char>>) -> Option<Seq<char>>
    decreases imports.len(),
{
    if imports.len() == 0 {
        None
    } else if segments(imports.last().0@) == p {
        Some(imports.last().1@)
    } else {
        path_lookup(imports.drop_last(), p)
    }
}

/// Whether `q` is the path of a module in use or of one of its ancestors.
pub open spec fn is_tree_node(
    space: TypeSpace,
    partition: Seq<(String, String)>,
    default_module: Seq<char>,
    imports: Seq<(String, String)>,
    q: Seq<Seq<char>>,
) -> bool {
    exists|m: Seq<char>| module_wanted(space, partition, default_module, imports, m) && #[trigger] node_of(q, m)
}

/// Whether `r` is the module tree of `space`'s types: every module in use
/// and every ancestor of one, each once, in ascending order segment by
/// segment; each with its preamble and the types that go to it; a leaf
/// exactly where no other node lies inside it.
pub open spec fn is_module_tree(
    r: Seq<ModuleNode>,
    space: TypeSpace,
    partition: Seq<(String, String)>,
    default_module: Seq<char>,
    imports: Seq<(String, String)>,
) -> bool {
    &&& seg_sorted(node_paths(r))
    &&& forall|q: Seq<Seq<char>>| #[trigger] node_paths(r).contains(q) <==> is_tree_node(space, partition, default_module, imports, q)
    &&& forall|j: int| 0 <= j < r.len() ==> {
        &&& (#[trigger] r[j]).types@ == ids_at(space.id_to_entry@, partition, default_module, node_path(r[j]),
            space.id_to_entry@.len())
        &&& r[j].preamble@ == match path_lookup(imports, node_path(r[j])) {
            Some(t) => t,
            None => Seq::empty(),
        }
        &&& r[j].leaf == !exists|k: int| 0 <= k < r.len() && #[trigger] extends(node_paths(r)[k], node_path(r[j]))
    }
}

fn types_at(space: &TypeSpace, partition: &Vec<(String, String)>, default_module: &str, path: &Vec<String>) -> (r: Vec<TypeId>)
    ensures
        r@ == ids_at(space.id_to_entry@, partition@, default_module@, strings_view(path@), space.id_to_entry@.len()),
{
    let es = &space.id_to_entry;
    let mut out: Vec<TypeId> = Vec::new();
    let mut i: usize = 0;
    while i < es.len()
        invariant
            i <= es.len(),
            es == &space.id_to_entry,
            out@ == ids_at(es@, partition@, default_module@, strings_view(path@), i as nat),
        decreases es.len() - i,
    {
        match item_name_of(&es[i].1) {
            Some(nm) => {
                let target = module_for(partition, default_module, nm);
                let segs = segments_of(target.as_str());
                if seg_same(&segs, path) {
                    out.push(es[i].0);
                }
            },
            None => {},
        }
        i = i + 1;
    }
    out
}

fn preamble_at(imports: &Vec<(String, String)>, path: &Vec<String>) -> (r: String)
    ensures
        r@ == match path_lookup(imports@, strings_view(path@)) {
            Some(t) => t,
            None => Seq::empty(),
        },
{
    let ghost p = strings_view(path@);
    let mut i: usize = imports.len();
    assert(imports@.take(imports.len() as int) =~= imports@);
    while i > 0
        invariant
            i <= imports.len(),
            p == strings_view(path@),
            path_lookup(imports@, p) == path_lookup(imports@.take(i as int), p),
        decreases i,
    {
        let ghost t = imports@.take(i as int);
        assert(t.drop_last() =~= imports@.take(i - 1));
        let segs = segments_of(imports[i - 1].0.as_str());
        if seg_same(&segs, path) {
            return string_of(imports[i - 1].1.as_str());
        }
        i = i - 1;
    }
    assert(imports@.take(0) =~= Seq::<(String, String)>::empty());
    String::new()
}

fn is_leaf(paths: &Vec<Vec<String>>, j: usize) -> (r: bool)
    requires
        j < paths.len(),
    ensures
        r == !exists|k: int| 0 <= k < paths@.len() && #[trigger] extends(paths_view(paths@)[k], paths_view(paths@)[j as int]),
{
    let mut k: usize = 0;
    while k < paths.len()
        invariant
            k <= paths.len(),
            j < paths.len(),
            forall|a: int| 0 <= a < k ==> !#[trigger] extends(paths_view(paths@)[a], paths_view(paths@)[j as int]),
        decreases paths.len() - k,
    {
        if extends_exec(&paths[k], &paths[j]) {
            assert(extends(paths_view(paths@)[k as int], paths_view(paths@)[j as int]));
            return false;
        }
        k = k + 1;
    }
    true
}

/// The module tree of the types of `space`: `partition` gives the module
/// path of a type by its name (others go to `default_module`), and
/// `imports` gives a module path the text placed first in it. The tree
/// holds the default module, every module that `imports` names and every
/// module a type goes to, with all their ancestors, in ascending order
/// segment by segment.
pub fn module_tree(
    space: &TypeSpace,
    partition: &Vec<(String, String)>,
    default_module: &str,
    imports: &Vec<(String, String)>,
) -> (r: Vec<ModuleNode>)
    ensures
        is_module_tree(r@, *space, partition@, default_module@, imports@),
{
    let mods = wanted_modules(space, partition, default_module, imports);
    let paths = tree_paths(&mods);
    let mut out: Vec<ModuleNode> = Vec::new();
    let mut j: usize = 0;
    while j < paths.len()
        invariant
            j <= paths.len(),
            out@.len() == j,
            forall|a: int| 0 <= a < j ==> node_path(#[trigger] out@[a]) == paths_view(paths@)[a],
            forall|a: int| 0 <= a < j ==> {
                &&& (#[trigger] out@[a]).types@ == ids_at(space.id_to_entry@, partition@, default_module@, node_path(out@[a]),
                    space.id_to_entry@.len())
                &&& out@[a].preamble@ == match path_lookup(imports@, node_path(out@[a])) {
                    Some(t) => t,
                    None => Seq::empty(),
                }
                &&& out@[a].leaf == !exists|k: int| 0 <= k < paths@.len() && #[trigger] extends(paths_view(paths@)[k],
                    paths_view(paths@)[a])
            },
        decreases paths.len() - j,
    {
        let path = path_prefix(&paths[j], paths[j].len());
        assert(strings_view(paths@[j as int]@).take(paths@[j as int]@.len() as int) =~= strings_view(paths@[j as int]@));
        let types = types_at(space, partition, default_module, &path);
        let preamble = preamble_at(imports, &path);
        let leaf = is_leaf(&paths, j);
        out.push(ModuleNode { path, preamble, types, leaf });
        j = j + 1;
    }
    proof {
        assert(node_paths(out@) =~= paths_view(paths@));
        assert forall|q: Seq<Seq<char>>| #[trigger] node_paths(out@).contains(q) <==> is_tree_node(*space, partition@,
            default_module@, imports@, q) by {
            if node_paths(out@).contains(q) {
                let a = choose|a: int| 0 <= a < mods@.len() && node_of(q, #[trigger] mods@[a]@);
                assert(strings_view(mods@)[a] == mods@[a]@);
                assert(seq_has(strings_view(mods@), mods@[a]@));
            }
            if is_tree_node(*space, partition@, default_module@, imports@, q) {
                let m = choose|m: Seq<char>| module_wanted(*space, partition@, default_module@, imports@, m) && #[trigger] node_of(q, m);
                assert(seq_has(strings_view(mods@), m));
                let a = choose|a: int| 0 <= a < strings_view(mods@).len() && strings_view(mods@)[a] == m;
                assert(node_of(q, mods@[a]@));
            }
        }
        assert forall|j: int| 0 <= j < out@.len() implies (#[trigger] out@[j]).leaf == !exists|k: int| 0 <= k < out@.len()
            && #[trigger] extends(node_paths(out@)[k], node_path(out@[j])) by {
            assert(node_path(out@[j]) == paths_view(paths@)[j]);
        }
    }
    out
}

/// `n` closing braces.
pub open spec fn braces(n: nat) -> Seq<char>
    decreases n,
{
    if n == 0 {
        Seq::empty()
    } else {
        braces((n - 1) as nat) + " }"@
    }
}

/// The text that `items` gives the type `t`: that of the last pair with
/// its id; none where no pair has it.
pub open spec fn item_text(items: Seq<(TypeId, String)>, t: TypeId) -> Seq<char>
    decreases items.len(),
{
    if items.len() == 0 {
        Seq::empty()
    } else if items.last().0 == t {
        items.last().1@
    } else {
        item_text(items.drop_last(), t)
    }
}

/// The texts of the types `ts`, one after the other.
pub open spec fn types_text(items: Seq<(TypeId, String)>, ts: Seq<TypeId>) -> Seq<char>
    decreases ts.len(),
{
    if ts.len() == 0 {
        Seq::empty()
    } else {
        types_text(items, ts.drop_last()) + item_text(items, ts.last())
    }
}

/// The submodules of a leaf: `error`, and `defaults` where there are
/// default helpers.
pub open spec fn leaf_mods(error_mod: Seq<char>, defaults_mod: Seq<char>) -> Seq<char> {
    " pub mod error { "@ + error_mod + " }"@ + (if defaults_mod.len() > 0 {
        " pub mod defaults { "@ + defaults_mod + " }"@
    } else {
        Seq::empty()
    })
}

/// The opening of a node's module, up to its own items: `pub mod`, its
/// last segment, its preamble, the submodules of a leaf, then its items.
pub open spec fn node_text(n: ModuleNode, error_mod: Seq<char>, defaults_mod: Seq<char>, items: Seq<(TypeId, String)>) -> Seq<char> {
    "pub mod "@ + node_path(n).last() + " { "@ + n.preamble@ + (if n.leaf {
        leaf_mods(error_mod, defaults_mod)
    } else {
        Seq::empty()
    }) + " "@ + types_text(items, n.types@)
}

/// How many modules close between node `a` and the next node `b`: those
/// of `a` that are not ancestors of `b`.
pub open spec fn closing(a: ModuleNode, b: ModuleNode) -> nat {
    if node_path(b).len() <= node_path(a).len() + 1 {
        (node_path(a).len() + 1 - node_path(b).len()) as nat
    } else {
        0
    }
}

/// The text of the first `k` nodes, each opened after closing what the
/// previous one leaves open.
pub open spec fn tree_walk(
    r: Seq<ModuleNode>,
    k: nat,
    error_mod: Seq<char>,
    defaults_mod: Seq<char>,
    items: Seq<(TypeId, String)>,
) -> Seq<char>
    decreases k,
{
    if k == 0 {
        Seq::empty()
    } else {
        tree_walk(r, (k - 1) as nat, error_mod, defaults_mod, items) + (if k == 1 {
            Seq::empty()
        } else {
            braces(closing(r[k - 2], r[k - 1]))
        }) + node_text(r[k - 1], error_mod, defaults_mod, items)
    }
}

/// The text of the module tree `r`: its nodes in order, nested by their
/// paths, with every module closed at the end.
pub open spec fn tree_text(r: Seq<ModuleNode>, error_mod: Seq<char>, defaults_mod: Seq<char>, items: Seq<(TypeId, String)>) -> Seq<char> {
    tree_walk(r, r.len(), error_mod, defaults_mod, items) + (if r.len() > 0 {
        braces(node_path(r.last()).len())
    } else {
        Seq::empty()
    })
}

fn push_braces(s: &mut String, n: usize)
    ensures
        final(s)@ == old(s)@ + braces(n as nat),
{
    let ghost p = s@;
    assert(p + Seq::<char>::empty() =~= p);
    let mut i: usize = 0;
    while i < n
        invariant
            i <= n,
            s@ == p + braces(i as nat),
            p == old(s)@,
        decreases n - i,
    {
        push_str(s, " }");
        i = i + 1;
    }
}

fn item_text_of(items: &Vec<(TypeId, String)>, t: TypeId) -> (r: String)
    ensures
        r@ == item_text(items@, t),
{
    let mut i: usize = items.len();
    assert(items@.take(items.len() as int) =~= items@);
    while i > 0
        invariant
            i <= items.len(),
            item_text(items@, t) == item_text(items@.take(i as int), t),
        decreases i,
    {
        let ghost w = items@.take(i as int);
        assert(w.drop_last() =~= items@.take(i - 1));
        if items[i - 1].0 == t {
            return string_of(items[i - 1].1.as_str());
        }
        i = i - 1;
    }
    assert(items@.take(0) =~= Seq::<(TypeId, String)>::empty());
    String::new()
}

fn push_node(s: &mut String, n: &ModuleNode, error_mod: &str, defaults_mod: &str, items: &Vec<(TypeId, String)>)
    requires
        n.path@.len() >= 1,
    ensures
        final(s)@ == old(s)@ + node_text(*n, error_mod@, defaults_mod@, items@),
{
    let ghost p = s@;
    push_str(s, "pub mod ");
    push_str(s, n.path[n.path.len() - 1].as_str());
    push_str(s, " { ");
    push_str(s, n.preamble.as_str());
    let ghost before_leaf = s@;
    if n.leaf {
        push_str(s, " pub mod error { ");
        push_str(s, error_mod);
        push_str(s, " }");
        let dc = crate::strings::chars_of(defaults_mod);
        if dc.len() > 0 {
            push_str(s, " pub mod defaults { ");
            push_str(s, defaults_mod);
            push_str(s, " }");
        }
        assert(s@ =~= before_leaf + leaf_mods(error_mod@, defaults_mod@));
    }
    push_str(s, " ");
    let ghost q = s@;
    assert(q + Seq::<char>::empty() =~= q);
    let mut i: usize = 0;
    while i < n.types.len()
        invariant
            i <= n.types.len(),
            s@ == q + types_text(items@, n.types@.take(i as int)),
        decreases n.types.len() - i,
    {
        let t = item_text_of(items, n.types[i]);
        push_str(s, t.as_str());
        let ghost w = n.types@.take(i + 1);
        assert(w.drop_last() =~= n.types@.take(i as int));
        i = i + 1;
    }
    assert(n.types@.take(n.types.len() as int) =~= n.types@);
    assert(strings_view(n.path@).last() == n.path@[n.path@.len() - 1]@);
    assert(s@ =~= p + node_text(*n, error_mod@, defaults_mod@, items@));
}

/// The Rust text of the module tree `nodes`: each node's module, holding
/// its preamble, for a leaf the `error` module with `error_mod` and, where
/// `defaults_mod` is not empty, the `defaults` module with it, its types'
/// texts from `items`, then the modules inside it.
pub fn tree_output(nodes: &Vec<ModuleNode>, error_mod: &str, defaults_mod: &str, items: &Vec<(TypeId, String)>) -> (r: String)
    requires
        forall|j: int| 0 <= j < nodes@.len() ==> (#[trigger] nodes@[j]).path@.len() >= 1,
    ensures
        r@ == tree_text(nodes@, error_mod@, defaults_mod@, items@),
{
    let mut s = String::new();
    let mut k: usize = 0;
    while k < nodes.len()
        invariant
            k <= nodes.len(),
            forall|j: int| 0 <= j < nodes@.len() ==> (#[trigger] nodes@[j]).path@.len() >= 1,
            s@ == tree_walk(nodes@, k as nat, error_mod@, defaults_mod@, items@),
        decreases nodes.len() - k,
    {
        if k > 0 {
            let a = nodes[k - 1].path.len();
            let b = nodes[k].path.len();
            assert(nodes@[k - 1].path@.len() >= 1 && nodes@[k as int].path@.len() >= 1);
            let c = if b <= a { a - b + 1 } else { 0 };
            assert(c == closing(nodes@[k - 1], nodes@[k as int]));
            push_braces(&mut s, c);
        } else {
            assert(s@ + Seq::<char>::empty() =~= s@);
        }
        push_node(&mut s, &nodes[k], error_mod, defaults_mod, items);
        k = k + 1;
    }
    if nodes.len() > 0 {
        push_braces(&mut s, nodes[nodes.len() - 1].path.len());
    } else {
        assert(s@ + Seq::<char>::empty() =~= s@);
    }
    s
}

/// Partitioned output: the Rust text of the module tree of `space`'s types
/// (see [`module_tree`]), each type's item text taken from `items`, each
/// leaf with the `error` module `error_mod` and the `defaults` module
/// `defaults_mod`.
pub fn partitioned_output(
    space: &TypeSpace,
    partition: &Vec<(String, String)>,
    default_module: &str,
    imports: &Vec<(String, String)>,
    error_mod: &str,
    defaults_mod: &str,
    items: &Vec<(TypeId, String)>,
) -> (r: String)
    ensures
        exists|t: Seq<ModuleNode>| #[trigger] is_module_tree(t, *space, partition@, default_module@, imports@) && r@ == tree_text(t,
            error_mod@, defaults_mod@, items@),
{
    let nodes = module_tree(space, partition, default_module, imports);
    proof {
        assert forall|j: int| 0 <= j < nodes@.len() implies (#[trigger] nodes@[j]).path@.len() >= 1 by {
            assert(node_paths(nodes@)[j] == node_path(nodes@[j]));
            assert(node_paths(nodes@).contains(node_path(nodes@[j])));
        }
    }
    tree_output(&nodes, error_mod, defaults_mod, items)
}

proof fn lemma_ids_at(
    es: Seq<(TypeId, TypeEntry)>,
    partition: Seq<(String, String)>,
    default_module: Seq<char>,
    p: Seq<Seq<char>>,
    n: nat,
)
    requires
        n <= es.len(),
    ensures
        forall|j: int| 0 <= j < n && goes_to_path(partition, default_module, #[trigger] es[j].1, p) ==> ids_at(es, partition,
            default_module, p, n).contains(es[j].0),
    decreases n,
{
    if n > 0 {
        lemma_ids_at(es, partition, default_module, p, (n - 1) as nat);
        let prev = ids_at(es, partition, default_module, p, (n - 1) as nat);
        let cur = ids_at(es, partition, default_module, p, n);
        assert forall|j: int| 0 <= j < n && goes_to_path(partition, default_module, #[trigger] es[j].1, p) implies cur.contains(
            es[j].0) by {
            if j < n - 1 {
                let k = choose|k: int| 0 <= k < prev.len() && prev[k] == es[j].0;
                assert(cur[k] == prev[k]);
            } else {
                assert(cur[cur.len() - 1] == es[j].0);
            }
        }
    }
}

/// The module tree is a tree: the parent of every nested module is in it
/// and comes before it; every module in use is in it; and every generated
/// type lies in the module of its path (the one `partition` names for it,
/// else the default module).
pub proof fn law_module_tree_shape(
    r: Seq<ModuleNode>,
    space: TypeSpace,
    partition: Seq<(String, String)>,
    default_module: Seq<char>,
    imports: Seq<(String, String)>,
)
    requires
        is_module_tree(r, space, partition, default_module, imports),
    ensures
        forall|j: int| 0 <= j < r.len() && node_path(#[trigger] r[j]).len() > 1 ==> exists|i: int| 0 <= i < j && node_path(r[i])
            == node_path(r[j]).drop_last(),
        forall|m: Seq<char>| module_wanted(space, partition, default_module, imports, m) ==> #[trigger] node_paths(r).contains(
            segments(m)),
        forall|j: int| 0 <= j < space.id_to_entry@.len() && (#[trigger] item_name(space.id_to_entry@[j].1)) is Some ==> exists|k: int|
            0 <= k < r.len() && node_path(r[k]) == segments(module_of(partition, default_module, item_name(space.id_to_entry@[j].1)->0))
            && #[trigger] r[k].types@.contains(space.id_to_entry@[j].0),
{
    let np = node_paths(r);
    assert forall|j: int| 0 <= j < r.len() && node_path(#[trigger] r[j]).len() > 1 implies exists|i: int| 0 <= i < j && node_path(
        r[i]) == node_path(r[j]).drop_last() by {
        let q = node_path(r[j]);
        assert(np[j] == q);
        assert(np.contains(q));
        let m = choose|m: Seq<char>| module_wanted(space, partition, default_module, imports, m) && #[trigger] node_of(q, m);
        let parent = q.drop_last();
        assert(parent =~= segments(m).take(parent.len() as int));
        assert(node_of(parent, m));
        assert(np.contains(parent));
        let i = choose|i: int| 0 <= i < np.len() && np[i] == parent;
        assert(q.take(parent.len() as int) =~= parent);
        lemma_extends_after(q, parent);
        if i >= j {
            if i == j {
                assert(false);
            } else {
                assert(seg_lt(np[j], np[i]));
                lemma_seg_transitive(q, parent, q);
                lemma_seg_irreflexive(q);
            }
        }
        assert(node_path(r[i]) == np[i]);
    }
    assert forall|m: Seq<char>| module_wanted(space, partition, default_module, imports, m) implies #[trigger] np.contains(segments(m))
        by {
        lemma_segments_len(m);
        assert(segments(m).take(segments(m).len() as int) =~= segments(m));
        assert(node_of(segments(m), m));
    }
    let es = space.id_to_entry@;
    assert forall|j: int| 0 <= j < es.len() && (#[trigger] item_name(es[j].1)) is Some implies exists|k: int| 0 <= k < r.len()
        && node_path(r[k]) == segments(module_of(partition, default_module, item_name(es[j].1)->0)) && #[trigger] r[k].types@.contains(
        es[j].0) by {
        let m = module_of(partition, default_module, item_name(es[j].1)->0);
        assert(goes_to(partition, default_module, es[j].1, m));
        assert(module_wanted(space, partition, default_module, imports, m));
        assert(np.contains(segments(m)));
        let k = choose|k: int| 0 <= k < np.len() && np[k] == segments(m);
        assert(node_path(r[k]) == segments(m));
        assert(goes_to_path(partition, default_module, es[j].1, segments(m)));
        lemma_ids_at(es, partition, default_module, segments(m), es.len());
    }
}

proof fn lemma_types_text_holds(items: Seq<(TypeId, String)>, ts: Seq<TypeId>, i: int)
    requires
        0 <= i < ts.len(),
    ensures
        has_infix(types_text(items, ts), item_text(items, ts[i])),
    decreases ts.len(),
{
    let prev = types_text(items, ts.drop_last());
    if i == ts.len() - 1 {
        lemma_infix_self(item_text(items, ts[i]));
        lemma_infix_extend(item_text(items, ts[i]), prev, item_text(items, ts[i]));
    } else {
        assert(ts.drop_last()[i] == ts[i]);
        lemma_types_text_holds(items, ts.drop_last(), i);
        lemma_infix_extend(prev, item_text(items, ts.last()), item_text(items, ts[i]));
    }
}

proof fn lemma_walk_holds(
    r: Seq<ModuleNode>,
    n: nat,
    k: int,
    error_mod: Seq<char>,
    defaults_mod: Seq<char>,
    items: Seq<(TypeId, String)>,
)
    requires
        0 <= k < n <= r.len(),
    ensures
        has_infix(tree_walk(r, n, error_mod, defaults_mod, items), node_text(r[k], error_mod, defaults_mod, items)),
    decreases n,
{
    let prev = tree_walk(r, (n - 1) as nat, error_mod, defaults_mod, items);
    let between = if n == 1 {
        Seq::empty()
    } else {
        braces(closing(r[n - 2], r[n - 1]))
    };
    let t = node_text(r[k], error_mod, defaults_mod, items);
    if k == n - 1 {
        lemma_infix_self(t);
        lemma_infix_extend(t, prev + between, t);
    } else {
        lemma_walk_holds(r, (n - 1) as nat, k, error_mod, defaults_mod, items);
        lemma_infix_extend(prev, between, t);
        lemma_infix_extend(prev + between, node_text(r[n - 1], error_mod, defaults_mod, items), t);
    }
}

/// The text of the module tree holds the item text of every type that one
/// of its modules holds.
pub proof fn law_tree_text_holds_items(
    r: Seq<ModuleNode>,
    k: int,
    i: int,
    error_mod: Seq<char>,
    defaults_mod: Seq<char>,
    items: Seq<(TypeId, String)>,
)
    requires
        0 <= k < r.len(),
        0 <= i < r[k].types@.len(),
    ensures
        has_infix(tree_text(r, error_mod, defaults_mod, items), item_text(items, r[k].types@[i])),
{
    let t = item_text(items, r[k].types@[i]);
    let n = r[k];
    lemma_types_text_holds(items, n.types@, i);
    let head = "pub mod "@ + node_path(n).last() + " { "@ + n.preamble@ + (if n.leaf {
        leaf_mods(error_mod, defaults_mod)
    } else {
        Seq::empty()
    }) + " "@;
    lemma_infix_extend(types_text(items, n.types@), head, t);
    assert(node_text(n, error_mod, defaults_mod, items) == head + types_text(items, n.types@));
    lemma_walk_holds(r, r.len(), k, error_mod, defaults_mod, items);
    let w = tree_walk(r, r.len(), error_mod, defaults_mod, items);
    let nt = node_text(n, error_mod, defaults_mod, items);
    assert(has_infix(w, t)) by {
        let a = choose|a: int| 0 <= a && a + nt.len() <= w.len() && #[trigger] w.subrange(a, a + nt.len()) == nt;
        let b = choose|b: int| 0 <= b && b + t.len() <= nt.len() && #[trigger] nt.subrange(b, b + t.len()) == t;
        assert(w.subrange(a + b, a + b + t.len()) =~= nt.subrange(b, b + t.len()));
    }
    lemma_infix_extend(w, if r.len() > 0 {
        braces(node_path(r.last()).len())
    } else {
        Seq::empty()
    }, t);
}

/// Every struct, enum and newtype of the type space is placed in the
/// module of its path (the one `partition` names for its name, else the
/// default module), and its item text is in the text of the tree.
pub proof fn law_generated_types_placed(
    r: Seq<ModuleNode>,
    space: TypeSpace,
    partition: Seq<(String, String)>,
    default_module: Seq<char>,
    imports: Seq<(String, String)>,
    error_mod: Seq<char>,
    defaults_mod: Seq<char>,
    items: Seq<(TypeId, String)>,
)
    requires
        is_module_tree(r, space, partition, default_module, imports),
    ensures
        forall|j: int| 0 <= j < space.id_to_entry@.len() && (#[trigger] space.id_to_entry@[j]).1.details is Struct ==> exists|k: int|
            0 <= k < r.len() && node_path(r[k]) == segments(module_of(partition, default_module,
            space.id_to_entry@[j].1.details->Struct_0.name@)) && r[k].types@.contains(space.id_to_entry@[j].0),
        forall|j: int| 0 <= j < space.id_to_entry@.len() && (#[trigger] space.id_to_entry@[j]).1.details is Enum ==> exists|k: int|
            0 <= k < r.len() && node_path(r[k]) == segments(module_of(partition, default_module,
            space.id_to_entry@[j].1.details->Enum_0.name@)) && r[k].types@.contains(space.id_to_entry@[j].0),
        forall|j: int| 0 <= j < space.id_to_entry@.len() && (#[trigger] space.id_to_entry@[j]).1.details is Newtype ==> exists|k: int|
            0 <= k < r.len() && node_path(r[k]) == segments(module_of(partition, default_module,
            space.id_to_entry@[j].1.details->Newtype_0.name@)) && r[k].types@.contains(space.id_to_entry@[j].0),
        forall|j: int| 0 <= j < space.id_to_entry@.len() && ((#[trigger] space.id_to_entry@[j]).1.details is Struct
            || space.id_to_entry@[j].1.details is Enum || space.id_to_entry@[j].1.details is Newtype) ==> has_infix(tree_text(r,
            error_mod, defaults_mod, items), item_text(items, space.id_to_entry@[j].0)),
{
    law_module_tree_shape(r, space, partition, default_module, imports);
    let es = space.id_to_entry@;
    assert forall|j: int| 0 <= j < es.len() && ((#[trigger] es[j]).1.details is Struct || es[j].1.details is Enum
        || es[j].1.details is Newtype) implies has_infix(tree_text(r, error_mod, defaults_mod, items), item_text(items, es[j].0)) by {
        assert(item_name(es[j].1) is Some);
        let k = choose|k: int| 0 <= k < r.len() && node_path(r[k]) == segments(module_of(partition, default_module, item_name(
            es[j].1)->0)) && #[trigger] r[k].types@.contains(es[j].0);
        let i = choose|i: int| 0 <= i < r[k].types@.len() && r[k].types@[i] == es[j].0;
        law_tree_text_holds_items(r, k, i, error_mod, defaults_mod, items);
    }
    assert forall|j: int| 0 <= j < es.len() && (#[trigger] es[j]).1.details is Newtype implies exists|k: int| 0 <= k < r.len()
        && node_path(r[k]) == segments(module_of(partition, default_module, es[j].1.details->Newtype_0.name@))
        && r[k].types@.contains(es[j].0) by {
        assert(item_name(es[j].1) is Some);
    }
    assert forall|j: int| 0 <= j < es.len() && (#[trigger] es[j]).1.details is Struct implies exists|k: int| 0 <= k < r.len()
        && node_path(r[k]) == segments(module_of(partition, default_module, es[j].1.details->Struct_0.name@))
        && r[k].types@.contains(es[j].0) by {
        assert(item_name(es[j].1) is Some);
    }
    assert forall|j: int| 0 <= j < es.len() && (#[trigger] es[j]).1.details is Enum implies exists|k: int| 0 <= k < r.len()
        && node_path(r[k]) == segments(module_of(partition, default_module, es[j].1.details->Enum_0.name@))
        && r[k].types@.contains(es[j].0) by {
        assert(item_name(es[j].1) is Some);
    }
}

} // verus!
