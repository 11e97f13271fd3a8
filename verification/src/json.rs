//! A JSON value model: the executable [`JsonValue`] and its mathematical
//! view [`Json`], with the object operations that schema normalization and
//! conversion lookup rely on.
//!
//! An object is a sequence of `(key, value)` entries. Lookups find the first
//! entry with a key; inserting a present key replaces its value in place and
//! inserting an absent key appends it; removing a key removes its first entry.
//! Objects that come from a parsed document have unique keys, on which these
//! operations are those of a map.

use vstd::prelude::*;

use crate::strings::str_equal;

verus! {

/// A JSON number, held as its exact representation: a non-negative integer,
/// a negative integer, or a floating-point number given by its IEEE 754 bits.
#[derive(Clone, Copy, Debug, PartialEq, Eq, Structural)]
pub enum JsonNumber {
    PosInt(u64),
    NegInt(i64),
    Float(u64),
}

/// The value of a JSON document.
pub enum Json {
    Null,
    Bool(bool),
    Number(JsonNumber),
    Str(Seq<char>),
    Array(Seq<Json>),
    Object(Seq<(Seq<char>, Json)>),
}

/// A JSON document.
#[derive(Debug)]
pub enum JsonValue {
    Null,
    Bool(bool),
    Number(JsonNumber),
    String(String),
    Array(Vec<JsonValue>),
    Object(Vec<(String, JsonValue)>),
}

/// The mathematical value of a JSON document.
pub open spec fn json_view(v: JsonValue) -> Json
    decreases v,
{
    match v {
        JsonValue::Null => Json::Null,
        JsonValue::Bool(b) => Json::Bool(b),
        JsonValue::Number(n) => Json::Number(n),
        JsonValue::String(s) => Json::Str(s@),
        JsonValue::Array(items) => Json::Array(
            Seq::new(
                items.len() as nat,
                |i: int|
                    if 0 <= i < items.len() {
                        json_view(items@[i])
                    } else {
                        Json::Null
                    },
            ),
        ),
        JsonValue::Object(entries) => Json::Object(
            Seq::new(
                entries.len() as nat,
                |i: int|
                    if 0 <= i < entries.len() {
                        (entries@[i].0@, json_view(entries@[i].1))
                    } else {
                        (Seq::empty(), Json::Null)
                    },
            ),
        ),
    }
}

impl View for JsonValue {
    type V = Json;

    open spec fn view(&self) -> Json {
        json_view(*self)
    }
}

/// The view of the items of an array.
pub open spec fn items_view(items: Seq<JsonValue>) -> Seq<Json> {
    Seq::new(items.len(), |i: int| json_view(items[i]))
}

/// The view of the entries of an object.
pub open spec fn entries_view(entries: Seq<(String, JsonValue)>) -> Seq<(Seq<char>, Json)> {
    Seq::new(entries.len(), |i: int| (entries[i].0@, json_view(entries[i].1)))
}

pub proof fn lemma_array_view(items: Vec<JsonValue>)
    ensures
        json_view(JsonValue::Array(items)) == Json::Array(items_view(items@)),
{
    assert(json_view(JsonValue::Array(items))->Array_0 =~= items_view(items@));
}

pub proof fn lemma_object_view(entries: Vec<(String, JsonValue)>)
    ensures
        json_view(JsonValue::Object(entries)) == Json::Object(entries_view(entries@)),
{
    assert(json_view(JsonValue::Object(entries))->Object_0 =~= entries_view(entries@));
}

/// The index of the first entry with key `k`.
pub open spec fn key_index(e: Seq<(Seq<char>, Json)>, k: Seq<char>) -> Option<int>
    decreases e.len(),
{
    if e.len() == 0 {
        None
    } else {
        match key_index(e.drop_last(), k) {
            Some(i) => Some(i),
            None => if e.last().0 == k {
                Some(e.len() - 1)
            } else {
                None
            },
        }
    }
}

/// The value of the first entry with key `k`.
pub open spec fn obj_get(e: Seq<(Seq<char>, Json)>, k: Seq<char>) -> Option<Json> {
    match key_index(e, k) {
        Some(i) => Some(e[i].1),
        None => None,
    }
}

/// Whether some entry has key `k`.
pub open spec fn obj_has(e: Seq<(Seq<char>, Json)>, k: Seq<char>) -> bool {
    key_index(e, k) is Some
}

/// The entries without the first entry with key `k`.
pub open spec fn obj_remove(e: Seq<(Seq<char>, Json)>, k: Seq<char>) -> Seq<(Seq<char>, Json)> {
    match key_index(e, k) {
        Some(i) => e.remove(i),
        None => e,
    }
}

/// The entries with `v` as the value of key `k`.
pub open spec fn obj_insert(e: Seq<(Seq<char>, Json)>, k: Seq<char>, v: Json) -> Seq<
    (Seq<char>, Json),
> {
    match key_index(e, k) {
        Some(i) => e.update(i, (k, v)),
        None => e.push((k, v)),
    }
}

/// The keys of an object's entries, in order.
pub open spec fn obj_keys(e: Seq<(Seq<char>, Json)>) -> Seq<Seq<char>> {
    Seq::new(e.len(), |i: int| e[i].0)
}

/// Whether no two entries share a key.
pub open spec fn keys_unique(e: Seq<(Seq<char>, Json)>) -> bool {
    forall|i: int, j: int| 0 <= i < j < e.len() ==> e[i].0 != e[j].0
}

pub proof fn lemma_key_index(e: Seq<(Seq<char>, Json)>, k: Seq<char>)
    ensures
        key_index(e, k) matches Some(i) ==> 0 <= i < e.len() && e[i].0 == k && forall|j: int|
            0 <= j < i ==> e[j].0 != k,
        key_index(e, k) is None ==> forall|j: int| 0 <= j < e.len() ==> e[j].0 != k,
    decreases e.len(),
{
    if e.len() > 0 {
        let p = e.drop_last();
        lemma_key_index(p, k);
        assert forall|j: int| 0 <= j < p.len() implies p[j] == e[j] by {}
    }
}

proof fn lemma_key_index_prefix(e: Seq<(Seq<char>, Json)>, k: Seq<char>, i: int)
    requires
        0 <= i < e.len(),
        e[i].0 == k,
        key_index(e.take(i), k) is None,
    ensures
        key_index(e, k) == Some(i),
    decreases e.len(),
{
    if i < e.len() - 1 {
        assert(e.drop_last().take(i) =~= e.take(i));
        lemma_key_index_prefix(e.drop_last(), k, i);
    } else {
        assert(e.drop_last() =~= e.take(i));
    }
}

/// The index of the first entry of `entries` whose key is `key`.
pub fn find_key(entries: &Vec<(String, JsonValue)>, key: &str) -> (r: Option<usize>)
    ensures
        r matches Some(i) ==> key_index(entries_view(entries@), key@) == Some(i as int) && i
            < entries@.len(),
        r is None ==> key_index(entries_view(entries@), key@) is None,
{
    let ghost ev = entries_view(entries@);
    let mut i: usize = 0;
    while i < entries.len()
        invariant
            i <= entries.len(),
            ev == entries_view(entries@),
            key_index(ev.take(i as int), key@) is None,
        decreases entries.len() - i,
    {
        assert(ev.take(i + 1).drop_last() =~= ev.take(i as int));
        if str_equal(entries[i].0.as_str(), key) {
            proof {
                lemma_key_index_prefix(ev, key@, i as int);
            }
            return Some(i);
        }
        i = i + 1;
    }
    assert(ev.take(entries.len() as int) =~= ev);
    None
}

/// The value of the first entry of `entries` whose key is `key`.
pub fn obj_get_ref<'a>(entries: &'a Vec<(String, JsonValue)>, key: &str) -> (r: Option<
    &'a JsonValue,
>)
    ensures
        r matches Some(v) ==> obj_get(entries_view(entries@), key@) == Some(v@),
        r is None ==> obj_get(entries_view(entries@), key@) is None,
{
    match find_key(entries, key) {
        Some(i) => Some(&entries[i].1),
        None => None,
    }
}

/// Removes the first entry of `entries` whose key is `key`, returning its
/// value.
pub fn obj_remove_key(entries: &mut Vec<(String, JsonValue)>, key: &str) -> (r: Option<JsonValue>)
    ensures
        entries_view(final(entries)@) == obj_remove(entries_view(old(entries)@), key@),
        r matches Some(v) ==> obj_get(entries_view(old(entries)@), key@) == Some(v@),
        r is None ==> obj_get(entries_view(old(entries)@), key@) is None,
{
    match find_key(entries, key) {
        Some(i) => {
            let (_, v) = entries.remove(i);
            assert(entries_view(entries@) =~= entries_view(old(entries)@).remove(i as int));
            Some(v)
        },
        None => None,
    }
}

/// Sets the value of key `key` in `entries` to `value`.
pub fn obj_insert_key(entries: &mut Vec<(String, JsonValue)>, key: String, value: JsonValue)
    ensures
        entries_view(final(entries)@) == obj_insert(entries_view(old(entries)@), key@, value@),
{
    let ghost kv = key@;
    let ghost vv = value@;
    match find_key(entries, key.as_str()) {
        Some(i) => {
            entries.set(i, (key, value));
            assert(entries_view(entries@) =~= entries_view(old(entries)@).update(
                i as int,
                (kv, vv),
            ));
        },
        None => {
            entries.push((key, value));
            assert(entries_view(entries@) =~= entries_view(old(entries)@).push((kv, vv)));
        },
    }
}

/// A copy of a JSON document.
#[verifier::loop_isolation(false)]
pub fn json_clone(v: &JsonValue) -> (r: JsonValue)
    ensures
        r@ == v@,
    decreases v,
{
    match v {
        JsonValue::Null => JsonValue::Null,
        JsonValue::Bool(b) => JsonValue::Bool(*b),
        JsonValue::Number(n) => JsonValue::Number(*n),
        JsonValue::String(s) => JsonValue::String(s.clone()),
        JsonValue::Array(items) => {
            let mut out: Vec<JsonValue> = Vec::new();
            let mut i: usize = 0;
            while i < items.len()
                invariant
                    i <= items.len(),
                    out.len() == i,
                    forall|j: int| 0 <= j < i ==> json_view(#[trigger] out@[j]) == json_view(items@[j]),
                decreases items.len() - i,
            {
                proof {
                    assert(decreases_to!(items@ => items@[i as int]));
                }
                let c = json_clone(&items[i]);
                out.push(c);
                i = i + 1;
            }
            let r = JsonValue::Array(out);
            assert(json_view(r)->Array_0 =~= json_view(*v)->Array_0);
            r
        },
        JsonValue::Object(entries) => {
            let out = entries_clone(entries);
            let r = JsonValue::Object(out);
            proof {
                lemma_object_view(out);
                lemma_object_view(*entries);
            }
            r
        },
    }
}

impl Clone for JsonValue {
    fn clone(&self) -> (r: Self)
        ensures
            r@ == self@,
    {
        json_clone(self)
    }
}

/// A copy of the entries of an object.
#[verifier::loop_isolation(false)]
pub fn entries_clone(entries: &Vec<(String, JsonValue)>) -> (r: Vec<(String, JsonValue)>)
    ensures
        entries_view(r@) == entries_view(entries@),
    decreases entries, 1nat,
{
    let mut out: Vec<(String, JsonValue)> = Vec::new();
    let mut i: usize = 0;
    while i < entries.len()
        invariant
            i <= entries.len(),
            out.len() == i,
            forall|j: int|
                0 <= j < i ==> (#[trigger] out@[j]).0@ == entries@[j].0@ && json_view(out@[j].1)
                    == json_view(entries@[j].1),
        decreases entries.len() - i,
    {
        proof {
            assert(decreases_to!(entries@ => entries@[i as int]));
        }
        let k = entries[i].0.clone();
        let c = json_clone(&entries[i].1);
        out.push((k, c));
        i = i + 1;
    }
    assert(entries_view(out@) =~= entries_view(entries@));
    out
}

} // verus!
