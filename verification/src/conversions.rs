//! Schema-to-type conversions specified in the settings.
//!
//! A conversion matches an input schema if every keyword the conversion
//! schema specifies is present in the input schema with an equal value; the
//! input schema may specify additional keywords, except that a conversion
//! never matches a schema whose `enum` or `const` it does not specify (so a
//! plain `{ "type": "string" }` conversion does not take over string
//! enumerations). Metadata (title,
//! description, examples, etc.) is ignored on both sides. Of the conversions
//! that match a given schema, the most specific--the one that specifies the
//! most keywords--is used; ties are broken in favor of the conversion
//! specified first.
//!
//! Schemas are given here as JSON objects: the serialized form of a schema
//! object, with its metadata among its entries.

use vstd::prelude::*;

use crate::json::{
    entries_view, find_key, json_view, key_index, obj_has, lemma_key_index, items_view, lemma_array_view,
    lemma_object_view, Json, JsonNumber, JsonValue,
};
use crate::strings::is_str;
use crate::type_entry::TypeEntry;
use crate::TypeSpaceImpl;

verus! {

/// The bits of the IEEE 754 negative zero.
pub open spec fn negative_zero_bits() -> u64 {
    0x8000_0000_0000_0000u64
}

/// Equality of JSON numbers: integers by value within their kind, and
/// floating-point numbers as IEEE 754 values (so `0.0` equals `-0.0`).
pub open spec fn number_eq(a: JsonNumber, b: JsonNumber) -> bool {
    match (a, b) {
        (JsonNumber::PosInt(x), JsonNumber::PosInt(y)) => x == y,
        (JsonNumber::NegInt(x), JsonNumber::NegInt(y)) => x == y,
        (JsonNumber::Float(x), JsonNumber::Float(y)) => x == y || ((x == 0 || x
            == negative_zero_bits()) && (y == 0 || y == negative_zero_bits())),
        _ => false,
    }
}

/// Deep equality of JSON values: arrays item by item, objects as maps (the
/// same number of entries, and each key of the first found in the second
/// with an equal value).
pub open spec fn json_eq(a: Json, b: Json) -> bool
    decreases a,
{
    match a {
        Json::Null => b is Null,
        Json::Bool(x) => b matches Json::Bool(y) && x == y,
        Json::Number(x) => b matches Json::Number(y) && number_eq(x, y),
        Json::Str(x) => b matches Json::Str(y) && x == y,
        Json::Array(xs) => b matches Json::Array(ys) && xs.len() == ys.len() && items_eq(xs, ys),
        Json::Object(xs) => b matches Json::Object(ys) && xs.len() == ys.len() && entries_found(
            xs,
            ys,
        ),
    }
}

/// Whether each item of `xs` equals the item of `ys` at the same index.
pub open spec fn items_eq(xs: Seq<Json>, ys: Seq<Json>) -> bool
    decreases xs,
{
    if xs.len() == 0 {
        true
    } else {
        proof {
            assert(decreases_to!(xs => xs[xs.len() - 1]));
        }
        items_eq(xs.drop_last(), ys) && json_eq(xs.last(), ys[xs.len() - 1])
    }
}

/// Whether the key of each entry of `xs` has, in the object `ys`, a value
/// equal to that of the entry.
pub open spec fn entries_found(xs: Seq<(Seq<char>, Json)>, ys: Seq<(Seq<char>, Json)>) -> bool
    decreases xs,
{
    if xs.len() == 0 {
        true
    } else {
        proof {
            assert(decreases_to!(xs => xs[xs.len() - 1]));
        }
        entries_found(xs.drop_last(), ys) && match key_index(ys, xs.last().0) {
            Some(j) => json_eq(xs.last().1, ys[j].1),
            None => false,
        }
    }
}

/// Whether the key of entry `e` has, in the object `ys`, a value equal to
/// that of `e`.
pub open spec fn entry_found(e: (Seq<char>, Json), ys: Seq<(Seq<char>, Json)>) -> bool {
    match key_index(ys, e.0) {
        Some(j) => json_eq(e.1, ys[j].1),
        None => false,
    }
}

proof fn lemma_items_eq(xs: Seq<Json>, ys: Seq<Json>)
    ensures
        items_eq(xs, ys) <==> forall|i: int| 0 <= i < xs.len() ==> #[trigger] json_eq(xs[i], ys[i]),
    decreases xs.len(),
{
    if xs.len() > 0 {
        lemma_items_eq(xs.drop_last(), ys);
        assert forall|i: int| 0 <= i < xs.len() - 1 implies xs.drop_last()[i] == xs[i] by {}
        if items_eq(xs, ys) {
            assert forall|i: int| 0 <= i < xs.len() implies #[trigger] json_eq(xs[i], ys[i]) by {
                if i < xs.len() - 1 {
                    assert(json_eq(xs.drop_last()[i], ys[i]));
                }
            }
        }
        if forall|i: int| 0 <= i < xs.len() ==> #[trigger] json_eq(xs[i], ys[i]) {
            assert forall|i: int| 0 <= i < xs.len() - 1 implies #[trigger] json_eq(xs.drop_last()[i], ys[i]) by {
                assert(json_eq(xs[i], ys[i]));
            }
            assert(json_eq(xs[xs.len() - 1], ys[xs.len() - 1]));
        }
    }
}

proof fn lemma_entries_found(xs: Seq<(Seq<char>, Json)>, ys: Seq<(Seq<char>, Json)>)
    ensures
        entries_found(xs, ys) <==> forall|i: int| 0 <= i < xs.len() ==> #[trigger] entry_found(xs[i], ys),
    decreases xs.len(),
{
    if xs.len() > 0 {
        lemma_entries_found(xs.drop_last(), ys);
        assert forall|i: int| 0 <= i < xs.len() - 1 implies xs.drop_last()[i] == xs[i] by {}
        if entries_found(xs, ys) {
            assert forall|i: int| 0 <= i < xs.len() implies #[trigger] entry_found(xs[i], ys) by {
                if i < xs.len() - 1 {
                    assert(entry_found(xs.drop_last()[i], ys));
                }
            }
        }
        if forall|i: int| 0 <= i < xs.len() ==> #[trigger] entry_found(xs[i], ys) {
            assert forall|i: int| 0 <= i < xs.len() - 1 implies #[trigger] entry_found(xs.drop_last()[i], ys) by {
                assert(entry_found(xs[i], ys));
            }
            assert(entry_found(xs[xs.len() - 1], ys));
        }
    }
}

fn number_equal(a: JsonNumber, b: JsonNumber) -> (r: bool)
    ensures
        r == number_eq(a, b),
{
    match (a, b) {
        (JsonNumber::PosInt(x), JsonNumber::PosInt(y)) => x == y,
        (JsonNumber::NegInt(x), JsonNumber::NegInt(y)) => x == y,
        (JsonNumber::Float(x), JsonNumber::Float(y)) => x == y || ((x == 0 || x
            == 0x8000_0000_0000_0000u64) && (y == 0 || y == 0x8000_0000_0000_0000u64)),
        _ => false,
    }
}

/// Whether two JSON values are deeply equal.
#[verifier::loop_isolation(false)]
pub fn json_equal(a: &JsonValue, b: &JsonValue) -> (r: bool)
    ensures
        r == json_eq(a@, b@),
    decreases a,
{
    match (a, b) {
        (JsonValue::Null, JsonValue::Null) => true,
        (JsonValue::Bool(x), JsonValue::Bool(y)) => *x == *y,
        (JsonValue::Number(x), JsonValue::Number(y)) => number_equal(*x, *y),
        (JsonValue::String(x), JsonValue::String(y)) => crate::strings::str_equal(
            x.as_str(),
            y.as_str(),
        ),
        (JsonValue::Array(xs), JsonValue::Array(ys)) => {
            proof {
                lemma_array_view(*xs);
                lemma_array_view(*ys);
            }
            if xs.len() != ys.len() {
                return false;
            }
            let mut i: usize = 0;
            while i < xs.len()
                invariant
                    i <= xs.len(),
                    xs.len() == ys.len(),
                    *a == JsonValue::Array(*xs),
                    *b == JsonValue::Array(*ys),
                    forall|k: int|
                        0 <= k < i ==> #[trigger] json_eq(json_view(xs@[k]), json_view(ys@[k])),
                decreases xs.len() - i,
            {
                proof {
                    assert(decreases_to!(xs@ => xs@[i as int]));
                }
                if !json_equal(&xs[i], &ys[i]) {
                    assert(items_view(xs@)[i as int] == json_view(xs@[i as int]));
                    assert(items_view(ys@)[i as int] == json_view(ys@[i as int]));
                    assert(!json_eq(items_view(xs@)[i as int], items_view(ys@)[i as int]));
                    proof {
                        lemma_items_eq(items_view(xs@), items_view(ys@));
                    }
                    return false;
                }
                i = i + 1;
            }
            assert forall|k: int| 0 <= k < xs.len() implies #[trigger] json_eq(
                items_view(xs@)[k],
                items_view(ys@)[k],
            ) by {
                assert(json_eq(json_view(xs@[k]), json_view(ys@[k])));
            }
            proof {
                lemma_items_eq(items_view(xs@), items_view(ys@));
            }
            true
        },
        (JsonValue::Object(xs), JsonValue::Object(ys)) => {
            proof {
                lemma_object_view(*xs);
                lemma_object_view(*ys);
            }
            if xs.len() != ys.len() {
                return false;
            }
            let ghost yv = entries_view(ys@);
            let mut i: usize = 0;
            while i < xs.len()
                invariant
                    i <= xs.len(),
                    xs.len() == ys.len(),
                    *a == JsonValue::Object(*xs),
                    *b == JsonValue::Object(*ys),
                    yv == entries_view(ys@),
                    forall|k: int|
                        0 <= k < i ==> #[trigger] entry_found(entries_view(xs@)[k], yv),
                decreases xs.len() - i,
            {
                proof {
                    assert(decreases_to!(xs@ => xs@[i as int]));
                }
                let ghost e = entries_view(xs@)[i as int];
                match find_key(ys, xs[i].0.as_str()) {
                    Some(j) => {
                        proof {
                            lemma_key_index(yv, e.0);
                        }
                        if !json_equal(&xs[i].1, &ys[j].1) {
                            assert(yv[j as int].1 == json_view(ys@[j as int].1));
                            assert(!entry_found(e, yv));
                            proof {
                                lemma_entries_found(entries_view(xs@), yv);
                            }
                            return false;
                        }
                        assert(entry_found(e, yv));
                    },
                    None => {
                        assert(!entry_found(e, yv));
                        proof {
                            lemma_entries_found(entries_view(xs@), yv);
                        }
                        return false;
                    },
                }
                i = i + 1;
            }
            proof {
                lemma_entries_found(entries_view(xs@), yv);
            }
            true
        },
        _ => false,
    }
}

/// Whether `k` names a metadata keyword of a schema object.
pub open spec fn is_metadata_key(k: Seq<char>) -> bool {
    k == "$id"@ || k == "title"@ || k == "description"@ || k == "default"@ || k == "deprecated"@
        || k == "readOnly"@ || k == "writeOnly"@ || k == "examples"@
}

fn metadata_key(k: &str) -> (r: bool)
    ensures
        r == is_metadata_key(k@),
{
    is_str(k, "$id") || is_str(k, "title") || is_str(k, "description") || is_str(k, "default")
        || is_str(k, "deprecated") || is_str(k, "readOnly") || is_str(k, "writeOnly") || is_str(
        k,
        "examples",
    )
}

/// The entries of a schema object that are not metadata, in order.
pub open spec fn strip_metadata(e: Seq<(Seq<char>, Json)>) -> Seq<(Seq<char>, Json)>
    decreases e.len(),
{
    if e.len() == 0 {
        e
    } else if is_metadata_key(e.last().0) {
        strip_metadata(e.drop_last())
    } else {
        strip_metadata(e.drop_last()).push(e.last())
    }
}

/// The keywords of a schema (the entries of its serialized object) with
/// metadata excluded.
pub fn keywords(schema: &Vec<(String, JsonValue)>) -> (r: Vec<(String, JsonValue)>)
    ensures
        entries_view(r@) == strip_metadata(entries_view(schema@)),
{
    let ghost sv = entries_view(schema@);
    let mut out: Vec<(String, JsonValue)> = Vec::new();
    let mut i: usize = 0;
    assert(sv.take(0) =~= Seq::<(Seq<char>, Json)>::empty());
    while i < schema.len()
        invariant
            i <= schema.len(),
            sv == entries_view(schema@),
            entries_view(out@) == strip_metadata(sv.take(i as int)),
        decreases schema.len() - i,
    {
        assert(sv.take(i + 1).drop_last() =~= sv.take(i as int));
        if !metadata_key(schema[i].0.as_str()) {
            let k = schema[i].0.clone();
            let v = crate::json::json_clone(&schema[i].1);
            let ghost before = out@;
            out.push((k, v));
            assert(entries_view(out@) =~= entries_view(before).push(sv[i as int]));
        }
        i = i + 1;
    }
    assert(sv.take(schema.len() as int) =~= sv);
    out
}

/// Whether every keyword of `conversion` has an equal value in `search`.
pub open spec fn conversion_matches(
    conversion: Seq<(Seq<char>, Json)>,
    search: Seq<(Seq<char>, Json)>,
) -> bool {
    forall|i: int| 0 <= i < conversion.len() ==> #[trigger] entry_found(conversion[i], search)
}

/// Whether the conversion specifies each of `enum` and `const` that the
/// schema has.
pub open spec fn pins_enumerations(conversion: Seq<(Seq<char>, Json)>, search: Seq<(Seq<char>, Json)>) -> bool {
    &&& (obj_has(search, "enum"@) ==> obj_has(conversion, "enum"@))
    &&& (obj_has(search, "const"@) ==> obj_has(conversion, "const"@))
}

/// Whether a conversion applies to a schema: its keywords match and it
/// specifies the schema's `enum` and `const`, if any.
pub open spec fn conversion_applies(conversion: Seq<(Seq<char>, Json)>, search: Seq<(Seq<char>, Json)>) -> bool {
    conversion_matches(conversion, search) && pins_enumerations(conversion, search)
}

/// Schema-to-type conversions: the keywords of each conversion schema, with
/// the native type that replaces a matching schema.
#[derive(Debug)]
pub struct SchemaCache {
    pub conversions: Vec<(Vec<(String, JsonValue)>, TypeEntry)>,
}

impl SchemaCache {
    /// A cache without conversions.
    pub fn new() -> (r: Self)
        ensures
            r.conversions@.len() == 0,
    {
        SchemaCache { conversions: Vec::new() }
    }

    /// The keywords of conversion `i`.
    pub open spec fn conversion_keywords(&self, i: int) -> Seq<(Seq<char>, Json)> {
        entries_view(self.conversions@[i].0@)
    }

    /// Whether conversion `i` applies to a schema whose keywords are
    /// `search`.
    pub open spec fn matches_at(&self, i: int, search: Seq<(Seq<char>, Json)>) -> bool {
        0 <= i < self.conversions@.len() && conversion_applies(self.conversion_keywords(i), search)
    }

    /// Whether conversion `i` is the one chosen for `search`: it matches, no
    /// matching conversion specifies more keywords, and every earlier
    /// matching conversion specifies fewer.
    pub open spec fn chosen(&self, i: int, search: Seq<(Seq<char>, Json)>) -> bool {
        &&& self.matches_at(i, search)
        &&& forall|j: int| #[trigger]
            self.matches_at(j, search) ==> self.conversion_keywords(j).len()
                <= self.conversion_keywords(i).len()
        &&& forall|j: int|
            0 <= j < i && #[trigger] self.matches_at(j, search) ==> self.conversion_keywords(
                j,
            ).len() < self.conversion_keywords(i).len()
    }

    /// Adds a conversion of the schema whose serialized entries are `schema`
    /// to the native type `name` with the trait implementations `impls`.
    pub fn insert(&mut self, schema: &Vec<(String, JsonValue)>, name: &str, impls: &[TypeSpaceImpl])
        ensures
            final(self).conversions@.len() == old(self).conversions@.len() + 1,
            forall|i: int|
                0 <= i < old(self).conversions@.len() ==> final(self).conversions@[i] == old(
                    self,
                ).conversions@[i],
            final(self).conversion_keywords(old(self).conversions@.len() as int)
                == strip_metadata(entries_view(schema@)),
            final(self).conversions@.last().1.details matches
                crate::type_entry::TypeEntryDetails::Native(n) && n.path@ == name@ && n.impls@
                == impls@ && n.parameters@.len() == 0,
    {
        let type_entry = TypeEntry::new_native(name, impls);
        let k = keywords(schema);
        self.conversions.push((k, type_entry));
    }

    /// The index of the conversion that applies to a schema whose serialized
    /// entries are `schema`.
    pub fn lookup_index(&self, schema: &Vec<(String, JsonValue)>) -> (r: Option<usize>)
        ensures
            match r {
                Some(i) => self.chosen(i as int, strip_metadata(entries_view(schema@))),
                None => forall|j: int|
                    !#[trigger] self.matches_at(j, strip_metadata(entries_view(schema@))),
            },
    {
        let search = keywords(schema);
        let ghost sv = entries_view(search@);
        let mut best: Option<usize> = None;
        let mut i: usize = 0;
        while i < self.conversions.len()
            invariant
                i <= self.conversions.len(),
                sv == entries_view(search@),
                sv == strip_metadata(entries_view(schema@)),
                match best {
                    Some(b) => b < i && self.matches_at(b as int, sv) && (forall|j: int|
                        0 <= j < i && #[trigger] self.matches_at(j, sv)
                            ==> self.conversion_keywords(j).len() <= self.conversion_keywords(
                            b as int,
                        ).len()) && (forall|j: int|
                        0 <= j < b && #[trigger] self.matches_at(j, sv)
                            ==> self.conversion_keywords(j).len() < self.conversion_keywords(
                            b as int,
                        ).len()),
                    None => forall|j: int| 0 <= j < i ==> !#[trigger] self.matches_at(j, sv),
                },
            decreases self.conversions.len() - i,
        {
            let m = conversion_applies_exec(&self.conversions[i].0, &search);
            if m {
                let better = match best {
                    Some(b) => self.conversions[b].0.len() < self.conversions[i].0.len(),
                    None => true,
                };
                if better {
                    best = Some(i);
                }
            }
            i = i + 1;
        }
        best
    }

    /// The native type that replaces a schema whose serialized entries are
    /// `schema`, if a conversion applies to it.
    pub fn lookup(&self, schema: &Vec<(String, JsonValue)>) -> (r: Option<&TypeEntry>)
        ensures
            match r {
                Some(e) => exists|i: int|
                    self.chosen(i, strip_metadata(entries_view(schema@))) && *e
                        == #[trigger] self.conversions@[i].1,
                None => forall|j: int|
                    !#[trigger] self.matches_at(j, strip_metadata(entries_view(schema@))),
            },
    {
        match self.lookup_index(schema) {
            Some(i) => Some(&self.conversions[i].1),
            None => None,
        }
    }
}

/// Whether a conversion applies to a schema (see [`conversion_applies`]).
pub fn conversion_applies_exec(conversion: &Vec<(String, JsonValue)>, search: &Vec<(String, JsonValue)>) -> (r: bool)
    ensures
        r == conversion_applies(entries_view(conversion@), entries_view(search@)),
{
    if !keywords_match(conversion, search) {
        return false;
    }
    let enum_ok = find_key(search, "enum").is_none() || find_key(conversion, "enum").is_some();
    let const_ok = find_key(search, "const").is_none() || find_key(conversion, "const").is_some();
    enum_ok && const_ok
}

/// Whether every keyword of `conversion` has an equal value in `search`.
pub fn keywords_match(conversion: &Vec<(String, JsonValue)>, search: &Vec<(String, JsonValue)>) -> (r:
    bool)
    ensures
        r == conversion_matches(entries_view(conversion@), entries_view(search@)),
{
    let ghost cv = entries_view(conversion@);
    let ghost sv = entries_view(search@);
    let mut i: usize = 0;
    while i < conversion.len()
        invariant
            i <= conversion.len(),
            cv == entries_view(conversion@),
            sv == entries_view(search@),
            forall|k: int| 0 <= k < i ==> #[trigger] entry_found(cv[k], sv),
        decreases conversion.len() - i,
    {
        match find_key(search, conversion[i].0.as_str()) {
            Some(j) => {
                if !json_equal(&conversion[i].1, &search[j].1) {
                    assert(!entry_found(cv[i as int], sv));
                    return false;
                }
            },
            None => {
                assert(!entry_found(cv[i as int], sv));
                return false;
            },
        }
        i = i + 1;
    }
    true
}


/// A conversion that specifies no keywords applies to every schema without
/// `enum` and `const`.
pub proof fn law_empty_conversion_matches(search: Seq<(Seq<char>, Json)>)
    requires
        !obj_has(search, "enum"@),
        !obj_has(search, "const"@),
    ensures
        conversion_applies(Seq::empty(), search),
{
}

/// Additional keywords on the input do not preclude a match: a conversion
/// that applies to a schema applies to it with a further keyword added,
/// other than `enum` and `const`.
pub proof fn law_extra_keyword_keeps_match(
    conversion: Seq<(Seq<char>, Json)>,
    search: Seq<(Seq<char>, Json)>,
    k: Seq<char>,
    v: Json,
)
    requires
        conversion_applies(conversion, search),
        key_index(search, k) is None,
        k != "enum"@,
        k != "const"@,
    ensures
        conversion_applies(conversion, search.push((k, v))),
{
    lemma_key_index_push_other(search, "enum"@, (k, v));
    lemma_key_index_push_other(search, "const"@, (k, v));
    let s2 = search.push((k, v));
    assert forall|i: int| 0 <= i < conversion.len() implies #[trigger] entry_found(conversion[i], s2) by {
        assert(entry_found(conversion[i], search));
        lemma_key_index_push(search, conversion[i].0, (k, v));
        lemma_key_index(search, conversion[i].0);
        let j = key_index(search, conversion[i].0)->0;
        assert(s2[j] == search[j]);
    }
}

proof fn lemma_key_index_push_other(e: Seq<(Seq<char>, Json)>, k: Seq<char>, x: (Seq<char>, Json))
    requires
        x.0 != k,
    ensures
        key_index(e.push(x), k) == key_index(e, k),
{
    assert(e.push(x).drop_last() =~= e);
}

/// A conversion that does not specify `enum` (or `const`) never applies to
/// a schema that has it.
pub proof fn law_unspecified_enumeration_excludes(conversion: Seq<(Seq<char>, Json)>, search: Seq<(Seq<char>, Json)>)
    requires
        (obj_has(search, "enum"@) && !obj_has(conversion, "enum"@)) || (obj_has(search, "const"@)
            && !obj_has(conversion, "const"@)),
    ensures
        !conversion_applies(conversion, search),
{
}

proof fn lemma_key_index_push(e: Seq<(Seq<char>, Json)>, k: Seq<char>, x: (Seq<char>, Json))
    requires
        key_index(e, k) is Some,
    ensures
        key_index(e.push(x), k) == key_index(e, k),
{
    assert(e.push(x).drop_last() =~= e);
}

/// A metadata keyword added to a schema leaves its keywords unchanged.
pub proof fn law_metadata_ignored(e: Seq<(Seq<char>, Json)>, k: Seq<char>, v: Json)
    requires
        is_metadata_key(k),
    ensures
        strip_metadata(e.push((k, v))) == strip_metadata(e),
{
    assert(e.push((k, v)).drop_last() =~= e);
}

/// The keywords of a schema hold no metadata keyword, and keep each other
/// keyword of the schema.
pub proof fn law_keywords_exclude_exactly_metadata(e: Seq<(Seq<char>, Json)>)
    ensures
        forall|i: int| 0 <= i < strip_metadata(e).len() ==> !is_metadata_key(#[trigger] strip_metadata(e)[i].0),
        forall|i: int| 0 <= i < e.len() && !is_metadata_key(#[trigger] e[i].0) ==> strip_metadata(e).contains(e[i]),
    decreases e.len(),
{
    if e.len() > 0 {
        let p = e.drop_last();
        law_keywords_exclude_exactly_metadata(p);
        let sp = strip_metadata(p);
        assert forall|i: int| 0 <= i < strip_metadata(e).len() implies !is_metadata_key(#[trigger] strip_metadata(e)[i].0) by {
            if i < sp.len() {
                assert(strip_metadata(e)[i] == sp[i]);
            }
        }
        assert forall|i: int| 0 <= i < e.len() && !is_metadata_key(#[trigger] e[i].0) implies strip_metadata(e).contains(e[i]) by {
            if i < e.len() - 1 {
                assert(p[i] == e[i]);
                assert(sp.contains(e[i]));
                let j = choose|j: int| 0 <= j < sp.len() && sp[j] == e[i];
                assert(strip_metadata(e)[j] == e[i]);
            } else {
                assert(strip_metadata(e)[strip_metadata(e).len() - 1] == e[i]);
            }
        }
    }
}

/// Of two conversions with the same keywords, the one specified later is
/// never used.
pub proof fn law_first_of_equal_conversions_wins(cache: SchemaCache, i: int, j: int, search: Seq<(Seq<char>, Json)>)
    requires
        0 <= i < j < cache.conversions@.len(),
        cache.conversion_keywords(i) == cache.conversion_keywords(j),
    ensures
        !cache.chosen(j, search),
{
    if cache.chosen(j, search) {
        assert(cache.matches_at(i, search));
    }
}

/// The most specific match wins: a matching conversion is not chosen where
/// another matching conversion specifies more keywords.
pub proof fn law_most_specific_wins(cache: SchemaCache, i: int, j: int, search: Seq<(Seq<char>, Json)>)
    requires
        cache.matches_at(i, search),
        cache.matches_at(j, search),
        cache.conversion_keywords(i).len() > cache.conversion_keywords(j).len(),
    ensures
        !cache.chosen(j, search),
{
}

/// At most one conversion is chosen for a schema.
pub proof fn law_chosen_unique(cache: SchemaCache, i: int, j: int, search: Seq<(Seq<char>, Json)>)
    requires
        cache.chosen(i, search),
        cache.chosen(j, search),
    ensures
        i == j,
{
    if i < j {
        assert(cache.matches_at(i, search));
        assert(cache.matches_at(j, search));
    } else if j < i {
        assert(cache.matches_at(i, search));
        assert(cache.matches_at(j, search));
    }
}

/// Whether every object within a JSON value has unique keys, as those of a
/// parsed document do.
pub open spec fn json_wf(a: Json) -> bool
    decreases a,
{
    match a {
        Json::Array(xs) => items_wf(xs),
        Json::Object(xs) => crate::json::keys_unique(xs) && entries_wf(xs),
        _ => true,
    }
}

/// Whether every item of `xs` is well formed.
pub open spec fn items_wf(xs: Seq<Json>) -> bool
    decreases xs,
{
    if xs.len() == 0 {
        true
    } else {
        proof {
            assert(decreases_to!(xs => xs[xs.len() - 1]));
        }
        items_wf(xs.drop_last()) && json_wf(xs.last())
    }
}

/// Whether the value of every entry of `xs` is well formed.
pub open spec fn entries_wf(xs: Seq<(Seq<char>, Json)>) -> bool
    decreases xs,
{
    if xs.len() == 0 {
        true
    } else {
        proof {
            assert(decreases_to!(xs => xs[xs.len() - 1]));
        }
        entries_wf(xs.drop_last()) && json_wf(xs.last().1)
    }
}

/// Every well-formed JSON value equals itself.
pub proof fn law_json_eq_reflexive(a: Json)
    requires
        json_wf(a),
    ensures
        json_eq(a, a),
    decreases a, 0nat,
{
    match a {
        Json::Array(xs) => {
            lemma_items_eq_refl(xs, xs.len() as int);
            assert(xs.take(xs.len() as int) =~= xs);
        },
        Json::Object(xs) => {
            lemma_entries_found_refl(xs, xs, xs.len() as int);
            assert(xs.take(xs.len() as int) =~= xs);
        },
        _ => {},
    }
}

proof fn lemma_items_eq_refl(xs: Seq<Json>, n: int)
    requires
        0 <= n <= xs.len(),
        items_wf(xs),
    ensures
        items_eq(xs.take(n), xs),
    decreases xs, n,
{
    if n > 0 {
        lemma_items_wf_at(xs, n - 1);
        assert(decreases_to!(xs => xs[n - 1]));
        law_json_eq_reflexive(xs[n - 1]);
        lemma_items_eq_refl(xs, n - 1);
        assert(xs.take(n).drop_last() =~= xs.take(n - 1));
    }
}

proof fn lemma_items_wf_at(xs: Seq<Json>, i: int)
    requires
        0 <= i < xs.len(),
        items_wf(xs),
    ensures
        json_wf(xs[i]),
    decreases xs.len(),
{
    if i < xs.len() - 1 {
        lemma_items_wf_at(xs.drop_last(), i);
    }
}

proof fn lemma_entries_wf_at(xs: Seq<(Seq<char>, Json)>, i: int)
    requires
        0 <= i < xs.len(),
        entries_wf(xs),
    ensures
        json_wf(xs[i].1),
    decreases xs.len(),
{
    if i < xs.len() - 1 {
        lemma_entries_wf_at(xs.drop_last(), i);
    }
}

proof fn lemma_entries_found_refl(xs: Seq<(Seq<char>, Json)>, all: Seq<(Seq<char>, Json)>, n: int)
    requires
        0 <= n <= xs.len(),
        xs == all,
        crate::json::keys_unique(xs),
        entries_wf(xs),
    ensures
        entries_found(xs.take(n), all),
    decreases xs, n,
{
    if n > 0 {
        lemma_entries_wf_at(xs, n - 1);
        assert(decreases_to!(xs => xs[n - 1]));
        law_json_eq_reflexive(xs[n - 1].1);
        lemma_entries_found_refl(xs, all, n - 1);
        assert(xs.take(n).drop_last() =~= xs.take(n - 1));
        lemma_key_index(all, xs[n - 1].0);
        assert(key_index(all, xs[n - 1].0) == Some(n - 1));
    }
}

/// A conversion whose keywords have unique keys and well-formed values
/// applies to a schema with exactly those keywords.
pub proof fn law_conversion_matches_itself(c: Seq<(Seq<char>, Json)>)
    requires
        crate::json::keys_unique(c),
        entries_wf(c),
    ensures
        conversion_applies(c, c),
{
    assert forall|i: int| 0 <= i < c.len() implies #[trigger] entry_found(c[i], c) by {
        lemma_key_index(c, c[i].0);
        assert(key_index(c, c[i].0) == Some(i));
        lemma_entries_wf_at(c, i);
        law_json_eq_reflexive(c[i].1);
    }
}

} // verus!
