//! A collection of types, each with a [`TypeId`], and the queries over it.

use vstd::prelude::*;

use crate::conversions::SchemaCache;
use crate::json::JsonValue;
use crate::settings::TypeSpaceSettings;
use crate::strings::str_equal;
use crate::type_entry::{
    EnumTagType, StructProperty, StructPropertyState, TypeEntry, TypeEntryDetails, TypeEntryEnum,
    TypeEntryEnumImpl, TypeEntryNative, TypeEntryNewtype, TypeEntryNewtypeConstraints,
    TypeEntryStruct, Variant, VariantDetails,
};
use crate::{Error, TypeId, TypeSpaceImpl};

verus! {

/// The key of a referenced schema: the root schema or a named definition.
#[derive(Debug)]
pub enum RefKey {
    Root,
    Def(String),
}

/// A shared function generating a default value.
#[derive(Debug, Clone, Copy, PartialEq, Eq, Structural, PartialOrd, Ord)]
pub enum DefaultImpl {
    Boolean,
    I64,
    U64,
    NZU64,
}

/// A collection of types.
#[derive(Debug)]
pub struct TypeSpace {
    pub next_id: u64,
    pub definitions: Vec<(RefKey, JsonValue)>,
    /// The entries, in increasing order of their ids.
    pub id_to_entry: Vec<(TypeId, TypeEntry)>,
    /// The ids of unnamed types, by their details.
    pub type_to_id: Vec<(TypeEntryDetails, TypeId)>,
    /// The ids of named types, by name.
    pub name_to_id: Vec<(String, TypeId)>,
    pub ref_to_id: Vec<(RefKey, TypeId)>,
    pub uses_chrono: bool,
    pub uses_uuid: bool,
    pub uses_serde_json: bool,
    pub uses_regress: bool,
    pub settings: TypeSpaceSettings,
    pub cache: SchemaCache,
    pub defaults: Vec<DefaultImpl>,
}

/// Whether the details name a user-defined type.
pub open spec fn is_named(d: TypeEntryDetails) -> bool {
    d is Enum || d is Struct || d is Newtype
}

/// Whether two unnamed type details denote the same type; named details are
/// never compared this way.
pub open spec fn same_details(a: TypeEntryDetails, b: TypeEntryDetails) -> bool {
    match (a, b) {
        (TypeEntryDetails::Native(x), TypeEntryDetails::Native(y)) => x.path@ == y.path@
            && x.impls@ == y.impls@ && x.parameters@ == y.parameters@,
        (TypeEntryDetails::Option(x), TypeEntryDetails::Option(y)) => x == y,
        (TypeEntryDetails::Box(x), TypeEntryDetails::Box(y)) => x == y,
        (TypeEntryDetails::Vec(x), TypeEntryDetails::Vec(y)) => x == y,
        (TypeEntryDetails::MapOf(k1, v1), TypeEntryDetails::MapOf(k2, v2)) => k1 == k2 && v1 == v2,
        (TypeEntryDetails::SetOf(x), TypeEntryDetails::SetOf(y)) => x == y,
        (TypeEntryDetails::Array(x, n), TypeEntryDetails::Array(y, m)) => x == y && n == m,
        (TypeEntryDetails::Tuple(x), TypeEntryDetails::Tuple(y)) => x@ == y@,
        (TypeEntryDetails::Unit, TypeEntryDetails::Unit) => true,
        (TypeEntryDetails::Boolean, TypeEntryDetails::Boolean) => true,
        (TypeEntryDetails::Integer(x), TypeEntryDetails::Integer(y)) => x@ == y@,
        (TypeEntryDetails::Float(x), TypeEntryDetails::Float(y)) => x@ == y@,
        (TypeEntryDetails::String, TypeEntryDetails::String) => true,
        (TypeEntryDetails::JsonValue, TypeEntryDetails::JsonValue) => true,
        (TypeEntryDetails::Reference(x), TypeEntryDetails::Reference(y)) => x == y,
        _ => false,
    }
}

pub(crate) fn same_ids(a: &Vec<TypeId>, b: &Vec<TypeId>) -> (r: bool)
    ensures
        r == (a@ == b@),
{
    if a.len() != b.len() {
        return false;
    }
    let mut i: usize = 0;
    while i < a.len()
        invariant
            i <= a.len(),
            a.len() == b.len(),
            forall|k: int| 0 <= k < i ==> a@[k] == b@[k],
        decreases a.len() - i,
    {
        if a[i] != b[i] {
            return false;
        }
        i = i + 1;
    }
    assert(a@ =~= b@);
    true
}

fn same_impls(a: &Vec<crate::TypeSpaceImpl>, b: &Vec<crate::TypeSpaceImpl>) -> (r: bool)
    ensures
        r == (a@ == b@),
{
    if a.len() != b.len() {
        return false;
    }
    let mut i: usize = 0;
    while i < a.len()
        invariant
            i <= a.len(),
            a.len() == b.len(),
            forall|k: int| 0 <= k < i ==> a@[k] == b@[k],
        decreases a.len() - i,
    {
        if a[i] != b[i] {
            return false;
        }
        i = i + 1;
    }
    assert(a@ =~= b@);
    true
}

/// Whether two unnamed type details denote the same type.
pub fn details_equal(a: &TypeEntryDetails, b: &TypeEntryDetails) -> (r: bool)
    ensures
        r == same_details(*a, *b),
{
    match (a, b) {
        (TypeEntryDetails::Native(x), TypeEntryDetails::Native(y)) => str_equal(
            x.path.as_str(),
            y.path.as_str(),
        ) && same_impls(&x.impls, &y.impls) && same_ids(&x.parameters, &y.parameters),
        (TypeEntryDetails::Option(x), TypeEntryDetails::Option(y)) => *x == *y,
        (TypeEntryDetails::Box(x), TypeEntryDetails::Box(y)) => *x == *y,
        (TypeEntryDetails::Vec(x), TypeEntryDetails::Vec(y)) => *x == *y,
        (TypeEntryDetails::MapOf(k1, v1), TypeEntryDetails::MapOf(k2, v2)) => *k1 == *k2 && *v1
            == *v2,
        (TypeEntryDetails::SetOf(x), TypeEntryDetails::SetOf(y)) => *x == *y,
        (TypeEntryDetails::Array(x, n), TypeEntryDetails::Array(y, m)) => *x == *y && *n == *m,
        (TypeEntryDetails::Tuple(x), TypeEntryDetails::Tuple(y)) => same_ids(x, y),
        (TypeEntryDetails::Unit, TypeEntryDetails::Unit) => true,
        (TypeEntryDetails::Boolean, TypeEntryDetails::Boolean) => true,
        (TypeEntryDetails::Integer(x), TypeEntryDetails::Integer(y)) => str_equal(
            x.as_str(),
            y.as_str(),
        ),
        (TypeEntryDetails::Float(x), TypeEntryDetails::Float(y)) => str_equal(x.as_str(), y.as_str()),
        (TypeEntryDetails::String, TypeEntryDetails::String) => true,
        (TypeEntryDetails::JsonValue, TypeEntryDetails::JsonValue) => true,
        (TypeEntryDetails::Reference(x), TypeEntryDetails::Reference(y)) => *x == *y,
        _ => false,
    }
}

/// A copy of unnamed type details.
pub fn copy_unnamed_details(d: &TypeEntryDetails) -> (r: TypeEntryDetails)
    requires
        !is_named(*d),
    ensures
        same_details(r, *d),
{
    match d {
        TypeEntryDetails::Native(n) => TypeEntryDetails::Native(
            TypeEntryNative {
                path: n.path.clone(),
                impls: crate::type_entry::copy_impls(n.impls.as_slice()),
                parameters: crate::type_entry::copy_ids(n.parameters.as_slice()),
            },
        ),
        TypeEntryDetails::Option(x) => TypeEntryDetails::Option(*x),
        TypeEntryDetails::Box(x) => TypeEntryDetails::Box(*x),
        TypeEntryDetails::Vec(x) => TypeEntryDetails::Vec(*x),
        TypeEntryDetails::MapOf(k, v) => TypeEntryDetails::MapOf(*k, *v),
        TypeEntryDetails::SetOf(x) => TypeEntryDetails::SetOf(*x),
        TypeEntryDetails::Array(x, n) => TypeEntryDetails::Array(*x, *n),
        TypeEntryDetails::Tuple(ids) => TypeEntryDetails::Tuple(
            crate::type_entry::copy_ids(ids.as_slice()),
        ),
        TypeEntryDetails::Unit => TypeEntryDetails::Unit,
        TypeEntryDetails::Boolean => TypeEntryDetails::Boolean,
        TypeEntryDetails::Integer(n) => TypeEntryDetails::Integer(n.clone()),
        TypeEntryDetails::Float(n) => TypeEntryDetails::Float(n.clone()),
        TypeEntryDetails::String => TypeEntryDetails::String,
        TypeEntryDetails::JsonValue => TypeEntryDetails::JsonValue,
        TypeEntryDetails::Reference(x) => TypeEntryDetails::Reference(*x),
        _ => TypeEntryDetails::Unit,
    }
}

/// The index of the entry with id `id`.
pub open spec fn entry_pos(entries: Seq<(TypeId, TypeEntry)>, id: TypeId) -> Option<int>
    decreases entries.len(),
{
    if entries.len() == 0 {
        None
    } else {
        match entry_pos(entries.drop_last(), id) {
            Some(i) => Some(i),
            None => if entries.last().0 == id {
                Some(entries.len() - 1)
            } else {
                None
            },
        }
    }
}

/// The index of the first entry of `s` whose details denote the same type
/// as `d`.
pub open spec fn details_pos(s: Seq<(TypeEntryDetails, TypeId)>, d: TypeEntryDetails) -> Option<int>
    decreases s.len(),
{
    if s.len() == 0 {
        None
    } else {
        match details_pos(s.drop_last(), d) {
            Some(i) => Some(i),
            None => if same_details(s.last().0, d) {
                Some(s.len() - 1)
            } else {
                None
            },
        }
    }
}

proof fn lemma_entry_pos(s: Seq<(TypeId, TypeEntry)>, id: TypeId)
    ensures
        entry_pos(s, id) matches Some(i) ==> 0 <= i < s.len() && s[i].0 == id && forall|j: int|
            0 <= j < i ==> s[j].0 != id,
        entry_pos(s, id) is None ==> forall|j: int| 0 <= j < s.len() ==> s[j].0 != id,
    decreases s.len(),
{
    if s.len() > 0 {
        lemma_entry_pos(s.drop_last(), id);
        assert forall|j: int| 0 <= j < s.len() - 1 implies s.drop_last()[j] == s[j] by {}
    }
}

proof fn lemma_entry_pos_prefix(s: Seq<(TypeId, TypeEntry)>, id: TypeId, i: int)
    requires
        0 <= i < s.len(),
        s[i].0 == id,
        entry_pos(s.take(i), id) is None,
    ensures
        entry_pos(s, id) == Some(i),
    decreases s.len(),
{
    if i < s.len() - 1 {
        assert(s.drop_last().take(i) =~= s.take(i));
        lemma_entry_pos_prefix(s.drop_last(), id, i);
    } else {
        assert(s.drop_last() =~= s.take(i));
    }
}

proof fn lemma_details_pos(s: Seq<(TypeEntryDetails, TypeId)>, d: TypeEntryDetails)
    ensures
        details_pos(s, d) matches Some(i) ==> 0 <= i < s.len() && same_details(s[i].0, d),
        details_pos(s, d) is None ==> forall|j: int| 0 <= j < s.len() ==> !same_details(s[j].0, d),
    decreases s.len(),
{
    if s.len() > 0 {
        lemma_details_pos(s.drop_last(), d);
        assert forall|j: int| 0 <= j < s.len() - 1 implies s.drop_last()[j] == s[j] by {}
    }
}

proof fn lemma_details_pos_prefix(s: Seq<(TypeEntryDetails, TypeId)>, d: TypeEntryDetails, i: int)
    requires
        0 <= i < s.len(),
        same_details(s[i].0, d),
        details_pos(s.take(i), d) is None,
    ensures
        details_pos(s, d) == Some(i),
    decreases s.len(),
{
    if i < s.len() - 1 {
        assert(s.drop_last().take(i) =~= s.take(i));
        lemma_details_pos_prefix(s.drop_last(), d, i);
    } else {
        assert(s.drop_last() =~= s.take(i));
    }
}

/// The entry with id `id` in a type space.
pub open spec fn entry_of(space: TypeSpace, id: TypeId) -> Option<TypeEntry> {
    match entry_pos(space.id_to_entry@, id) {
        Some(i) => Some(space.id_to_entry@[i].1),
        None => None,
    }
}

/// The id of a named type in a type space, by name.
pub open spec fn named_id(space: TypeSpace, name: Seq<char>) -> Option<TypeId> {
    match crate::settings::key_pos(space.name_to_id@, name) {
        Some(i) => Some(space.name_to_id@[i].1),
        None => None,
    }
}

/// Whether conversion `i` of a cache is the conversion `c`: its keywords
/// are those of `c`'s schema, its type the native type `c` names.
pub open spec fn conversion_is(cache: SchemaCache, i: int, c: crate::settings::TypeSpaceConversion) -> bool {
    &&& cache.conversion_keywords(i) == crate::conversions::strip_metadata(
        crate::json::entries_view(c.schema@),
    )
    &&& cache.conversions@[i].1.details matches TypeEntryDetails::Native(n)
    &&& n.path@ == c.name@
    &&& n.impls@ == c.impls@
    &&& n.parameters@.len() == 0
}

/// Whether `new` and `r` are what assigning `ty` in `old` gives: `r` is
/// the id that [`TypeSpace::assigned_id`] names; an id that is not new
/// leaves the type space unchanged; a new one is the next id, the entry is
/// added with it, and the name (for a named type) or the details (for an
/// unnamed one) are recorded.
pub open spec fn assign_post(old: TypeSpace, ty: TypeEntry, new: TypeSpace, r: TypeId) -> bool {
    &&& r == old.assigned_id(ty.details).0
    &&& !old.assigned_id(ty.details).1 ==> new == old
    &&& old.assigned_id(ty.details).1 ==> {
        &&& new.next_id == old.next_id + 1
        &&& new.id_to_entry@ == old.id_to_entry@.push((r, ty))
        &&& is_named(ty.details) ==> new.name_to_id@.len() == old.name_to_id@.len() + 1
            && new.name_to_id@.drop_last() == old.name_to_id@ && new.name_to_id@.last().0@
            == ty.spec_name()->0 && new.name_to_id@.last().1 == r && new.type_to_id
            == old.type_to_id
        &&& !is_named(ty.details) ==> new.type_to_id@.len() == old.type_to_id@.len() + 1
            && new.type_to_id@.drop_last() == old.type_to_id@ && same_details(
            new.type_to_id@.last().0,
            ty.details,
        ) && new.type_to_id@.last().1 == r && new.name_to_id == old.name_to_id
        &&& new == (TypeSpace {
            next_id: new.next_id,
            id_to_entry: new.id_to_entry,
            type_to_id: new.type_to_id,
            name_to_id: new.name_to_id,
            ..old
        })
    }
}

/// The entry with the default of its schema's metadata, where there is
/// metadata and the entry is a generated enum, struct or newtype.
pub open spec fn with_metadata_default(ty: TypeEntry, metadata_default: Option<Option<JsonValue>>) -> TypeEntry {
    match metadata_default {
        Some(default) => match ty.details {
            TypeEntryDetails::Enum(e) => TypeEntry { details: TypeEntryDetails::Enum(TypeEntryEnum { default, ..e }), ..ty },
            TypeEntryDetails::Struct(st) => TypeEntry { details: TypeEntryDetails::Struct(TypeEntryStruct { default, ..st }), ..ty },
            TypeEntryDetails::Newtype(n) => TypeEntry { details: TypeEntryDetails::Newtype(TypeEntryNewtype { default, ..n }), ..ty },
            _ => ty,
        },
        None => ty,
    }
}

/// A type assigned once is found again: assigning the same details a
/// second time gives the same id and adds nothing.
pub proof fn law_assign_type_again(old: TypeSpace, ty: TypeEntry, new: TypeSpace, r: TypeId)
    requires
        assign_post(old, ty, new, r),
    ensures
        new.assigned_id(ty.details) == (r, false),
{
    lemma_same_details_refl(ty.details);
    if !(ty.details is Reference) && old.assigned_id(ty.details).1 {
        if is_named(ty.details) {
            let n = crate::type_entry::details_name(ty.details)->0;
            crate::settings::lemma_key_pos(old.name_to_id@, n);
            let k = new.name_to_id@.len() - 1;
            assert forall|j: int| 0 <= j < k implies new.name_to_id@.take(k)[j].0@ != n by {
                assert(new.name_to_id@.take(k)[j] == old.name_to_id@[j]);
            }
            crate::settings::lemma_key_pos(new.name_to_id@.take(k), n);
            crate::settings::lemma_key_pos_prefix(new.name_to_id@, n, k);
        } else {
            lemma_details_pos(old.type_to_id@, ty.details);
            let k = new.type_to_id@.len() - 1;
            assert(new.type_to_id@.take(k) =~= old.type_to_id@);
            lemma_details_pos_prefix(new.type_to_id@, ty.details, k);
        }
    }
}

/// Assigning a type keeps every entry of the type space under its id.
pub proof fn law_assign_type_keeps_entries(old: TypeSpace, ty: TypeEntry, new: TypeSpace, r: TypeId, id: TypeId)
    requires
        assign_post(old, ty, new, r),
        entry_of(old, id) is Some,
    ensures
        entry_of(new, id) == entry_of(old, id),
{
    if old.assigned_id(ty.details).1 {
        lemma_entry_pos(old.id_to_entry@, id);
        let i = entry_pos(old.id_to_entry@, id)->0;
        assert(new.id_to_entry@.take(i) =~= old.id_to_entry@.take(i));
        assert(new.id_to_entry@.take(i + 1) =~= old.id_to_entry@.take(i + 1));
        lemma_entry_pos_take(old.id_to_entry@, id, i);
        lemma_entry_pos_prefix(new.id_to_entry@, id, i);
    }
}

proof fn lemma_entry_pos_take(s: Seq<(TypeId, TypeEntry)>, id: TypeId, i: int)
    requires
        entry_pos(s, id) == Some(i),
    ensures
        entry_pos(s.take(i), id) is None,
{
    lemma_entry_pos(s, id);
    assert forall|j: int| 0 <= j < i implies s.take(i)[j].0 != id by {
        assert(s.take(i)[j] == s[j]);
    }
    lemma_entry_pos_none(s.take(i), id);
}

proof fn lemma_entry_pos_none(s: Seq<(TypeId, TypeEntry)>, id: TypeId)
    requires
        forall|j: int| 0 <= j < s.len() ==> s[j].0 != id,
    ensures
        entry_pos(s, id) is None,
    decreases s.len(),
{
    if s.len() > 0 {
        assert forall|j: int| 0 <= j < s.len() - 1 implies s.drop_last()[j].0 != id by {
            assert(s.drop_last()[j] == s[j]);
        }
        lemma_entry_pos_none(s.drop_last(), id);
    }
}

proof fn lemma_same_details_refl(d: TypeEntryDetails)
    ensures
        !is_named(d) ==> same_details(d, d),
{
}

/// A representation of a type which may have a definition or may be
/// built-in.
#[derive(Debug)]
pub struct Type<'a> {
    pub type_space: &'a TypeSpace,
    pub type_entry: &'a TypeEntry,
}

impl TypeSpace {
    /// Well-formedness: entry ids increase and are all below the next id.
    pub open spec fn wf(&self) -> bool {
        &&& forall|i: int, j: int|
            0 <= i < j < self.id_to_entry@.len() ==> (#[trigger] self.id_to_entry@[i]).0.0
                < (#[trigger] self.id_to_entry@[j]).0.0
        &&& forall|i: int|
            0 <= i < self.id_to_entry@.len() ==> (#[trigger] self.id_to_entry@[i]).0.0
                < self.next_id
    }

    /// A type space with the given settings and no types; the settings'
    /// conversions fill its schema cache, in order.
    pub fn new(settings: TypeSpaceSettings) -> (r: Self)
        ensures
            r.wf(),
            r.next_id == 1,
            r.id_to_entry@.len() == 0,
            r.type_to_id@.len() == 0,
            r.name_to_id@.len() == 0,
            r.ref_to_id@.len() == 0,
            r.definitions@.len() == 0,
            r.defaults@.len() == 0,
            !r.uses_chrono && !r.uses_uuid && !r.uses_serde_json && !r.uses_regress,
            r.settings == settings,
            r.cache.conversions@.len() == settings.convert@.len(),
            forall|i: int|
                0 <= i < settings.convert@.len() ==> #[trigger] conversion_is(
                    r.cache,
                    i,
                    settings.convert@[i],
                ),
    {
        let mut cache = SchemaCache::new();
        let mut i: usize = 0;
        while i < settings.convert.len()
            invariant
                i <= settings.convert.len(),
                cache.conversions@.len() == i,
                forall|k: int|
                    0 <= k < i ==> #[trigger] conversion_is(cache, k, settings.convert@[k]),
            decreases settings.convert.len() - i,
        {
            let c = &settings.convert[i];
            let ghost before = cache;
            cache.insert(&c.schema, c.name.as_str(), c.impls.as_slice());
            assert forall|k: int| 0 <= k < i + 1 implies #[trigger] conversion_is(
                cache,
                k,
                settings.convert@[k],
            ) by {
                if k < i {
                    assert(cache.conversions@[k] == before.conversions@[k]);
                    assert(conversion_is(before, k, settings.convert@[k]));
                }
            }
            i = i + 1;
        }
        TypeSpace {
            next_id: 1,
            definitions: Vec::new(),
            id_to_entry: Vec::new(),
            type_to_id: Vec::new(),
            name_to_id: Vec::new(),
            ref_to_id: Vec::new(),
            uses_chrono: false,
            uses_uuid: false,
            uses_serde_json: false,
            uses_regress: false,
            settings,
            cache,
            defaults: Vec::new(),
        }
    }

    /// The index of the entry with id `id`.
    pub fn find_entry(&self, id: TypeId) -> (r: Option<usize>)
        ensures
            match r {
                Some(i) => entry_pos(self.id_to_entry@, id) == Some(i as int) && i
                    < self.id_to_entry@.len(),
                None => entry_pos(self.id_to_entry@, id) is None,
            },
    {
        let mut i: usize = 0;
        while i < self.id_to_entry.len()
            invariant
                i <= self.id_to_entry.len(),
                entry_pos(self.id_to_entry@.take(i as int), id) is None,
            decreases self.id_to_entry.len() - i,
        {
            assert(self.id_to_entry@.take(i + 1).drop_last() =~= self.id_to_entry@.take(i as int));
            if self.id_to_entry[i].0 == id {
                proof {
                    lemma_entry_pos_prefix(self.id_to_entry@, id, i as int);
                }
                return Some(i);
            }
            i = i + 1;
        }
        assert(self.id_to_entry@.take(self.id_to_entry.len() as int) =~= self.id_to_entry@);
        None
    }

    /// The entry with id `id`.
    pub fn get_entry(&self, id: TypeId) -> (r: Option<&TypeEntry>)
        ensures
            match r {
                Some(e) => entry_of(*self, id) == Some(*e),
                None => entry_of(*self, id) is None,
            },
    {
        match self.find_entry(id) {
            Some(i) => Some(&self.id_to_entry[i].1),
            None => None,
        }
    }

    /// Get a type given its id.
    pub fn get_type(&self, id: TypeId) -> (r: Result<Type<'_>, Error>)
        ensures
            match r {
                Ok(t) => t.type_space == self && entry_of(*self, id) == Some(*t.type_entry),
                Err(e) => e is InvalidTypeId && entry_of(*self, id) is None,
            },
    {
        match self.get_entry(id) {
            Some(e) => Ok(Type { type_space: self, type_entry: e }),
            None => Err(Error::InvalidTypeId),
        }
    }

    /// Whether the generated code needs the `chrono` crate.
    pub fn uses_chrono(&self) -> (r: bool)
        ensures
            r == self.uses_chrono,
    {
        self.uses_chrono
    }

    /// Whether the generated code needs the `regress` crate.
    pub fn uses_regress(&self) -> (r: bool)
        ensures
            r == self.uses_regress,
    {
        self.uses_regress
    }

    /// Whether the generated code needs the `serde_json` crate.
    pub fn uses_serde_json(&self) -> (r: bool)
        ensures
            r == self.uses_serde_json,
    {
        self.uses_serde_json
    }

    /// Whether the generated code needs the `uuid` crate.
    pub fn uses_uuid(&self) -> (r: bool)
        ensures
            r == self.uses_uuid,
    {
        self.uses_uuid
    }

    /// Whether doc comments embed the full JSON Schema.
    pub fn include_schema_in_docs(&self) -> (r: bool)
        ensures
            r == self.settings.include_schema_in_docs,
    {
        self.settings.include_schema_in_docs
    }

    /// Whether string newtypes get the convenience impls.
    pub fn string_newtype_conveniences(&self) -> (r: bool)
        ensures
            r == self.settings.string_newtype_conveniences,
    {
        self.settings.string_newtype_conveniences
    }

    /// All types of the type space, in increasing order of their ids.
    pub fn iter_types(&self) -> (r: Vec<Type<'_>>)
        ensures
            r@.len() == self.id_to_entry@.len(),
            forall|i: int|
                0 <= i < r@.len() ==> (#[trigger] r@[i]).type_space == self && *r@[i].type_entry
                    == self.id_to_entry@[i].1,
    {
        let mut out: Vec<Type<'_>> = Vec::new();
        let mut i: usize = 0;
        while i < self.id_to_entry.len()
            invariant
                i <= self.id_to_entry.len(),
                out@.len() == i,
                forall|k: int|
                    0 <= k < i ==> (#[trigger] out@[k]).type_space == self && *out@[k].type_entry
                        == self.id_to_entry@[k].1,
            decreases self.id_to_entry.len() - i,
        {
            out.push(Type { type_space: self, type_entry: &self.id_to_entry[i].1 });
            i = i + 1;
        }
        out
    }

    /// The index of the first unnamed type whose details denote the same
    /// type as `d`.
    pub fn find_details(&self, d: &TypeEntryDetails) -> (r: Option<usize>)
        ensures
            match r {
                Some(i) => details_pos(self.type_to_id@, *d) == Some(i as int) && i
                    < self.type_to_id@.len(),
                None => details_pos(self.type_to_id@, *d) is None,
            },
    {
        let mut i: usize = 0;
        while i < self.type_to_id.len()
            invariant
                i <= self.type_to_id.len(),
                details_pos(self.type_to_id@.take(i as int), *d) is None,
            decreases self.type_to_id.len() - i,
        {
            assert(self.type_to_id@.take(i + 1).drop_last() =~= self.type_to_id@.take(i as int));
            if details_equal(&self.type_to_id[i].0, d) {
                proof {
                    lemma_details_pos_prefix(self.type_to_id@, *d, i as int);
                }
                return Some(i);
            }
            i = i + 1;
        }
        assert(self.type_to_id@.take(self.type_to_id.len() as int) =~= self.type_to_id@);
        None
    }

    /// The id that assigning `ty` gives, and whether it is a new one: a
    /// reference gives the id it refers to; a named type the id of the type
    /// of that name where there is one; an unnamed type the id of the first
    /// type with the same details where there is one; otherwise the next id.
    pub open spec fn assigned_id(&self, d: TypeEntryDetails) -> (TypeId, bool) {
        match d {
            TypeEntryDetails::Reference(id) => (id, false),
            _ => if is_named(d) {
                match crate::settings::key_pos(self.name_to_id@, crate::type_entry::details_name(d)->0) {
                    Some(i) => (self.name_to_id@[i].1, false),
                    None => (TypeId(self.next_id), true),
                }
            } else {
                match details_pos(self.type_to_id@, d) {
                    Some(i) => (self.type_to_id@[i].1, false),
                    None => (TypeId(self.next_id), true),
                }
            },
        }
    }

    /// Assign a type id for a type entry: resolves references, gives a
    /// named type the id of the type already of that name, and deduplicates
    /// unnamed types; a new type gets the next id and is added.
    pub fn assign_type(&mut self, ty: TypeEntry) -> (r: TypeId)
        requires
            old(self).wf(),
            old(self).next_id < u64::MAX,
        ensures
            final(self).wf(),
            assign_post(*old(self), ty, *final(self), r),
    {
        if let TypeEntryDetails::Reference(id) = &ty.details {
            return *id;
        }
        match ty.name() {
            Some(name) => {
                let name = name.clone();
                match crate::settings::find_keyed(&self.name_to_id, name.as_str()) {
                    Some(i) => self.name_to_id[i].1,
                    None => {
                        let id = self.assign();
                        self.name_to_id.push((name, id));
                        self.id_to_entry.push((id, ty));
                        assert(self.name_to_id@.drop_last() =~= old(self).name_to_id@);
                        id
                    },
                }
            },
            None => {
                match self.find_details(&ty.details) {
                    Some(i) => self.type_to_id[i].1,
                    None => {
                        let key = copy_unnamed_details(&ty.details);
                        let id = self.assign();
                        self.type_to_id.push((key, id));
                        self.id_to_entry.push((id, ty));
                        assert(self.type_to_id@.drop_last() =~= old(self).type_to_id@);
                        id
                    },
                }
            },
        }
    }

    /// Assigns an id to an entry converted from a schema: where the schema
    /// has metadata, its default value (if any) becomes the default of a
    /// generated enum, struct or newtype.
    pub fn assign_converted(&mut self, ty: TypeEntry, metadata_default: Option<Option<JsonValue>>) -> (r: TypeId)
        requires
            old(self).wf(),
            old(self).next_id < u64::MAX,
        ensures
            final(self).wf(),
            assign_post(*old(self), with_metadata_default(ty, metadata_default), *final(self), r),
    {
        let mut ty = ty;
        if let Some(default) = metadata_default {
            match &mut ty.details {
                TypeEntryDetails::Enum(e) => {
                    e.default = default;
                },
                TypeEntryDetails::Struct(st) => {
                    st.default = default;
                },
                TypeEntryDetails::Newtype(n) => {
                    n.default = default;
                },
                _ => {},
            }
        }
        self.assign_type(ty)
    }

    /// An `Option<T>` entry for the type `ty`, which is assigned an id.
    pub fn type_to_option(&mut self, ty: TypeEntry) -> (r: TypeEntry)
        requires
            old(self).wf(),
            old(self).next_id < u64::MAX,
        ensures
            final(self).wf(),
            assign_post(*old(self), ty, *final(self), old(self).assigned_id(ty.details).0),
            r.details == TypeEntryDetails::Option(old(self).assigned_id(ty.details).0),
            r.extra_derives@.len() == 0,
            r.extra_attrs@.len() == 0,
    {
        let id = self.assign_type(ty);
        TypeEntry::from_details(TypeEntryDetails::Option(id))
    }

    /// The id of `Option<T>` for the type `id`.
    pub fn id_to_option(&mut self, id: TypeId) -> (r: TypeId)
        requires
            old(self).wf(),
            old(self).next_id < u64::MAX,
        ensures
            final(self).wf(),
            r == old(self).assigned_id(TypeEntryDetails::Option(id)).0,
    {
        self.assign_type(TypeEntry::from_details(TypeEntryDetails::Option(id)))
    }

    /// The id of `Box<T>` for the type `id`.
    pub fn id_to_box(&mut self, id: TypeId) -> (r: TypeId)
        requires
            old(self).wf(),
            old(self).next_id < u64::MAX,
        ensures
            final(self).wf(),
            r == old(self).assigned_id(TypeEntryDetails::Box(id)).0,
    {
        self.assign_type(TypeEntry::from_details(TypeEntryDetails::Box(id)))
    }

    /// Allocates the next type id.
    pub fn assign(&mut self) -> (r: TypeId)
        requires
            old(self).next_id < u64::MAX,
        ensures
            r == TypeId(old(self).next_id),
            *final(self) == (TypeSpace { next_id: (old(self).next_id + 1) as u64, ..*old(self) }),
    {
        let id = TypeId(self.next_id);
        self.next_id = self.next_id + 1;
        id
    }
}


impl Default for TypeSpace {
    fn default() -> (r: Self)
        ensures
            r.wf(),
            r.next_id == 1,
            r.id_to_entry@.len() == 0,
            r.type_to_id@.len() == 0,
            r.name_to_id@.len() == 0,
            r.settings.is_default(),
            r.cache.conversions@.len() == 0,
    {
        TypeSpace::new(TypeSpaceSettings::new())
    }
}

/// Whether an enum's cached facts include `x`.
pub open spec fn has_bespoke(s: Seq<TypeEntryEnumImpl>, x: TypeEntryEnumImpl) -> bool {
    crate::settings::seq_has(s, x)
}

/// What an enum answers for a trait implementation, from its cached facts.
pub open spec fn enum_has_impl(d: TypeEntryEnum, imp: TypeSpaceImpl) -> bool {
    match imp {
        TypeSpaceImpl::Default => d.default is Some,
        TypeSpaceImpl::FromStr => has_bespoke(d.bespoke_impls@, TypeEntryEnumImpl::AllSimpleVariants)
            || has_bespoke(d.bespoke_impls@, TypeEntryEnumImpl::UntaggedFromStr),
        TypeSpaceImpl::Display => has_bespoke(d.bespoke_impls@, TypeEntryEnumImpl::AllSimpleVariants)
            || has_bespoke(d.bespoke_impls@, TypeEntryEnumImpl::UntaggedDisplay),
        TypeSpaceImpl::FromStringIrrefutable => has_bespoke(
            d.bespoke_impls@,
            TypeEntryEnumImpl::UntaggedFromStringIrrefutable,
        ),
    }
}

/// Whether the type `e` of `space` has the trait implementation `imp`,
/// found by following at most `fuel` type ids; `None` where a followed id
/// has no entry, where a reference is reached, or where the steps run out.
pub open spec fn impl_within(space: TypeSpace, e: TypeEntry, imp: TypeSpaceImpl, fuel: nat) -> Option<bool>
    decreases fuel, 2nat, 0nat,
{
    match e.details {
        TypeEntryDetails::Enum(d) => Some(enum_has_impl(d, imp)),
        TypeEntryDetails::Struct(d) => Some(imp == TypeSpaceImpl::Default && d.default is Some),
        TypeEntryDetails::Newtype(d) => if imp == TypeSpaceImpl::Default {
            Some(d.default is Some)
        } else {
            match d.constraints {
                TypeEntryNewtypeConstraints::String { .. } => Some(
                    imp == TypeSpaceImpl::FromStr || imp == TypeSpaceImpl::Display,
                ),
                TypeEntryNewtypeConstraints::Unconstrained => follow_within(space, d.type_id, imp, fuel),
                _ => Some(false),
            }
        },
        TypeEntryDetails::Native(n) => Some(crate::settings::seq_has(n.impls@, imp)),
        TypeEntryDetails::Box(id) => if imp == TypeSpaceImpl::Default {
            follow_within(space, id, imp, fuel)
        } else {
            Some(false)
        },
        TypeEntryDetails::JsonValue => Some(false),
        TypeEntryDetails::Unit => Some(imp == TypeSpaceImpl::Default),
        TypeEntryDetails::Option(_) => Some(imp == TypeSpaceImpl::Default),
        TypeEntryDetails::Vec(_) => Some(imp == TypeSpaceImpl::Default),
        TypeEntryDetails::MapOf(_, _) => Some(imp == TypeSpaceImpl::Default),
        TypeEntryDetails::SetOf(_) => Some(imp == TypeSpaceImpl::Default),
        TypeEntryDetails::Tuple(ids) => if imp == TypeSpaceImpl::Default && ids@.len() <= 12 {
            all_within(space, ids@, fuel)
        } else {
            Some(false)
        },
        TypeEntryDetails::Array(id, len) => if len <= 32 && imp == TypeSpaceImpl::Default {
            follow_within(space, id, imp, fuel)
        } else {
            Some(false)
        },
        TypeEntryDetails::Boolean => Some(imp != TypeSpaceImpl::FromStringIrrefutable),
        TypeEntryDetails::Integer(_) => Some(imp != TypeSpaceImpl::FromStringIrrefutable),
        TypeEntryDetails::Float(_) => Some(imp != TypeSpaceImpl::FromStringIrrefutable),
        TypeEntryDetails::String => Some(true),
        TypeEntryDetails::Reference(_) => None,
    }
}

/// What the type with id `id` answers within `fuel` steps, the step to it
/// included.
pub open spec fn follow_within(space: TypeSpace, id: TypeId, imp: TypeSpaceImpl, fuel: nat) -> Option<bool>
    decreases fuel, 0nat, 0nat,
{
    if fuel == 0 {
        None
    } else {
        match entry_of(space, id) {
            Some(e) => impl_within(space, e, imp, (fuel - 1) as nat),
            None => None,
        }
    }
}

/// Whether each of the types `ids`, taken in order until one lacks it, has
/// `Default`.
pub open spec fn all_within(space: TypeSpace, ids: Seq<TypeId>, fuel: nat) -> Option<bool>
    decreases fuel, 1nat, ids.len(),
{
    if ids.len() == 0 {
        Some(true)
    } else {
        match follow_within(space, ids[0], TypeSpaceImpl::Default, fuel) {
            None => None,
            Some(false) => Some(false),
            Some(true) => all_within(space, ids.drop_first(), fuel),
        }
    }
}

/// More steps do not change an answer that fewer steps give.
pub proof fn lemma_impl_within_mono(space: TypeSpace, e: TypeEntry, imp: TypeSpaceImpl, f1: nat, f2: nat)
    requires
        f1 <= f2,
        impl_within(space, e, imp, f1) is Some,
    ensures
        impl_within(space, e, imp, f2) == impl_within(space, e, imp, f1),
    decreases f1, 2nat, 0nat,
{
    match e.details {
        TypeEntryDetails::Newtype(d) => {
            if imp != TypeSpaceImpl::Default && d.constraints is Unconstrained {
                lemma_follow_within_mono(space, d.type_id, imp, f1, f2);
            }
        },
        TypeEntryDetails::Box(id) => {
            if imp == TypeSpaceImpl::Default {
                lemma_follow_within_mono(space, id, imp, f1, f2);
            }
        },
        TypeEntryDetails::Tuple(ids) => {
            if imp == TypeSpaceImpl::Default && ids@.len() <= 12 {
                lemma_all_within_mono(space, ids@, f1, f2);
            }
        },
        TypeEntryDetails::Array(id, len) => {
            if len <= 32 && imp == TypeSpaceImpl::Default {
                lemma_follow_within_mono(space, id, imp, f1, f2);
            }
        },
        _ => {},
    }
}

proof fn lemma_follow_within_mono(space: TypeSpace, id: TypeId, imp: TypeSpaceImpl, f1: nat, f2: nat)
    requires
        f1 <= f2,
        follow_within(space, id, imp, f1) is Some,
    ensures
        follow_within(space, id, imp, f2) == follow_within(space, id, imp, f1),
    decreases f1, 0nat, 0nat,
{
    if let Some(e) = entry_of(space, id) {
        lemma_impl_within_mono(space, e, imp, (f1 - 1) as nat, (f2 - 1) as nat);
    }
}

proof fn lemma_all_within_mono(space: TypeSpace, ids: Seq<TypeId>, f1: nat, f2: nat)
    requires
        f1 <= f2,
        all_within(space, ids, f1) is Some,
    ensures
        all_within(space, ids, f2) == all_within(space, ids, f1),
    decreases f1, 1nat, ids.len(),
{
    if ids.len() > 0 {
        lemma_follow_within_mono(space, ids[0], TypeSpaceImpl::Default, f1, f2);
        if follow_within(space, ids[0], TypeSpaceImpl::Default, f1) == Some(true) {
            lemma_all_within_mono(space, ids.drop_first(), f1, f2);
        }
    }
}

/// Whether some number of steps answers whether `e` has `imp`.
pub open spec fn impl_defined(space: TypeSpace, e: TypeEntry, imp: TypeSpaceImpl) -> bool {
    exists|f: nat| #[trigger] impl_within(space, e, imp, f) is Some
}

fn contains_impl(s: &Vec<TypeSpaceImpl>, x: TypeSpaceImpl) -> (r: bool)
    ensures
        r == crate::settings::seq_has(s@, x),
{
    let mut i: usize = 0;
    while i < s.len()
        invariant
            i <= s.len(),
            forall|k: int| 0 <= k < i ==> s@[k] != x,
        decreases s.len() - i,
    {
        if s[i] == x {
            return true;
        }
        i = i + 1;
    }
    false
}

fn contains_bespoke(s: &Vec<TypeEntryEnumImpl>, x: TypeEntryEnumImpl) -> (r: bool)
    ensures
        r == has_bespoke(s@, x),
{
    let mut i: usize = 0;
    while i < s.len()
        invariant
            i <= s.len(),
            forall|k: int| 0 <= k < i ==> s@[k] != x,
        decreases s.len() - i,
    {
        if s[i] == x {
            return true;
        }
        i = i + 1;
    }
    false
}

impl TypeEntry {
    fn has_impl_within(&self, space: &TypeSpace, imp: TypeSpaceImpl, Ghost(fuel): Ghost<nat>) -> (r: bool)
        requires
            impl_within(*space, *self, imp, fuel) is Some,
        ensures
            impl_within(*space, *self, imp, fuel) == Some(r),
        decreases fuel,
    {
        match &self.details {
            TypeEntryDetails::Enum(d) => match imp {
                TypeSpaceImpl::Default => d.default.is_some(),
                TypeSpaceImpl::FromStr => contains_bespoke(&d.bespoke_impls, TypeEntryEnumImpl::AllSimpleVariants)
                    || contains_bespoke(&d.bespoke_impls, TypeEntryEnumImpl::UntaggedFromStr),
                TypeSpaceImpl::Display => contains_bespoke(&d.bespoke_impls, TypeEntryEnumImpl::AllSimpleVariants)
                    || contains_bespoke(&d.bespoke_impls, TypeEntryEnumImpl::UntaggedDisplay),
                TypeSpaceImpl::FromStringIrrefutable => contains_bespoke(
                    &d.bespoke_impls,
                    TypeEntryEnumImpl::UntaggedFromStringIrrefutable,
                ),
            },
            TypeEntryDetails::Struct(d) => match imp {
                TypeSpaceImpl::Default => d.default.is_some(),
                _ => false,
            },
            TypeEntryDetails::Newtype(d) => {
                if imp == TypeSpaceImpl::Default {
                    d.default.is_some()
                } else {
                    match &d.constraints {
                        TypeEntryNewtypeConstraints::String { .. } => imp == TypeSpaceImpl::FromStr
                            || imp == TypeSpaceImpl::Display,
                        TypeEntryNewtypeConstraints::Unconstrained => {
                            let e = space.get_entry(d.type_id).unwrap();
                            e.has_impl_within(space, imp, Ghost((fuel - 1) as nat))
                        },
                        _ => false,
                    }
                }
            },
            TypeEntryDetails::Native(n) => contains_impl(&n.impls, imp),
            TypeEntryDetails::Box(id) => {
                if imp == TypeSpaceImpl::Default {
                    let e = space.get_entry(*id).unwrap();
                    e.has_impl_within(space, imp, Ghost((fuel - 1) as nat))
                } else {
                    false
                }
            },
            TypeEntryDetails::JsonValue => false,
            TypeEntryDetails::Unit | TypeEntryDetails::Option(_) | TypeEntryDetails::Vec(_)
            | TypeEntryDetails::MapOf(_, _) | TypeEntryDetails::SetOf(_) => imp
                == TypeSpaceImpl::Default,
            TypeEntryDetails::Tuple(ids) => {
                if imp == TypeSpaceImpl::Default && ids.len() <= 12 {
                    let mut i: usize = 0;
                    assert(ids@.skip(0) =~= ids@);
                    while i < ids.len()
                        invariant
                            i <= ids.len(),
                            impl_within(*space, *self, imp, fuel) == all_within(*space, ids@, fuel),
                            all_within(*space, ids@, fuel) == all_within(*space, ids@.skip(i as int), fuel),
                            all_within(*space, ids@.skip(i as int), fuel) is Some,
                        decreases ids.len() - i,
                    {
                        let ghost rest = ids@.skip(i as int);
                        assert(rest[0] == ids@[i as int]);
                        assert(rest.drop_first() =~= ids@.skip(i + 1));
                        assert(follow_within(*space, ids@[i as int], TypeSpaceImpl::Default, fuel) is Some);
                        assert(fuel > 0);
                        let e = space.get_entry(ids[i]).unwrap();
                        if !e.has_impl_within(space, TypeSpaceImpl::Default, Ghost((fuel - 1) as nat)) {
                            return false;
                        }
                        i = i + 1;
                    }
                    true
                } else {
                    false
                }
            },
            TypeEntryDetails::Array(id, len) => {
                if *len <= 32 && imp == TypeSpaceImpl::Default {
                    let e = space.get_entry(*id).unwrap();
                    e.has_impl_within(space, imp, Ghost((fuel - 1) as nat))
                } else {
                    false
                }
            },
            TypeEntryDetails::Boolean | TypeEntryDetails::Integer(_) | TypeEntryDetails::Float(_) => imp
                != TypeSpaceImpl::FromStringIrrefutable,
            TypeEntryDetails::String => true,
            TypeEntryDetails::Reference(_) => false,
        }
    }

    /// Whether the type has the given trait implementation: answered by the
    /// type's own kind, or by following the ids of an unconstrained
    /// newtype's inner type, a box's content, a tuple's items (for
    /// `Default`, up to twelve of them) or an array's items (for `Default`,
    /// up to length 32). The type ids followed must have entries and the
    /// following must end, which holds exactly when some number of steps
    /// answers.
    pub fn has_impl(&self, space: &TypeSpace, imp: TypeSpaceImpl) -> (r: bool)
        requires
            impl_defined(*space, *self, imp),
        ensures
            forall|f: nat| #[trigger] impl_within(*space, *self, imp, f) is Some ==> impl_within(*space, *self, imp, f) == Some(r),
    {
        let ghost f0 = choose|f: nat| #[trigger] impl_within(*space, *self, imp, f) is Some;
        let r = self.has_impl_within(space, imp, Ghost(f0));
        assert forall|f: nat| #[trigger] impl_within(*space, *self, imp, f) is Some implies impl_within(*space, *self, imp, f) == Some(r) by {
            if f <= f0 {
                lemma_impl_within_mono(*space, *self, imp, f, f0);
            } else {
                lemma_impl_within_mono(*space, *self, imp, f0, f);
            }
        }
        r
    }
}

impl<'a> Type<'a> {
    /// Checks if the type has the associated impl.
    pub fn has_impl(&self, imp: TypeSpaceImpl) -> (r: bool)
        requires
            impl_defined(*self.type_space, *self.type_entry, imp),
        ensures
            forall|f: nat| #[trigger] impl_within(*self.type_space, *self.type_entry, imp, f) is Some ==> impl_within(*self.type_space, *self.type_entry, imp, f) == Some(r),
    {
        self.type_entry.has_impl(self.type_space, imp)
    }

    /// A textual description of the type appropriate for debug output.
    pub fn describe(&self) -> (r: String)
        requires
            !(self.type_entry.details is Reference),
        ensures
            self.type_entry.spec_describe() == Some(r@),
    {
        self.type_entry.describe()
    }
}


/// Type details returned by [`Type::details`] to inspect a type.
pub enum TypeDetails<'a> {
    Enum(TypeEnum<'a>),
    Struct(TypeStruct<'a>),
    Newtype(TypeNewtype<'a>),
    Option(TypeId),
    Vec(TypeId),
    MapOf(TypeId, TypeId),
    SetOf(TypeId),
    Box(TypeId),
    Tuple(Vec<TypeId>),
    Array(TypeId, usize),
    Builtin(&'a str),
    Unit,
    String,
}

/// Enum type details.
pub struct TypeEnum<'a> {
    pub details: &'a TypeEntryEnum,
}

/// Enum variant details.
pub enum TypeEnumVariant<'a> {
    /// Variant with no associated data.
    Simple,
    /// Tuple-type variant with at least one associated type.
    Tuple(Vec<TypeId>),
    /// Struct-type variant with named properties and types.
    Struct(Vec<(&'a str, TypeId)>),
}

/// Full information pertaining to an enum variant.
pub struct TypeEnumVariantInfo<'a> {
    /// Name.
    pub name: &'a str,
    /// Description.
    pub description: Option<&'a str>,
    /// Details for the enum variant.
    pub details: TypeEnumVariant<'a>,
}

/// Struct type details.
pub struct TypeStruct<'a> {
    pub details: &'a TypeEntryStruct,
}

/// Full information pertaining to a struct property.
pub struct TypeStructPropInfo<'a> {
    /// Name.
    pub name: &'a str,
    /// Description.
    pub description: Option<&'a str>,
    /// Whether the property is required.
    pub required: bool,
    /// Identifies the schema for the property.
    pub type_id: TypeId,
}

/// Newtype details.
pub struct TypeNewtype<'a> {
    pub details: &'a TypeEntryNewtype,
}

/// Whether an optional borrowed string views an optional string.
pub open spec fn opt_str_is(a: Option<&str>, b: Option<String>) -> bool {
    match (a, b) {
        (Some(x), Some(y)) => x@ == y@,
        (None, None) => true,
        _ => false,
    }
}

/// The name and type of each property of `props`.
pub open spec fn property_pairs_are(r: Seq<(&str, TypeId)>, props: Seq<StructProperty>) -> bool {
    &&& r.len() == props.len()
    &&& forall|k: int| 0 <= k < r.len() ==> (#[trigger] r[k]).0@ == props[k].name@ && r[k].1 == props[k].type_id
}

/// Whether `d` gives the details of a variant that carries `v`.
pub open spec fn variant_details_is(d: TypeEnumVariant, v: VariantDetails) -> bool {
    match v {
        VariantDetails::Simple => d is Simple,
        VariantDetails::Item(id) => d matches TypeEnumVariant::Tuple(ids) && ids@ == seq![id],
        VariantDetails::Tuple(ids) => d matches TypeEnumVariant::Tuple(x) && x@ == ids@,
        VariantDetails::Struct(props) => d matches TypeEnumVariant::Struct(x) && property_pairs_are(x@, props@),
    }
}

/// Whether `info` describes the variant `v`.
pub open spec fn variant_info_is(info: TypeEnumVariantInfo, v: Variant) -> bool {
    &&& v.ident_name matches Some(n) && info.name@ == n@
    &&& opt_str_is(info.description, v.description)
    &&& variant_details_is(info.details, v.details)
}

fn variant_details_of<'a>(v: &'a VariantDetails) -> (r: TypeEnumVariant<'a>)
    ensures
        variant_details_is(r, *v),
{
    match v {
        VariantDetails::Simple => TypeEnumVariant::Simple,
        VariantDetails::Item(id) => {
            let mut ids: Vec<TypeId> = Vec::new();
            ids.push(*id);
            assert(ids@ =~= seq![*id]);
            TypeEnumVariant::Tuple(ids)
        },
        VariantDetails::Tuple(ids) => TypeEnumVariant::Tuple(crate::type_entry::copy_ids(ids.as_slice())),
        VariantDetails::Struct(props) => TypeEnumVariant::Struct(property_pairs(props)),
    }
}

/// Whether `info` describes the property `p`.
pub open spec fn prop_info_is(info: TypeStructPropInfo, p: StructProperty) -> bool {
    &&& info.name@ == p.name@
    &&& opt_str_is(info.description, p.description)
    &&& info.required == (p.state is Required)
    &&& info.type_id == p.type_id
}

fn opt_as_str<'a>(s: &'a Option<String>) -> (r: Option<&'a str>)
    ensures
        opt_str_is(r, *s),
{
    match s {
        Some(x) => Some(x.as_str()),
        None => None,
    }
}

fn property_pairs<'a>(props: &'a Vec<StructProperty>) -> (r: Vec<(&'a str, TypeId)>)
    ensures
        property_pairs_are(r@, props@),
{
    let mut out: Vec<(&'a str, TypeId)> = Vec::new();
    let mut i: usize = 0;
    while i < props.len()
        invariant
            i <= props.len(),
            out@.len() == i,
            forall|k: int| 0 <= k < i ==> (#[trigger] out@[k]).0@ == props@[k].name@ && out@[k].1 == props@[k].type_id,
        decreases props.len() - i,
    {
        out.push((props[i].name.as_str(), props[i].type_id));
        i = i + 1;
    }
    out
}

impl<'a> TypeEnum<'a> {
    /// Get all information for each enum variant; every variant must have
    /// its identifier chosen.
    pub fn variants_info(&self) -> (r: Vec<TypeEnumVariantInfo<'a>>)
        requires
            forall|k: int| 0 <= k < self.details.variants@.len() ==> (#[trigger] self.details.variants@[k]).ident_name is Some,
        ensures
            r@.len() == self.details.variants@.len(),
            forall|k: int| 0 <= k < r@.len() ==> #[trigger] variant_info_is(r@[k], self.details.variants@[k]),
    {
        let variants: &'a Vec<Variant> = &self.details.variants;
        let mut out: Vec<TypeEnumVariantInfo<'a>> = Vec::new();
        let mut i: usize = 0;
        while i < variants.len()
            invariant
                i <= variants.len(),
                variants == &self.details.variants,
                forall|k: int| 0 <= k < variants@.len() ==> (#[trigger] variants@[k]).ident_name is Some,
                out@.len() == i,
                forall|k: int| 0 <= k < i ==> #[trigger] variant_info_is(out@[k], variants@[k]),
            decreases variants.len() - i,
        {
            let v: &'a Variant = &variants[i];
            let details = variant_details_of(&v.details);
            let name: &'a str = match &v.ident_name {
                Some(n) => n.as_str(),
                None => "",
            };
            out.push(TypeEnumVariantInfo { name, description: opt_as_str(&v.description), details });
            i = i + 1;
        }
        out
    }

    /// Get the name and details of each enum variant; every variant must
    /// have its identifier chosen.
    pub fn variants(&self) -> (r: Vec<(&'a str, TypeEnumVariant<'a>)>)
        requires
            forall|k: int| 0 <= k < self.details.variants@.len() ==> (#[trigger] self.details.variants@[k]).ident_name is Some,
        ensures
            r@.len() == self.details.variants@.len(),
            forall|k: int| 0 <= k < r@.len() ==> (self.details.variants@[k].ident_name matches Some(n) && (#[trigger] r@[k]).0@ == n@) && variant_details_is(r@[k].1, self.details.variants@[k].details),
    {
        let variants: &'a Vec<Variant> = &self.details.variants;
        let mut out: Vec<(&'a str, TypeEnumVariant<'a>)> = Vec::new();
        let mut i: usize = 0;
        while i < variants.len()
            invariant
                i <= variants.len(),
                variants == &self.details.variants,
                forall|k: int| 0 <= k < variants@.len() ==> (#[trigger] variants@[k]).ident_name is Some,
                out@.len() == i,
                forall|k: int| 0 <= k < i ==> (variants@[k].ident_name matches Some(n) && (#[trigger] out@[k]).0@ == n@) && variant_details_is(out@[k].1, variants@[k].details),
            decreases variants.len() - i,
        {
            let v: &'a Variant = &variants[i];
            let name: &'a str = match &v.ident_name {
                Some(n) => n.as_str(),
                None => "",
            };
            out.push((name, variant_details_of(&v.details)));
            i = i + 1;
        }
        out
    }
}

impl<'a> TypeStruct<'a> {
    /// Get the name and type of each property.
    pub fn properties(&self) -> (r: Vec<(&'a str, TypeId)>)
        ensures
            property_pairs_are(r@, self.details.properties@),
    {
        let props: &'a Vec<StructProperty> = &self.details.properties;
        property_pairs(props)
    }

    /// Get all information about each struct property.
    pub fn properties_info(&self) -> (r: Vec<TypeStructPropInfo<'a>>)
        ensures
            r@.len() == self.details.properties@.len(),
            forall|k: int| 0 <= k < r@.len() ==> #[trigger] prop_info_is(r@[k], self.details.properties@[k]),
    {
        let props: &'a Vec<StructProperty> = &self.details.properties;
        let mut out: Vec<TypeStructPropInfo<'a>> = Vec::new();
        let mut i: usize = 0;
        while i < props.len()
            invariant
                i <= props.len(),
                props == &self.details.properties,
                out@.len() == i,
                forall|k: int| 0 <= k < i ==> #[trigger] prop_info_is(out@[k], props@[k]),
            decreases props.len() - i,
        {
            let p: &'a StructProperty = &props[i];
            let required = match p.state {
                StructPropertyState::Required => true,
                _ => false,
            };
            out.push(TypeStructPropInfo { name: p.name.as_str(), description: opt_as_str(&p.description), required, type_id: p.type_id });
            i = i + 1;
        }
        out
    }
}

impl<'a> TypeNewtype<'a> {
    /// Get the inner type of the newtype struct.
    pub fn inner(&self) -> (r: TypeId)
        ensures
            r == self.details.type_id,
    {
        self.details.type_id
    }
}

impl<'a> Type<'a> {
    /// Get details about the type; a reference has none.
    pub fn details(&self) -> (r: TypeDetails<'a>)
        requires
            !(self.type_entry.details is Reference),
        ensures
            match self.type_entry.details {
                TypeEntryDetails::Enum(d) => r matches TypeDetails::Enum(t) && *t.details == d,
                TypeEntryDetails::Struct(d) => r matches TypeDetails::Struct(t) && *t.details == d,
                TypeEntryDetails::Newtype(d) => r matches TypeDetails::Newtype(t) && *t.details == d,
                TypeEntryDetails::Option(id) => r == TypeDetails::Option(id),
                TypeEntryDetails::Vec(id) => r == TypeDetails::Vec(id),
                TypeEntryDetails::MapOf(k, v) => r == TypeDetails::MapOf(k, v),
                TypeEntryDetails::SetOf(id) => r == TypeDetails::SetOf(id),
                TypeEntryDetails::Box(id) => r == TypeDetails::Box(id),
                TypeEntryDetails::Tuple(ids) => r matches TypeDetails::Tuple(x) && x@ == ids@,
                TypeEntryDetails::Array(id, n) => r == TypeDetails::Array(id, n),
                TypeEntryDetails::Unit => r is Unit,
                TypeEntryDetails::Native(n) => r matches TypeDetails::Builtin(s) && s@ == n.path@,
                TypeEntryDetails::Integer(n) => r matches TypeDetails::Builtin(s) && s@ == n@,
                TypeEntryDetails::Float(n) => r matches TypeDetails::Builtin(s) && s@ == n@,
                TypeEntryDetails::Boolean => r matches TypeDetails::Builtin(s) && s@ == "bool"@,
                TypeEntryDetails::String => r is String,
                TypeEntryDetails::JsonValue => r matches TypeDetails::Builtin(s) && s@
                    == "::serde_json::Value"@,
                TypeEntryDetails::Reference(_) => false,
            },
    {
        let e: &'a TypeEntry = self.type_entry;
        match &e.details {
            TypeEntryDetails::Enum(d) => TypeDetails::Enum(TypeEnum { details: d }),
            TypeEntryDetails::Struct(d) => TypeDetails::Struct(TypeStruct { details: d }),
            TypeEntryDetails::Newtype(d) => TypeDetails::Newtype(TypeNewtype { details: d }),
            TypeEntryDetails::Option(id) => TypeDetails::Option(*id),
            TypeEntryDetails::Vec(id) => TypeDetails::Vec(*id),
            TypeEntryDetails::MapOf(k, v) => TypeDetails::MapOf(*k, *v),
            TypeEntryDetails::SetOf(id) => TypeDetails::SetOf(*id),
            TypeEntryDetails::Box(id) => TypeDetails::Box(*id),
            TypeEntryDetails::Tuple(ids) => TypeDetails::Tuple(crate::type_entry::copy_ids(ids.as_slice())),
            TypeEntryDetails::Array(id, n) => TypeDetails::Array(*id, *n),
            TypeEntryDetails::Unit => TypeDetails::Unit,
            TypeEntryDetails::Native(n) => TypeDetails::Builtin(n.path.as_str()),
            TypeEntryDetails::Integer(n) => TypeDetails::Builtin(n.as_str()),
            TypeEntryDetails::Float(n) => TypeDetails::Builtin(n.as_str()),
            TypeEntryDetails::Boolean => TypeDetails::Builtin("bool"),
            TypeEntryDetails::String => TypeDetails::String,
            TypeEntryDetails::JsonValue => TypeDetails::Builtin("::serde_json::Value"),
            TypeEntryDetails::Reference(_) => TypeDetails::Unit,
        }
    }
}


/// Whether `e` has `imp`, as some number of steps answers.
pub open spec fn spec_has_impl(space: TypeSpace, e: TypeEntry, imp: TypeSpaceImpl) -> bool {
    impl_within(space, e, imp, choose|f: nat| #[trigger] impl_within(space, e, imp, f) is Some) == Some(true)
}

/// What the check of one variant answers: whether it is a single item
/// whose type has `req` and (where given) lacks `neg`; `None` where an id
/// has no entry or an answer is not defined.
pub open spec fn newtype_variant_check(space: TypeSpace, v: Variant, req: TypeSpaceImpl, neg: Option<TypeSpaceImpl>) -> Option<bool> {
    match v.details {
        VariantDetails::Item(id) => match entry_of(space, id) {
            None => None,
            Some(e) => if !impl_defined(space, e, req) {
                None
            } else if !spec_has_impl(space, e, req) {
                Some(false)
            } else {
                match neg {
                    None => Some(true),
                    Some(n) => if !impl_defined(space, e, n) {
                        None
                    } else {
                        Some(!spec_has_impl(space, e, n))
                    },
                }
            },
        },
        _ => Some(false),
    }
}

/// Whether every variant of `vs` passes [`newtype_variant_check`], checked
/// in order until one fails.
pub open spec fn newtype_variants_check(space: TypeSpace, vs: Seq<Variant>, req: TypeSpaceImpl, neg: Option<TypeSpaceImpl>) -> Option<bool>
    decreases vs.len(),
{
    if vs.len() == 0 {
        Some(true)
    } else {
        match newtype_variant_check(space, vs[0], req, neg) {
            None => None,
            Some(false) => Some(false),
            Some(true) => newtype_variants_check(space, vs.drop_first(), req, neg),
        }
    }
}

/// Whether an enum is untagged and all its variants are single items whose
/// types have `req` and (where given) lack `neg`.
pub open spec fn untagged_newtype_variants_spec(space: TypeSpace, untagged: bool, vs: Seq<Variant>, req: TypeSpaceImpl, neg: Option<TypeSpaceImpl>) -> Option<bool> {
    if untagged {
        newtype_variants_check(space, vs, req, neg)
    } else {
        Some(false)
    }
}

/// What the check of one variant answers: whether it is a single item
/// whose type is irrefutably a string.
pub open spec fn string_variant_check(space: TypeSpace, v: Variant) -> Option<bool> {
    match v.details {
        VariantDetails::Item(id) => match entry_of(space, id) {
            None => None,
            Some(e) => if !impl_defined(space, e, TypeSpaceImpl::FromStringIrrefutable) {
                None
            } else {
                Some(spec_has_impl(space, e, TypeSpaceImpl::FromStringIrrefutable))
            },
        },
        _ => Some(false),
    }
}

/// Whether some variant of `vs` passes [`string_variant_check`], checked in
/// order until one passes.
pub open spec fn string_variants_check(space: TypeSpace, vs: Seq<Variant>) -> Option<bool>
    decreases vs.len(),
{
    if vs.len() == 0 {
        Some(false)
    } else {
        match string_variant_check(space, vs[0]) {
            None => None,
            Some(true) => Some(true),
            Some(false) => string_variants_check(space, vs.drop_first()),
        }
    }
}

/// Whether an enum is untagged and some variant is a single item whose type
/// is irrefutably a string.
pub open spec fn untagged_newtype_string_spec(space: TypeSpace, untagged: bool, vs: Seq<Variant>) -> Option<bool> {
    if untagged {
        string_variants_check(space, vs)
    } else {
        Some(false)
    }
}

pub(crate) fn has_impl_checked(space: &TypeSpace, e: &TypeEntry, imp: TypeSpaceImpl) -> (r: bool)
    requires
        impl_defined(*space, *e, imp),
    ensures
        r == spec_has_impl(*space, *e, imp),
{
    let r = e.has_impl(space, imp);
    proof {
        let f = choose|f: nat| #[trigger] impl_within(*space, *e, imp, f) is Some;
        assert(impl_within(*space, *e, imp, f) is Some);
    }
    r
}

/// Whether the enum is untagged and all variants are single items whose
/// types have `req` and (where given) lack `neg`.
pub fn untagged_newtype_variants(space: &TypeSpace, untagged: bool, variants: &Vec<Variant>, req: TypeSpaceImpl, neg: Option<TypeSpaceImpl>) -> (r: bool)
    requires
        untagged_newtype_variants_spec(*space, untagged, variants@, req, neg) is Some,
    ensures
        untagged_newtype_variants_spec(*space, untagged, variants@, req, neg) == Some(r),
{
    if !untagged {
        return false;
    }
    let mut i: usize = 0;
    assert(variants@.skip(0) =~= variants@);
    while i < variants.len()
        invariant
            i <= variants.len(),
            untagged,
            newtype_variants_check(*space, variants@, req, neg) == newtype_variants_check(*space, variants@.skip(i as int), req, neg),
            newtype_variants_check(*space, variants@.skip(i as int), req, neg) is Some,
        decreases variants.len() - i,
    {
        let ghost rest = variants@.skip(i as int);
        assert(rest[0] == variants@[i as int]);
        assert(rest.drop_first() =~= variants@.skip(i + 1));
        let ok = match &variants[i].details {
            VariantDetails::Item(id) => {
                let e = space.get_entry(*id).unwrap();
                if !has_impl_checked(space, e, req) {
                    false
                } else {
                    match neg {
                        None => true,
                        Some(n) => !has_impl_checked(space, e, n),
                    }
                }
            },
            _ => false,
        };
        if !ok {
            return false;
        }
        i = i + 1;
    }
    true
}

/// Whether the enum is untagged and some variant is a single item whose
/// type is irrefutably a string.
pub fn untagged_newtype_string(space: &TypeSpace, untagged: bool, variants: &Vec<Variant>) -> (r: bool)
    requires
        untagged_newtype_string_spec(*space, untagged, variants@) is Some,
    ensures
        untagged_newtype_string_spec(*space, untagged, variants@) == Some(r),
{
    if !untagged {
        return false;
    }
    let mut i: usize = 0;
    assert(variants@.skip(0) =~= variants@);
    while i < variants.len()
        invariant
            i <= variants.len(),
            untagged,
            string_variants_check(*space, variants@) == string_variants_check(*space, variants@.skip(i as int)),
            string_variants_check(*space, variants@.skip(i as int)) is Some,
        decreases variants.len() - i,
    {
        let ghost rest = variants@.skip(i as int);
        assert(rest[0] == variants@[i as int]);
        assert(rest.drop_first() =~= variants@.skip(i + 1));
        let found = match &variants[i].details {
            VariantDetails::Item(id) => {
                let e = space.get_entry(*id).unwrap();
                has_impl_checked(space, e, TypeSpaceImpl::FromStringIrrefutable)
            },
            _ => false,
        };
        if found {
            return true;
        }
        i = i + 1;
    }
    false
}

/// Whether every variant of `vs` is simple.
pub open spec fn all_simple(vs: Seq<Variant>) -> bool {
    forall|k: int| 0 <= k < vs.len() ==> (#[trigger] vs[k]).details is Simple
}

/// The cached facts of an enum: all its variants are simple (and it is not
/// untagged and has some); it is untagged with newtype variants that parse
/// from strings (and none is irrefutably a string) or that display; some
/// variant is irrefutably a string.
pub open spec fn spec_bespoke_impls(space: TypeSpace, e: TypeEntryEnum) -> Seq<TypeEntryEnumImpl> {
    let untagged = e.tag_type is Untagged;
    let a = if !untagged && e.variants@.len() > 0 && all_simple(e.variants@) {
        seq![TypeEntryEnumImpl::AllSimpleVariants]
    } else {
        seq![]
    };
    let b = if untagged_newtype_variants_spec(space, untagged, e.variants@, TypeSpaceImpl::FromStr, Some(TypeSpaceImpl::FromStringIrrefutable)) == Some(true) {
        seq![TypeEntryEnumImpl::UntaggedFromStr]
    } else {
        seq![]
    };
    let c = if untagged_newtype_variants_spec(space, untagged, e.variants@, TypeSpaceImpl::Display, None) == Some(true) {
        seq![TypeEntryEnumImpl::UntaggedDisplay]
    } else {
        seq![]
    };
    let d = if untagged_newtype_string_spec(space, untagged, e.variants@) == Some(true) {
        seq![TypeEntryEnumImpl::UntaggedFromStringIrrefutable]
    } else {
        seq![]
    };
    a + b + c + d
}

/// Whether the checks behind an enum's cached facts all have answers.
pub open spec fn bespoke_defined(space: TypeSpace, e: TypeEntryEnum) -> bool {
    let untagged = e.tag_type is Untagged;
    &&& untagged_newtype_variants_spec(space, untagged, e.variants@, TypeSpaceImpl::FromStr, Some(TypeSpaceImpl::FromStringIrrefutable)) is Some
    &&& untagged_newtype_variants_spec(space, untagged, e.variants@, TypeSpaceImpl::Display, None) is Some
    &&& untagged_newtype_string_spec(space, untagged, e.variants@) is Some
}

impl TypeEntryEnum {
    /// Caches the facts about the enum that result in customized impls.
    pub fn finalize(&mut self, space: &TypeSpace)
        requires
            bespoke_defined(*space, *old(self)),
        ensures
            final(self).bespoke_impls@ == spec_bespoke_impls(*space, *old(self)),
            *final(self) == (TypeEntryEnum { bespoke_impls: final(self).bespoke_impls, ..*old(self) }),
    {
        let untagged = match self.tag_type {
            EnumTagType::Untagged => true,
            _ => false,
        };
        let mut simple = true;
        let mut i: usize = 0;
        while i < self.variants.len()
            invariant
                i <= self.variants.len(),
                simple == all_simple(self.variants@.take(i as int)),
            decreases self.variants.len() - i,
        {
            let is_simple = match self.variants[i].details {
                VariantDetails::Simple => true,
                _ => false,
            };
            proof {
                assert forall|k: int| 0 <= k < i + 1 implies self.variants@.take(i + 1)[k] == self.variants@[k] by {}
                assert forall|k: int| 0 <= k < i implies self.variants@.take(i as int)[k] == self.variants@[k] by {}
                if simple && is_simple {
                    assert(all_simple(self.variants@.take(i + 1)));
                }
                if !is_simple {
                    assert(!(self.variants@.take(i + 1)[i as int].details is Simple));
                }
                if !simple {
                    let k = choose|k: int| 0 <= k < i && !((#[trigger] self.variants@.take(i as int)[k]).details is Simple);
                    assert(!(self.variants@.take(i + 1)[k].details is Simple));
                }
            }
            simple = simple && is_simple;
            i = i + 1;
        }
        assert(self.variants@.take(self.variants.len() as int) =~= self.variants@);
        let from_str = untagged_newtype_variants(space, untagged, &self.variants, TypeSpaceImpl::FromStr, Some(TypeSpaceImpl::FromStringIrrefutable));
        let display = untagged_newtype_variants(space, untagged, &self.variants, TypeSpaceImpl::Display, None);
        let string = untagged_newtype_string(space, untagged, &self.variants);
        let mut impls: Vec<TypeEntryEnumImpl> = Vec::new();
        if !untagged && self.variants.len() > 0 && simple {
            impls.push(TypeEntryEnumImpl::AllSimpleVariants);
        }
        if from_str {
            impls.push(TypeEntryEnumImpl::UntaggedFromStr);
        }
        if display {
            impls.push(TypeEntryEnumImpl::UntaggedDisplay);
        }
        if string {
            impls.push(TypeEntryEnumImpl::UntaggedFromStringIrrefutable);
        }
        assert(impls@ =~= spec_bespoke_impls(*space, *old(self)));
        self.bespoke_impls = impls;
    }
}

/// The unit type, `Option`, `Vec`, maps and sets implement `Default` and
/// none of the other queried traits, whatever they hold: the answer is
/// defined and is `imp == Default` at every depth.
pub proof fn law_container_impls(space: TypeSpace, e: TypeEntry, imp: TypeSpaceImpl)
    requires
        e.details is Unit || e.details is Option || e.details is Vec || e.details is MapOf || e.details is SetOf,
    ensures
        impl_defined(space, e, imp),
        forall|f: nat| #[trigger] impl_within(space, e, imp, f) == Some(imp == TypeSpaceImpl::Default),
        spec_has_impl(space, e, imp) == (imp == TypeSpaceImpl::Default),
{
    assert(impl_within(space, e, imp, 0) is Some);
}

/// A `Box` implements `Default` exactly when what it boxes does (the
/// answer is defined exactly where that one is), and none of the other
/// queried traits.
pub proof fn law_box_impls(space: TypeSpace, e: TypeEntry, imp: TypeSpaceImpl)
    requires
        e.details matches TypeEntryDetails::Box(id) && entry_of(space, id) is Some,
    ensures
        ({
            let inner = entry_of(space, e.details->Box_0)->0;
            &&& imp != TypeSpaceImpl::Default ==> impl_defined(space, e, imp) && !spec_has_impl(space, e, imp)
            &&& imp == TypeSpaceImpl::Default ==> (impl_defined(space, e, imp) <==> impl_defined(space, inner, imp))
            &&& imp == TypeSpaceImpl::Default && impl_defined(space, inner, imp) ==> spec_has_impl(space, e, imp)
                == spec_has_impl(space, inner, imp)
        }),
{
    let id = e.details->Box_0;
    let inner = entry_of(space, id)->0;
    if imp != TypeSpaceImpl::Default {
        assert(impl_within(space, e, imp, 0) is Some);
        let f = choose|f: nat| #[trigger] impl_within(space, e, imp, f) is Some;
        assert(impl_within(space, e, imp, f) == Some(false));
    } else {
        if impl_defined(space, inner, imp) {
            let g = choose|f: nat| #[trigger] impl_within(space, inner, imp, f) is Some;
            assert(follow_within(space, id, imp, g + 1) == impl_within(space, inner, imp, g));
            assert(impl_within(space, e, imp, g + 1) is Some);
            let f = choose|f: nat| #[trigger] impl_within(space, e, imp, f) is Some;
            assert(f >= 1) by {
                if f == 0 {
                    assert(follow_within(space, id, imp, 0) is None);
                }
            }
            let h = (f - 1) as nat;
            assert(impl_within(space, inner, imp, h) is Some);
            if h <= g {
                lemma_impl_within_mono(space, inner, imp, h, g);
            } else {
                lemma_impl_within_mono(space, inner, imp, g, h);
            }
        }
        if impl_defined(space, e, imp) {
            let f = choose|f: nat| #[trigger] impl_within(space, e, imp, f) is Some;
            assert(f >= 1) by {
                if f == 0 {
                    assert(follow_within(space, id, imp, 0) is None);
                }
            }
            assert(impl_within(space, inner, imp, (f - 1) as nat) is Some);
        }
    }
}

} // verus!
