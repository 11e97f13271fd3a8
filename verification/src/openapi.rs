//! Conversion of the component schemas of an OpenAPI document into the JSON
//! Schema representation that type generation consumes.
//!
//! OpenAPI 3.0.x uses its own schema dialect (roughly a subset of draft 4
//! extended with keywords such as `nullable`); OpenAPI 3.1.x and 3.2.x use
//! JSON Schema 2020-12. Schemas of each dialect are normalized into the
//! draft-7-flavored form, validating along the way that every reference can
//! be resolved. Normalization is structural, performed field by field on the
//! JSON value, so a property that happens to be called e.g. `nullable` is
//! never mangled.

use vstd::prelude::*;

use crate::json::{
    entries_view, json_clone, json_view, keys_unique, lemma_key_index, lemma_object_view, obj_get, obj_get_ref,
    obj_has, obj_insert, obj_insert_key, obj_keys, obj_remove, obj_remove_key, Json, JsonValue,
};
use crate::strings::{
    chars_of, decimal, find_char, first_index_of, has_char, has_prefix, is_str, lemma_first_index_of,
    push_char, push_decimal, push_str, replace_pair, replace_pair_exec, str_equal, string_of,
};
use crate::Error;

verus! {

/// OpenAPI document versions from which types can be generated.
#[derive(Debug, Clone, Copy, PartialEq, Eq, Structural)]
pub enum OpenApiVersion {
    V3_0,
    V3_1,
    V3_2,
}

/// The JSON Schema dialect of the Schema Objects of an OpenAPI document.
#[derive(Debug, Clone, Copy, PartialEq, Eq, Structural)]
pub enum SchemaDialect {
    /// The OpenAPI 3.0 schema dialect.
    OpenApi30,
    /// JSON Schema 2020-12, the base dialect of OpenAPI 3.1 and 3.2.
    JsonSchema202012,
}

/// How a keyword's value takes part in normalization.
#[derive(Debug, Clone, Copy, PartialEq, Eq, Structural)]
pub enum KeywordKind {
    /// The value is a subschema.
    Schema,
    /// The value is an array of subschemas.
    SchemaArray,
    /// The value is an object whose values are subschemas.
    SchemaMap,
    /// The value is a reference to validate.
    Ref,
    /// The keyword is not supported: normalization fails.
    Unsupported,
    /// The value passes through unmodified.
    Other,
}

/// A normalization failure: the location (a JSON pointer prefixed with `#`)
/// and the reason.
pub struct Failure {
    pub location: Seq<char>,
    pub reason: Seq<char>,
}

/// The failure at the JSON pointer `pointer`.
pub open spec fn fail(pointer: Seq<char>, reason: Seq<char>) -> Failure {
    Failure { location: seq!['#'] + pointer, reason }
}

/// Whether `e` is the `InvalidOpenApi` error describing `f`.
pub open spec fn error_is(e: Error, f: Failure) -> bool {
    e matches Error::InvalidOpenApi { location, reason } && location@ == f.location && reason@
        == f.reason
}

/// Whether an executable result agrees with a specified one: the same
/// outcome, the same value on success and the same failure otherwise.
pub open spec fn result_is(r: Result<JsonValue, Error>, s: Result<Json, Failure>) -> bool {
    match (r, s) {
        (Ok(v), Ok(j)) => v@ == j,
        (Err(e), Err(f)) => error_is(e, f),
        _ => false,
    }
}

// ----------------------------------------------------------------------
// Locations
// ----------------------------------------------------------------------

/// The escape sequence of one character of a reference token (RFC 6901).
pub open spec fn escape_char(c: char) -> Seq<char> {
    if c == '~' {
        seq!['~', '0']
    } else if c == '/' {
        seq!['~', '1']
    } else {
        seq![c]
    }
}

/// `segment` as a reference token: `~` becomes `~0` and `/` becomes `~1`.
pub open spec fn escape_token(segment: Seq<char>) -> Seq<char>
    decreases segment.len(),
{
    if segment.len() == 0 {
        Seq::empty()
    } else {
        escape_token(segment.drop_last()) + escape_char(segment.last())
    }
}

/// The pointer to `segment` under `pointer`.
pub open spec fn child_pointer(pointer: Seq<char>, segment: Seq<char>) -> Seq<char> {
    pointer + seq!['/'] + escape_token(segment)
}

/// The pointer to item `index` under `pointer`.
pub open spec fn index_pointer(pointer: Seq<char>, index: nat) -> Seq<char> {
    pointer + seq!['/'] + decimal(index)
}

/// A JSON pointer into an OpenAPI document, giving errors a precise
/// location.
#[derive(Debug)]
pub struct Location {
    pointer: String,
}

impl View for Location {
    type V = Seq<char>;

    closed spec fn view(&self) -> Seq<char> {
        self.pointer@
    }
}

impl Location {
    /// The location of the whole document.
    pub fn root() -> (r: Self)
        ensures
            r@ == Seq::<char>::empty(),
    {
        Location { pointer: String::new() }
    }

    /// The location of `segment` under `self`, with the segment escaped.
    pub fn child(&self, segment: &str) -> (r: Self)
        ensures
            r@ == child_pointer(self@, segment@),
    {
        let mut p = self.pointer.clone();
        push_char(&mut p, '/');
        let cs = chars_of(segment);
        let mut i: usize = 0;
        while i < cs.len()
            invariant
                i <= cs.len(),
                cs@ == segment@,
                p@ == self@ + seq!['/'] + escape_token(segment@.take(i as int)),
            decreases cs.len() - i,
        {
            let c = cs[i];
            assert(segment@.take(i + 1).drop_last() =~= segment@.take(i as int));
            if c == '~' {
                push_char(&mut p, '~');
                push_char(&mut p, '0');
            } else if c == '/' {
                push_char(&mut p, '~');
                push_char(&mut p, '1');
            } else {
                push_char(&mut p, c);
            }
            assert(p@ =~= self@ + seq!['/'] + escape_token(segment@.take(i + 1)));
            i = i + 1;
        }
        assert(segment@.take(cs.len() as int) =~= segment@);
        Location { pointer: p }
    }

    /// The location of item `index` under `self`.
    pub fn index(&self, index: usize) -> (r: Self)
        ensures
            r@ == index_pointer(self@, index as nat),
    {
        let mut p = self.pointer.clone();
        push_char(&mut p, '/');
        push_decimal(&mut p, index as u64);
        Location { pointer: p }
    }

    /// The location as text: `#` followed by the pointer.
    pub fn to_display_string(&self) -> (r: String)
        ensures
            r@ == seq!['#'] + self@,
    {
        let mut s = String::new();
        push_char(&mut s, '#');
        push_str(&mut s, self.pointer.as_str());
        s
    }
}

/// The `InvalidOpenApi` error at `location`.
pub fn invalid_openapi(location: &Location, reason: String) -> (e: Error)
    ensures
        error_is(e, fail(location@, reason@)),
{
    Error::InvalidOpenApi { location: location.to_display_string(), reason }
}

// ----------------------------------------------------------------------
// Versions and dialects
// ----------------------------------------------------------------------

/// `s` split at its first `.`: the part before it and, if there is a `.`,
/// the part after it (the first two items of `str::split('.')`).
pub open spec fn split_dot(s: Seq<char>) -> (Seq<char>, Option<Seq<char>>) {
    match first_index_of(s, '.') {
        Some(i) => (s.take(i), Some(s.skip(i + 1))),
        None => (s, None),
    }
}

/// The first two `.`-separated parts of a version string.
pub open spec fn version_parts(v: Seq<char>) -> (Seq<char>, Option<Seq<char>>) {
    let (major, rest) = split_dot(v);
    match rest {
        Some(r) => (major, Some(split_dot(r).0)),
        None => (major, None),
    }
}

/// The reason given for an unsupported OpenAPI version.
pub open spec fn unsupported_version_reason(v: Seq<char>) -> Seq<char> {
    "unsupported OpenAPI version \""@ + v + "\" (expected 3.0.x, 3.1.x, or 3.2.x)"@
}

/// The OpenAPI version named by `v`: its first two parts decide.
pub open spec fn spec_parse_version(v: Seq<char>, pointer: Seq<char>) -> Result<
    OpenApiVersion,
    Failure,
> {
    let (major, minor) = version_parts(v);
    if major == "3"@ && minor == Some("0"@) {
        Ok(OpenApiVersion::V3_0)
    } else if major == "3"@ && minor == Some("1"@) {
        Ok(OpenApiVersion::V3_1)
    } else if major == "3"@ && minor == Some("2"@) {
        Ok(OpenApiVersion::V3_2)
    } else {
        Err(fail(pointer, unsupported_version_reason(v)))
    }
}

/// The schema dialect of each OpenAPI version.
pub open spec fn spec_dialect(v: OpenApiVersion) -> SchemaDialect {
    match v {
        OpenApiVersion::V3_0 => SchemaDialect::OpenApi30,
        _ => SchemaDialect::JsonSchema202012,
    }
}

/// Splits `cs` at its first `.`.
fn split_dot_exec(cs: &[char]) -> (r: (Vec<char>, Option<Vec<char>>))
    ensures
        r.0@ == split_dot(cs@).0,
        r.1 matches Some(rest) ==> split_dot(cs@).1 == Some(rest@),
        r.1 is None ==> split_dot(cs@).1 is None,
{
    proof {
        lemma_first_index_of(cs@, '.');
    }
    match find_char(cs, '.') {
        Some(i) => {
            let mut head: Vec<char> = Vec::new();
            let mut j: usize = 0;
            while j < i
                invariant
                    j <= i < cs.len(),
                    head@ == cs@.take(j as int),
                decreases i - j,
            {
                head.push(cs[j]);
                assert(cs@.take(j + 1) =~= cs@.take(j as int).push(cs@[j as int]));
                j = j + 1;
            }
            let mut tail: Vec<char> = Vec::new();
            let mut k: usize = i + 1;
            while k < cs.len()
                invariant
                    i + 1 <= k <= cs.len(),
                    tail@ == cs@.subrange(i + 1, k as int),
                decreases cs.len() - k,
            {
                tail.push(cs[k]);
                assert(cs@.subrange(i + 1, k + 1) =~= cs@.subrange(i + 1, k as int).push(
                    cs@[k as int],
                ));
                k = k + 1;
            }
            assert(cs@.skip(i + 1) =~= cs@.subrange(i + 1, cs.len() as int));
            (head, Some(tail))
        },
        None => {
            let mut all: Vec<char> = Vec::new();
            let mut j: usize = 0;
            while j < cs.len()
                invariant
                    j <= cs.len(),
                    all@ == cs@.take(j as int),
                decreases cs.len() - j,
            {
                all.push(cs[j]);
                assert(cs@.take(j + 1) =~= cs@.take(j as int).push(cs@[j as int]));
                j = j + 1;
            }
            assert(cs@.take(cs.len() as int) =~= cs@);
            (all, None)
        },
    }
}

/// Whether the characters `cs` are exactly `lit`.
fn chars_are(cs: &[char], lit: &str) -> (r: bool)
    ensures
        r == (cs@ == lit@),
{
    let lc = chars_of(lit);
    if cs.len() != lc.len() {
        proof {
            if cs@ == lit@ {
                assert(cs@.len() == lc@.len());
            }
        }
        return false;
    }
    let mut i: usize = 0;
    while i < cs.len()
        invariant
            i <= cs.len() == lc.len(),
            lc@ == lit@,
            cs@.take(i as int) == lc@.take(i as int),
        decreases cs.len() - i,
    {
        if cs[i] != lc[i] {
            proof {
                if cs@ == lit@ {
                    assert(cs@[i as int] == lc@[i as int]);
                }
            }
            return false;
        }
        assert(cs@.take(i + 1) =~= cs@.take(i as int).push(cs@[i as int]));
        assert(lc@.take(i + 1) =~= lc@.take(i as int).push(lc@[i as int]));
        i = i + 1;
    }
    assert(cs@.take(cs.len() as int) =~= cs@);
    assert(lc@.take(lc.len() as int) =~= lc@);
    true
}

impl OpenApiVersion {
    /// Parses a version string: `3.0.x`, `3.1.x` and `3.2.x` are supported.
    pub fn parse(version: &str, location: &Location) -> (r: Result<Self, Error>)
        ensures
            match (r, spec_parse_version(version@, location@)) {
                (Ok(v), Ok(w)) => v == w,
                (Err(e), Err(f)) => error_is(e, f),
                _ => false,
            },
    {
        let cs = chars_of(version);
        let (major, rest) = split_dot_exec(&cs);
        let minor = match rest {
            Some(r) => {
                let (m, _) = split_dot_exec(&r);
                Some(m)
            },
            None => None,
        };
        let major3 = chars_are(&major, "3");
        match minor {
            Some(m) => {
                if major3 && chars_are(&m, "0") {
                    return Ok(OpenApiVersion::V3_0);
                } else if major3 && chars_are(&m, "1") {
                    return Ok(OpenApiVersion::V3_1);
                } else if major3 && chars_are(&m, "2") {
                    return Ok(OpenApiVersion::V3_2);
                }
            },
            None => {},
        }
        let mut reason = string_of("unsupported OpenAPI version \"");
        push_str(&mut reason, version);
        push_str(&mut reason, "\" (expected 3.0.x, 3.1.x, or 3.2.x)");
        Err(invalid_openapi(location, reason))
    }

    /// The schema dialect of the version.
    pub fn dialect(&self) -> (d: SchemaDialect)
        ensures
            d == spec_dialect(*self),
    {
        match self {
            OpenApiVersion::V3_0 => SchemaDialect::OpenApi30,
            OpenApiVersion::V3_1 | OpenApiVersion::V3_2 => SchemaDialect::JsonSchema202012,
        }
    }
}

// ----------------------------------------------------------------------
// Keywords and references
// ----------------------------------------------------------------------

/// Keywords that would need reference or dialect machinery that type
/// generation does not have.
pub open spec fn is_unsupported_keyword(key: Seq<char>) -> bool {
    key == "$defs"@ || key == "definitions"@ || key == "$id"@ || key == "$anchor"@ || key
        == "$dynamicAnchor"@ || key == "$dynamicRef"@ || key == "$schema"@
}

/// Subschema-bearing keywords of JSON Schema 2020-12 whose value is one
/// schema.
pub open spec fn is_2020_12_schema_keyword(key: Seq<char>) -> bool {
    key == "if"@ || key == "then"@ || key == "else"@ || key == "contains"@ || key
        == "propertyNames"@ || key == "unevaluatedProperties"@ || key == "unevaluatedItems"@ || key
        == "contentSchema"@
}

/// How the value of keyword `key` takes part in normalization.
pub open spec fn spec_keyword_kind(d: SchemaDialect, key: Seq<char>, value: Json) -> KeywordKind {
    if key == "$ref"@ {
        KeywordKind::Ref
    } else if is_unsupported_keyword(key) {
        KeywordKind::Unsupported
    } else if key == "properties"@ {
        KeywordKind::SchemaMap
    } else if key == "allOf"@ || key == "anyOf"@ || key == "oneOf"@ {
        KeywordKind::SchemaArray
    } else if key == "not"@ {
        KeywordKind::Schema
    } else if key == "additionalProperties"@ && !(value is Bool) {
        KeywordKind::Schema
    } else if key == "items"@ {
        if d == SchemaDialect::JsonSchema202012 && value is Array {
            KeywordKind::SchemaArray
        } else {
            KeywordKind::Schema
        }
    } else if d == SchemaDialect::JsonSchema202012 && is_2020_12_schema_keyword(key) {
        KeywordKind::Schema
    } else if d == SchemaDialect::JsonSchema202012 && key == "prefixItems"@ {
        KeywordKind::SchemaArray
    } else if d == SchemaDialect::JsonSchema202012 && (key == "patternProperties"@ || key
        == "dependentSchemas"@) {
        KeywordKind::SchemaMap
    } else {
        KeywordKind::Other
    }
}

/// The reason given for an unsupported keyword.
pub open spec fn spec_unsupported_keyword_reason(key: Seq<char>) -> Seq<char> {
    if key == "$defs"@ || key == "definitions"@ {
        "`"@ + key
            + "` nested within a component schema is not supported; move shared schemas to components.schemas"@
    } else {
        "`"@ + key
            + "` is not supported; references must be of the form \"#/components/schemas/<name>\""@
    }
}

/// The reason given for an unsupported keyword.
pub fn unsupported_keyword_reason(key: &str) -> (r: String)
    ensures
        r@ == spec_unsupported_keyword_reason(key@),
{
    let mut r = string_of("`");
    push_str(&mut r, key);
    if is_str(key, "$defs") || is_str(key, "definitions") {
        push_str(
            &mut r,
            "` nested within a component schema is not supported; move shared schemas to components.schemas",
        );
    } else {
        push_str(
            &mut r,
            "` is not supported; references must be of the form \"#/components/schemas/<name>\"",
        );
    }
    r
}

/// The prefix of every reference that can be resolved.
pub open spec fn schemas_ref_prefix() -> Seq<char> {
    "#/components/schemas/"@
}

/// The check of a `$ref` value: it must be a string naming, after the
/// `#/components/schemas/` prefix, one of `names` (with `~1` and `~0`
/// unescaped), and must not refer into a schema's interior.
pub open spec fn spec_check_ref(names: Seq<Seq<char>>, value: Json, pointer: Seq<char>) -> Option<
    Failure,
> {
    match value {
        Json::Str(reference) => {
            if !has_prefix(reference, schemas_ref_prefix()) {
                Some(
                    fail(
                        pointer,
                        "\""@ + reference
                            + "\" is not a reference of the form \"#/components/schemas/<name>\""@,
                    ),
                )
            } else {
                let name = reference.skip(schemas_ref_prefix().len() as int);
                if has_char(name, '/') {
                    Some(
                        fail(
                            pointer,
                            "\""@ + reference
                                + "\" refers into the interior of a schema; references must target a schema in components.schemas"@,
                        ),
                    )
                } else if !names.contains(replace_pair(replace_pair(name, '~', '1', '/'), '~', '0', '~')) {
                    Some(
                        fail(
                            pointer,
                            "\""@ + reference + "\" does not match a schema in components.schemas"@,
                        ),
                    )
                } else {
                    None
                }
            }
        },
        _ => Some(fail(pointer, "expected a reference string"@)),
    }
}

/// Whether `names` holds `name`.
fn names_contain(names: &Vec<String>, name: &str) -> (r: bool)
    ensures
        r == names@.map_values(|n: String| n@).contains(name@),
{
    let ghost nv = names@.map_values(|n: String| n@);
    let mut i: usize = 0;
    while i < names.len()
        invariant
            i <= names.len(),
            nv == names@.map_values(|n: String| n@),
            forall|j: int| 0 <= j < i ==> nv[j] != name@,
        decreases names.len() - i,
    {
        if str_equal(names[i].as_str(), name) {
            assert(nv[i as int] == name@);
            return true;
        }
        i = i + 1;
    }
    false
}

// ----------------------------------------------------------------------
// Dialect-specific transformations of one schema node
// ----------------------------------------------------------------------

/// The draft 4 boolean form of an exclusive bound (`exclusive: true`
/// beside `bound`) turned into the numeric form; a `false` flag, or a `true`
/// one without a bound, is dropped. Any other value passes through.
pub open spec fn spec_exclusive_bound(
    m: Seq<(Seq<char>, Json)>,
    bound: Seq<char>,
    exclusive: Seq<char>,
) -> Seq<(Seq<char>, Json)> {
    match obj_get(m, exclusive) {
        Some(Json::Bool(true)) => match obj_get(m, bound) {
            Some(v) => obj_insert(obj_remove(m, bound), exclusive, v),
            None => obj_remove(m, exclusive),
        },
        Some(Json::Bool(false)) => obj_remove(m, exclusive),
        _ => m,
    }
}

/// `example` folded into `examples`; an existing `examples` wins.
pub open spec fn spec_example_to_examples(m: Seq<(Seq<char>, Json)>) -> Seq<(Seq<char>, Json)> {
    match obj_get(m, "example"@) {
        Some(ex) => {
            let m1 = obj_remove(m, "example"@);
            if obj_has(m1, "examples"@) {
                m1
            } else {
                obj_insert(m1, "examples"@, Json::Array(seq![ex]))
            }
        },
        None => m,
    }
}

/// The schema that admits only null.
pub open spec fn null_schema() -> Json {
    Json::Object(seq![("type"@, Json::Str("null"@))])
}

/// Whether a subschema is the schema of type `null`.
pub open spec fn admits_null(sub: Json) -> bool {
    sub matches Json::Object(e) && obj_get(e, "type"@) == Some(Json::Str("null"@))
}

/// A union keyword's subschemas with a null subschema added, unless one is
/// already there.
pub open spec fn spec_add_null_member(m: Seq<(Seq<char>, Json)>, key: Seq<char>, subs: Seq<Json>) -> Seq<
    (Seq<char>, Json),
> {
    if exists|i: int| 0 <= i < subs.len() && admits_null(#[trigger] subs[i]) {
        m
    } else {
        obj_insert(m, key, Json::Array(subs.push(null_schema())))
    }
}

/// The `type` keyword of a schema made to admit null, and whether the
/// schema has a `type` keyword at all.
pub open spec fn spec_nullable_type(m: Seq<(Seq<char>, Json)>) -> (Seq<(Seq<char>, Json)>, bool) {
    let null = Json::Str("null"@);
    match obj_get(m, "type"@) {
        Some(Json::Str(single)) => if single != "null"@ {
            (obj_remove(obj_insert(m, "type"@, Json::Array(seq![Json::Str(single), null])), "title"@), true)
        } else {
            (m, true)
        },
        Some(Json::Array(types)) => if !types.contains(null) {
            let m1 = obj_insert(m, "type"@, Json::Array(types.push(null)));
            (if types.len() + 1 == 2 { obj_remove(m1, "title"@) } else { m1 }, true)
        } else {
            (m, true)
        },
        Some(_) => (m, true),
        None => (m, false),
    }
}

/// A schema, stripped of `nullable` and with its subschemas normalized,
/// rewritten to admit null: a typed schema gains `null` in a type array (and
/// drops its `title`, which would name the non-null inner type after the
/// definition), an enumeration gains a null member, a union gains a null
/// subschema, an unconstrained schema is left alone, and anything else is
/// wrapped in a two-member `anyOf` with the null schema.
pub open spec fn spec_make_nullable(m: Seq<(Seq<char>, Json)>) -> Json {
    let (m1, has_type) = spec_nullable_type(m);
    if has_type || obj_has(m1, "enum"@) {
        match obj_get(m1, "enum"@) {
            Some(Json::Array(values)) => if !values.contains(Json::Null) {
                Json::Object(obj_insert(m1, "enum"@, Json::Array(values.push(Json::Null))))
            } else {
                Json::Object(m1)
            },
            _ => Json::Object(m1),
        }
    } else {
        match obj_get(m1, "oneOf"@) {
            Some(Json::Array(subs)) => Json::Object(spec_add_null_member(m1, "oneOf"@, subs)),
            _ => match obj_get(m1, "anyOf"@) {
                Some(Json::Array(subs)) => Json::Object(spec_add_null_member(m1, "anyOf"@, subs)),
                _ => if m1.len() == 0 {
                    Json::Object(m1)
                } else {
                    Json::Object(seq![("anyOf"@, Json::Array(seq![Json::Object(m1), null_schema()]))])
                },
            },
        }
    }
}

/// The OpenAPI 3.0 transformations of a schema node whose subschemas are
/// normalized: `nullable` must be a boolean and becomes a null-admitting
/// schema, type arrays are refused, boolean exclusive bounds become numeric,
/// `example` folds into `examples`, and a `default: null` on a non-nullable
/// schema is dropped.
pub open spec fn spec_finish_3_0(m: Seq<(Seq<char>, Json)>, pointer: Seq<char>) -> Result<Json, Failure> {
    match obj_get(m, "nullable"@) {
        Some(v) if !(v is Bool) => Err(fail(child_pointer(pointer, "nullable"@), "expected a boolean"@)),
        nb => {
            let nullable = match nb {
                Some(Json::Bool(b)) => b,
                _ => false,
            };
            let m1 = obj_remove(m, "nullable"@);
            if obj_get(m1, "type"@) matches Some(Json::Array(_)) {
                Err(
                    fail(
                        child_pointer(pointer, "type"@),
                        "type arrays are not part of the OpenAPI 3.0 schema dialect"@,
                    ),
                )
            } else {
                let m2 = spec_exclusive_bound(m1, "minimum"@, "exclusiveMinimum"@);
                let m3 = spec_exclusive_bound(m2, "maximum"@, "exclusiveMaximum"@);
                let m4 = spec_example_to_examples(m3);
                let m5 = if !nullable && obj_get(m4, "default"@) == Some(Json::Null) {
                    obj_remove(m4, "default"@)
                } else {
                    m4
                };
                if nullable {
                    Ok(spec_make_nullable(m5))
                } else {
                    Ok(Json::Object(m5))
                }
            }
        },
    }
}

/// The JSON Schema 2020-12 transformations of a schema node whose
/// subschemas are normalized: `prefixItems` becomes the array form of
/// `items` (a sibling `items` becoming `additionalItems`), `example` folds
/// into `examples`, and a boolean `nullable` is removed, honored if `true`.
pub open spec fn spec_finish_2020_12(m: Seq<(Seq<char>, Json)>) -> Json {
    let m1 = match obj_get(m, "prefixItems"@) {
        Some(p) => {
            let a = obj_remove(m, "prefixItems"@);
            let b = match obj_get(a, "items"@) {
                Some(it) => obj_insert(obj_remove(a, "items"@), "additionalItems"@, it),
                None => a,
            };
            obj_insert(b, "items"@, p)
        },
        None => m,
    };
    let m2 = spec_example_to_examples(m1);
    match obj_get(m2, "nullable"@) {
        Some(Json::Bool(b)) => {
            let m3 = obj_remove(m2, "nullable"@);
            if b {
                spec_make_nullable(m3)
            } else {
                Json::Object(m3)
            }
        },
        _ => Json::Object(m2),
    }
}

/// The dialect-specific transformations of a schema node.
pub open spec fn spec_finish(d: SchemaDialect, m: Seq<(Seq<char>, Json)>, pointer: Seq<char>) -> Result<Json, Failure> {
    match d {
        SchemaDialect::OpenApi30 => spec_finish_3_0(m, pointer),
        SchemaDialect::JsonSchema202012 => Ok(spec_finish_2020_12(m)),
    }
}

/// Converts a boolean exclusive bound into the numeric form.
pub fn exclusive_bound(map: &mut Vec<(String, JsonValue)>, bound: &str, exclusive: &str)
    ensures
        entries_view(final(map)@) == spec_exclusive_bound(entries_view(old(map)@), bound@, exclusive@),
{
    let flag = match obj_get_ref(map, exclusive) {
        Some(JsonValue::Bool(b)) => Some(*b),
        _ => None,
    };
    match flag {
        Some(true) => match obj_remove_key(map, bound) {
            Some(v) => obj_insert_key(map, string_of(exclusive), v),
            None => {
                obj_remove_key(map, exclusive);
            },
        },
        Some(false) => {
            obj_remove_key(map, exclusive);
        },
        None => {},
    }
}

/// Folds `example` into `examples`.
pub fn example_to_examples(map: &mut Vec<(String, JsonValue)>)
    ensures
        entries_view(final(map)@) == spec_example_to_examples(entries_view(old(map)@)),
{
    match obj_remove_key(map, "example") {
        Some(ex) => {
            if find_key_exec(map, "examples").is_none() {
                let ghost exv = ex@;
                let items = vec![ex];
                proof {
                    crate::json::lemma_array_view(items);
                    assert(crate::json::items_view(items@) =~= seq![exv]);
                }
                obj_insert_key(map, string_of("examples"), JsonValue::Array(items));
            }
        },
        None => {},
    }
}

fn find_key_exec(map: &Vec<(String, JsonValue)>, key: &str) -> (r: Option<usize>)
    ensures
        r is Some <==> obj_has(entries_view(map@), key@),
{
    crate::json::find_key(map, key)
}

/// The schema that admits only null.
pub fn null_schema_exec() -> (r: JsonValue)
    ensures
        r@ == null_schema(),
{
    let entries = vec![(string_of("type"), JsonValue::String(string_of("null")))];
    proof {
        lemma_object_view(entries);
        assert(entries_view(entries@) =~= seq![("type"@, Json::Str("null"@))]);
    }
    JsonValue::Object(entries)
}

/// Whether `v` is the string `lit`.
fn is_string_value(v: &JsonValue, lit: &str) -> (r: bool)
    ensures
        r == (v@ == Json::Str(lit@)),
{
    match v {
        JsonValue::String(s) => is_str(s.as_str(), lit),
        _ => false,
    }
}

/// Whether `items` holds the string `"null"`.
fn has_null_string(items: &Vec<JsonValue>) -> (r: bool)
    ensures
        r == crate::json::items_view(items@).contains(Json::Str("null"@)),
{
    let ghost iv = crate::json::items_view(items@);
    let mut i: usize = 0;
    while i < items.len()
        invariant
            i <= items.len(),
            iv == crate::json::items_view(items@),
            forall|j: int| 0 <= j < i ==> iv[j] != Json::Str("null"@),
        decreases items.len() - i,
    {
        if is_string_value(&items[i], "null") {
            assert(iv[i as int] == Json::Str("null"@));
            return true;
        }
        i = i + 1;
    }
    false
}

/// Whether `items` holds null.
fn has_null(items: &Vec<JsonValue>) -> (r: bool)
    ensures
        r == crate::json::items_view(items@).contains(Json::Null),
{
    let ghost iv = crate::json::items_view(items@);
    let mut i: usize = 0;
    while i < items.len()
        invariant
            i <= items.len(),
            iv == crate::json::items_view(items@),
            forall|j: int| 0 <= j < i ==> iv[j] != Json::Null,
        decreases items.len() - i,
    {
        if let JsonValue::Null = &items[i] {
            assert(iv[i as int] == Json::Null);
            return true;
        }
        i = i + 1;
    }
    false
}

/// Whether `sub` is the schema of type `null`.
fn admits_null_exec(sub: &JsonValue) -> (r: bool)
    ensures
        r == admits_null(sub@),
{
    match sub {
        JsonValue::Object(e) => {
            proof {
                lemma_object_view(*e);
            }
            match obj_get_ref(e, "type") {
                Some(t) => is_string_value(t, "null"),
                None => false,
            }
        },
        _ => false,
    }
}

/// Whether one of `subs` is the schema of type `null`.
fn any_admits_null(subs: &Vec<JsonValue>) -> (r: bool)
    ensures
        r == exists|i: int|
            0 <= i < subs.len() && admits_null(#[trigger] crate::json::items_view(subs@)[i]),
{
    let ghost iv = crate::json::items_view(subs@);
    let mut i: usize = 0;
    while i < subs.len()
        invariant
            i <= subs.len(),
            iv == crate::json::items_view(subs@),
            forall|j: int| 0 <= j < i ==> !admits_null(#[trigger] iv[j]),
        decreases subs.len() - i,
    {
        if admits_null_exec(&subs[i]) {
            assert(admits_null(iv[i as int]));
            return true;
        }
        i = i + 1;
    }
    false
}

/// Adds a null subschema to the union under `key`, unless it has one.
fn add_null_member(m: &mut Vec<(String, JsonValue)>, key: &str, subs: Vec<JsonValue>)
    ensures
        entries_view(final(m)@) == spec_add_null_member(
            entries_view(old(m)@),
            key@,
            crate::json::items_view(subs@),
        ),
{
    let ghost sv = crate::json::items_view(subs@);
    if !any_admits_null(&subs) {
        let mut s2 = subs;
        let n = null_schema_exec();
        let ghost nv = n@;
        s2.push(n);
        assert(crate::json::items_view(s2@) =~= sv.push(null_schema()));
        proof {
            crate::json::lemma_array_view(s2);
        }
        obj_insert_key(m, string_of(key), JsonValue::Array(s2));
    }
}

/// Rewrites a schema (without `nullable`, its subschemas normalized) to
/// admit null.
pub fn make_nullable(map: Vec<(String, JsonValue)>) -> (r: JsonValue)
    ensures
        r@ == spec_make_nullable(entries_view(map@)),
{
    let mut m = map;
    let type_value: Option<JsonValue> = match obj_get_ref(&m, "type") {
        Some(v) => Some(json_clone(v)),
        None => None,
    };
    let has_type: bool;
    match type_value {
        Some(JsonValue::String(single)) => {
            if !is_str(single.as_str(), "null") {
                let ghost sv = single@;
                let arr = vec![JsonValue::String(single), JsonValue::String(string_of("null"))];
                proof {
                    crate::json::lemma_array_view(arr);
                    assert(crate::json::items_view(arr@) =~= seq![Json::Str(sv), Json::Str("null"@)]);
                }
                obj_insert_key(&mut m, string_of("type"), JsonValue::Array(arr));
                obj_remove_key(&mut m, "title");
            }
            has_type = true;
        },
        Some(JsonValue::Array(types)) => {
            proof {
                crate::json::lemma_array_view(types);
            }
            if !has_null_string(&types) {
                let ghost tv = crate::json::items_view(types@);
                let mut t2 = types;
                t2.push(JsonValue::String(string_of("null")));
                assert(crate::json::items_view(t2@) =~= tv.push(Json::Str("null"@)));
                let two = t2.len() == 2;
                proof {
                    crate::json::lemma_array_view(t2);
                }
                obj_insert_key(&mut m, string_of("type"), JsonValue::Array(t2));
                if two {
                    obj_remove_key(&mut m, "title");
                }
            }
            has_type = true;
        },
        Some(_) => {
            has_type = true;
        },
        None => {
            has_type = false;
        },
    }
    assert((entries_view(m@), has_type) == spec_nullable_type(entries_view(map@)));
    if has_type || find_key_exec(&m, "enum").is_some() {
        let enum_value: Option<JsonValue> = match obj_get_ref(&m, "enum") {
            Some(v) => Some(json_clone(v)),
            None => None,
        };
        match enum_value {
            Some(JsonValue::Array(values)) => {
                proof {
                    crate::json::lemma_array_view(values);
                }
                if !has_null(&values) {
                    let ghost vv = crate::json::items_view(values@);
                    let mut v2 = values;
                    v2.push(JsonValue::Null);
                    assert(crate::json::items_view(v2@) =~= vv.push(Json::Null));
                    proof {
                        crate::json::lemma_array_view(v2);
                    }
                    obj_insert_key(&mut m, string_of("enum"), JsonValue::Array(v2));
                }
            },
            _ => {},
        }
        proof {
            lemma_object_view(m);
        }
        return JsonValue::Object(m);
    }
    let one_of: Option<JsonValue> = match obj_get_ref(&m, "oneOf") {
        Some(v) => Some(json_clone(v)),
        None => None,
    };
    if let Some(JsonValue::Array(subs)) = one_of {
        proof {
            crate::json::lemma_array_view(subs);
        }
        add_null_member(&mut m, "oneOf", subs);
        proof {
            lemma_object_view(m);
        }
        return JsonValue::Object(m);
    }
    let any_of: Option<JsonValue> = match obj_get_ref(&m, "anyOf") {
        Some(v) => Some(json_clone(v)),
        None => None,
    };
    if let Some(JsonValue::Array(subs)) = any_of {
        proof {
            crate::json::lemma_array_view(subs);
        }
        add_null_member(&mut m, "anyOf", subs);
        proof {
            lemma_object_view(m);
        }
        return JsonValue::Object(m);
    }
    if m.len() == 0 {
        proof {
            lemma_object_view(m);
        }
        return JsonValue::Object(m);
    }
    let ghost mv = entries_view(m@);
    proof {
        lemma_object_view(m);
    }
    let inner = JsonValue::Object(m);
    let n = null_schema_exec();
    let ghost innerv = inner@;
    let ghost nv = n@;
    let items = vec![inner, n];
    proof {
        crate::json::lemma_array_view(items);
        assert(crate::json::items_view(items@) =~= seq![innerv, nv]);
    }
    let wrapper = vec![(string_of("anyOf"), JsonValue::Array(items))];
    proof {
        lemma_object_view(wrapper);
        assert(entries_view(wrapper@) =~= seq![("anyOf"@, Json::Array(seq![Json::Object(mv), null_schema()]))]);
    }
    JsonValue::Object(wrapper)
}

/// The OpenAPI 3.0 transformations of a schema node whose subschemas are
/// normalized.
pub fn finish_openapi_3_0(map: Vec<(String, JsonValue)>, location: &Location) -> (r: Result<
    JsonValue,
    Error,
>)
    ensures
        result_is(r, spec_finish_3_0(entries_view(map@), location@)),
{
    let mut m = map;
    let nullable: bool;
    match obj_remove_key(&mut m, "nullable") {
        None => {
            nullable = false;
        },
        Some(JsonValue::Bool(b)) => {
            nullable = b;
        },
        Some(_) => {
            return Err(invalid_openapi(&location.child("nullable"), string_of("expected a boolean")));
        },
    }
    let type_array = match obj_get_ref(&m, "type") {
        Some(JsonValue::Array(_)) => true,
        _ => false,
    };
    if type_array {
        return Err(
            invalid_openapi(
                &location.child("type"),
                string_of("type arrays are not part of the OpenAPI 3.0 schema dialect"),
            ),
        );
    }
    exclusive_bound(&mut m, "minimum", "exclusiveMinimum");
    exclusive_bound(&mut m, "maximum", "exclusiveMaximum");
    example_to_examples(&mut m);
    if !nullable {
        let null_default = match obj_get_ref(&m, "default") {
            Some(JsonValue::Null) => true,
            _ => false,
        };
        if null_default {
            obj_remove_key(&mut m, "default");
        }
    }
    if nullable {
        Ok(make_nullable(m))
    } else {
        proof {
            lemma_object_view(m);
        }
        Ok(JsonValue::Object(m))
    }
}

/// The JSON Schema 2020-12 transformations of a schema node whose
/// subschemas are normalized.
pub fn finish_2020_12(map: Vec<(String, JsonValue)>) -> (r: JsonValue)
    ensures
        r@ == spec_finish_2020_12(entries_view(map@)),
{
    let mut m = map;
    match obj_remove_key(&mut m, "prefixItems") {
        Some(prefix_items) => {
            match obj_remove_key(&mut m, "items") {
                Some(items) => obj_insert_key(&mut m, string_of("additionalItems"), items),
                None => {},
            }
            obj_insert_key(&mut m, string_of("items"), prefix_items);
        },
        None => {},
    }
    example_to_examples(&mut m);
    let flag = match obj_get_ref(&m, "nullable") {
        Some(JsonValue::Bool(b)) => Some(*b),
        _ => None,
    };
    match flag {
        Some(b) => {
            obj_remove_key(&mut m, "nullable");
            if b {
                return make_nullable(m);
            }
        },
        None => {},
    }
    proof {
        lemma_object_view(m);
    }
    JsonValue::Object(m)
}

// ----------------------------------------------------------------------
// Normalization
// ----------------------------------------------------------------------

/// The normalization of a schema value: subschemas are normalized
/// recursively, then the dialect-specific transformations apply to the
/// node. A failure anywhere is reported at its location; entries are
/// examined in order and the first failure wins.
pub open spec fn spec_normalize(
    d: SchemaDialect,
    names: Seq<Seq<char>>,
    schema: Json,
    pointer: Seq<char>,
) -> Result<Json, Failure>
    decreases schema,
{
    match schema {
        Json::Object(entries) => match spec_normalize_keywords(d, names, entries, pointer) {
            Ok(out) => spec_finish(d, out, pointer),
            Err(f) => Err(f),
        },
        Json::Bool(_) => if d == SchemaDialect::JsonSchema202012 {
            Ok(schema)
        } else {
            Err(fail(pointer, "boolean schemas are not part of the OpenAPI 3.0 schema dialect"@))
        },
        Json::Array(_) => Err(fail(pointer, "expected a schema, not an array of schemas"@)),
        _ => Err(fail(pointer, "expected a schema"@)),
    }
}

/// The normalization of the keywords of a schema node, in order.
pub open spec fn spec_normalize_keywords(
    d: SchemaDialect,
    names: Seq<Seq<char>>,
    entries: Seq<(Seq<char>, Json)>,
    pointer: Seq<char>,
) -> Result<Seq<(Seq<char>, Json)>, Failure>
    decreases entries,
{
    if entries.len() == 0 {
        Ok(Seq::empty())
    } else {
        match spec_normalize_keywords(d, names, entries.drop_last(), pointer) {
            Err(f) => Err(f),
            Ok(prev) => {
                let key = entries.last().0;
                let value = entries.last().1;
                let child = child_pointer(pointer, key);
                proof {
                    assert(decreases_to!(entries => entries[entries.len() - 1]));
                }
                let r = match spec_keyword_kind(d, key, value) {
                    KeywordKind::Schema => spec_normalize(d, names, value, child),
                    KeywordKind::SchemaArray => match value {
                        Json::Array(subs) => match spec_normalize_items(d, names, subs, child) {
                            Ok(v) => Ok(Json::Array(v)),
                            Err(f) => Err(f),
                        },
                        _ => Ok(value),
                    },
                    KeywordKind::SchemaMap => match value {
                        Json::Object(subs) => match spec_normalize_props(d, names, subs, child) {
                            Ok(v) => Ok(Json::Object(v)),
                            Err(f) => Err(f),
                        },
                        _ => Ok(value),
                    },
                    KeywordKind::Ref => match spec_check_ref(names, value, child) {
                        Some(f) => Err(f),
                        None => Ok(value),
                    },
                    KeywordKind::Unsupported => Err(fail(child, spec_unsupported_keyword_reason(key))),
                    KeywordKind::Other => Ok(value),
                };
                match r {
                    Ok(v) => Ok(obj_insert(prev, key, v)),
                    Err(f) => Err(f),
                }
            },
        }
    }
}

/// The normalization of an array of subschemas, item by item.
pub open spec fn spec_normalize_items(
    d: SchemaDialect,
    names: Seq<Seq<char>>,
    items: Seq<Json>,
    pointer: Seq<char>,
) -> Result<Seq<Json>, Failure>
    decreases items,
{
    if items.len() == 0 {
        Ok(Seq::empty())
    } else {
        match spec_normalize_items(d, names, items.drop_last(), pointer) {
            Err(f) => Err(f),
            Ok(prev) => {
                proof {
                    assert(decreases_to!(items => items[items.len() - 1]));
                }
                match spec_normalize(
                    d,
                    names,
                    items.last(),
                    index_pointer(pointer, (items.len() - 1) as nat),
                ) {
                    Ok(v) => Ok(prev.push(v)),
                    Err(f) => Err(f),
                }
            },
        }
    }
}

/// The normalization of an object of subschemas, entry by entry.
pub open spec fn spec_normalize_props(
    d: SchemaDialect,
    names: Seq<Seq<char>>,
    props: Seq<(Seq<char>, Json)>,
    pointer: Seq<char>,
) -> Result<Seq<(Seq<char>, Json)>, Failure>
    decreases props,
{
    if props.len() == 0 {
        Ok(Seq::empty())
    } else {
        match spec_normalize_props(d, names, props.drop_last(), pointer) {
            Err(f) => Err(f),
            Ok(prev) => {
                proof {
                    assert(decreases_to!(props => props[props.len() - 1]));
                }
                let key = props.last().0;
                match spec_normalize(d, names, props.last().1, child_pointer(pointer, key)) {
                    Ok(v) => Ok(obj_insert(prev, key, v)),
                    Err(f) => Err(f),
                }
            },
        }
    }
}

proof fn lemma_keywords_stop(
    d: SchemaDialect,
    names: Seq<Seq<char>>,
    e: Seq<(Seq<char>, Json)>,
    pointer: Seq<char>,
    i: int,
)
    requires
        0 <= i <= e.len(),
        spec_normalize_keywords(d, names, e.take(i), pointer) is Err,
    ensures
        spec_normalize_keywords(d, names, e, pointer) == spec_normalize_keywords(
            d,
            names,
            e.take(i),
            pointer,
        ),
    decreases e.len(),
{
    if i == e.len() {
        assert(e.take(i) =~= e);
    } else {
        assert(e.drop_last().take(i) =~= e.take(i));
        lemma_keywords_stop(d, names, e.drop_last(), pointer, i);
    }
}

proof fn lemma_items_stop(d: SchemaDialect, names: Seq<Seq<char>>, e: Seq<Json>, pointer: Seq<char>, i: int)
    requires
        0 <= i <= e.len(),
        spec_normalize_items(d, names, e.take(i), pointer) is Err,
    ensures
        spec_normalize_items(d, names, e, pointer) == spec_normalize_items(
            d,
            names,
            e.take(i),
            pointer,
        ),
    decreases e.len(),
{
    if i == e.len() {
        assert(e.take(i) =~= e);
    } else {
        assert(e.drop_last().take(i) =~= e.take(i));
        lemma_items_stop(d, names, e.drop_last(), pointer, i);
    }
}

proof fn lemma_props_stop(
    d: SchemaDialect,
    names: Seq<Seq<char>>,
    e: Seq<(Seq<char>, Json)>,
    pointer: Seq<char>,
    i: int,
)
    requires
        0 <= i <= e.len(),
        spec_normalize_props(d, names, e.take(i), pointer) is Err,
    ensures
        spec_normalize_props(d, names, e, pointer) == spec_normalize_props(
            d,
            names,
            e.take(i),
            pointer,
        ),
    decreases e.len(),
{
    if i == e.len() {
        assert(e.take(i) =~= e);
    } else {
        assert(e.drop_last().take(i) =~= e.take(i));
        lemma_props_stop(d, names, e.drop_last(), pointer, i);
    }
}

/// The normalization of the schemas of one document.
pub struct Normalizer {
    /// The schema dialect of the document.
    pub dialect: SchemaDialect,
    /// Names of the schemas in `components.schemas`: the only valid
    /// reference targets.
    pub schema_names: Vec<String>,
}

impl Normalizer {
    /// The names of the schemas that references may target.
    pub open spec fn names(&self) -> Seq<Seq<char>> {
        self.schema_names@.map_values(|n: String| n@)
    }

    /// How the value of keyword `key` takes part in normalization.
    pub fn keyword_kind(&self, key: &str, value: &JsonValue) -> (k: KeywordKind)
        ensures
            k == spec_keyword_kind(self.dialect, key@, value@),
    {
        let modern = match self.dialect {
            SchemaDialect::JsonSchema202012 => true,
            SchemaDialect::OpenApi30 => false,
        };
        if is_str(key, "$ref") {
            KeywordKind::Ref
        } else if is_str(key, "$defs") || is_str(key, "definitions") || is_str(key, "$id")
            || is_str(key, "$anchor") || is_str(key, "$dynamicAnchor") || is_str(
            key,
            "$dynamicRef",
        ) || is_str(key, "$schema") {
            KeywordKind::Unsupported
        } else if is_str(key, "properties") {
            KeywordKind::SchemaMap
        } else if is_str(key, "allOf") || is_str(key, "anyOf") || is_str(key, "oneOf") {
            KeywordKind::SchemaArray
        } else if is_str(key, "not") {
            KeywordKind::Schema
        } else if is_str(key, "additionalProperties") && !(match value {
            JsonValue::Bool(_) => true,
            _ => false,
        }) {
            KeywordKind::Schema
        } else if is_str(key, "items") {
            let is_array = match value {
                JsonValue::Array(_) => true,
                _ => false,
            };
            if modern && is_array {
                KeywordKind::SchemaArray
            } else {
                KeywordKind::Schema
            }
        } else if modern && (is_str(key, "if") || is_str(key, "then") || is_str(key, "else")
            || is_str(key, "contains") || is_str(key, "propertyNames") || is_str(
            key,
            "unevaluatedProperties",
        ) || is_str(key, "unevaluatedItems") || is_str(key, "contentSchema")) {
            KeywordKind::Schema
        } else if modern && is_str(key, "prefixItems") {
            KeywordKind::SchemaArray
        } else if modern && (is_str(key, "patternProperties") || is_str(key, "dependentSchemas")) {
            KeywordKind::SchemaMap
        } else {
            KeywordKind::Other
        }
    }

    /// Checks that a `$ref` targets an existing schema of
    /// `components.schemas`.
    pub fn check_ref(&self, value: &JsonValue, location: &Location) -> (r: Result<(), Error>)
        ensures
            match (r, spec_check_ref(self.names(), value@, location@)) {
                (Ok(()), None) => true,
                (Err(e), Some(f)) => error_is(e, f),
                _ => false,
            },
    {
        let reference = match value {
            JsonValue::String(s) => s,
            _ => {
                return Err(invalid_openapi(location, string_of("expected a reference string")));
            },
        };
        let rc = chars_of(reference.as_str());
        let pc = chars_of("#/components/schemas/");
        let mut prefixed = rc.len() >= pc.len();
        let mut i: usize = 0;
        while prefixed && i < pc.len()
            invariant
                i <= pc.len(),
                pc@ == schemas_ref_prefix(),
                rc@ == reference@,
                prefixed ==> rc.len() >= pc.len() && rc@.take(i as int) == pc@.take(i as int),
                !prefixed ==> !has_prefix(reference@, schemas_ref_prefix()),
            decreases pc.len() - i + (if prefixed { 1int } else { 0int }),
        {
            if rc[i] != pc[i] {
                prefixed = false;
                proof {
                    if has_prefix(reference@, schemas_ref_prefix()) {
                        assert(rc@.take(pc.len() as int)[i as int] == rc@[i as int]);
                    }
                }
            } else {
                assert(rc@.take(i + 1) =~= rc@.take(i as int).push(rc@[i as int]));
                assert(pc@.take(i + 1) =~= pc@.take(i as int).push(pc@[i as int]));
                i = i + 1;
            }
        }
        if !prefixed {
            let mut reason = string_of("\"");
            push_str(&mut reason, reference.as_str());
            push_str(&mut reason, "\" is not a reference of the form \"#/components/schemas/<name>\"");
            return Err(invalid_openapi(location, reason));
        }
        assert(pc@.take(pc.len() as int) =~= pc@);
        let mut name_chars: Vec<char> = Vec::new();
        let mut k: usize = pc.len();
        while k < rc.len()
            invariant
                pc.len() <= k <= rc.len(),
                name_chars@ == rc@.subrange(pc.len() as int, k as int),
            decreases rc.len() - k,
        {
            name_chars.push(rc[k]);
            assert(rc@.subrange(pc.len() as int, k + 1) =~= rc@.subrange(pc.len() as int, k as int).push(rc@[k as int]));
            k = k + 1;
        }
        assert(name_chars@ =~= reference@.skip(schemas_ref_prefix().len() as int));
        proof {
            lemma_first_index_of(name_chars@, '/');
        }
        if find_char(&name_chars, '/').is_some() {
            let mut reason = string_of("\"");
            push_str(&mut reason, reference.as_str());
            push_str(
                &mut reason,
                "\" refers into the interior of a schema; references must target a schema in components.schemas",
            );
            return Err(invalid_openapi(location, reason));
        }
        let name = crate::strings::string_from_chars(&name_chars);
        let step = replace_pair_exec(name.as_str(), '~', '1', '/');
        let unescaped = replace_pair_exec(step.as_str(), '~', '0', '~');
        if !names_contain(&self.schema_names, unescaped.as_str()) {
            let mut reason = string_of("\"");
            push_str(&mut reason, reference.as_str());
            push_str(&mut reason, "\" does not match a schema in components.schemas");
            return Err(invalid_openapi(location, reason));
        }
        Ok(())
    }
}

/// Whether an executable list of entries agrees with a specified one.
pub open spec fn entries_result_is(
    r: Result<Vec<(String, JsonValue)>, Error>,
    s: Result<Seq<(Seq<char>, Json)>, Failure>,
) -> bool {
    match (r, s) {
        (Ok(v), Ok(j)) => entries_view(v@) == j,
        (Err(e), Err(f)) => error_is(e, f),
        _ => false,
    }
}

/// Whether an executable list of items agrees with a specified one.
pub open spec fn items_result_is(r: Result<Vec<JsonValue>, Error>, s: Result<Seq<Json>, Failure>) -> bool {
    match (r, s) {
        (Ok(v), Ok(j)) => crate::json::items_view(v@) == j,
        (Err(e), Err(f)) => error_is(e, f),
        _ => false,
    }
}

impl Normalizer {
    /// Normalizes a schema value: subschemas first, then the
    /// dialect-specific transformations of the node.
    #[verifier::loop_isolation(false)]
    pub fn normalize(&self, schema: &JsonValue, location: &Location) -> (r: Result<JsonValue, Error>)
        ensures
            result_is(r, spec_normalize(self.dialect, self.names(), schema@, location@)),
        decreases schema, 0nat,
    {
        match schema {
            JsonValue::Object(map) => {
                proof {
                    lemma_object_view(*map);
                }
                let out = self.normalize_keywords(map, location)?;
                match self.dialect {
                    SchemaDialect::OpenApi30 => finish_openapi_3_0(out, location),
                    SchemaDialect::JsonSchema202012 => Ok(finish_2020_12(out)),
                }
            },
            JsonValue::Bool(b) => match self.dialect {
                SchemaDialect::JsonSchema202012 => Ok(JsonValue::Bool(*b)),
                SchemaDialect::OpenApi30 => Err(
                    invalid_openapi(
                        location,
                        string_of("boolean schemas are not part of the OpenAPI 3.0 schema dialect"),
                    ),
                ),
            },
            JsonValue::Array(_) => Err(
                invalid_openapi(location, string_of("expected a schema, not an array of schemas")),
            ),
            _ => Err(invalid_openapi(location, string_of("expected a schema"))),
        }
    }

    /// Normalizes the keywords of a schema node, in order.
    #[verifier::loop_isolation(false)]
    pub fn normalize_keywords(&self, entries: &Vec<(String, JsonValue)>, location: &Location) -> (r:
        Result<Vec<(String, JsonValue)>, Error>)
        ensures
            entries_result_is(
                r,
                spec_normalize_keywords(self.dialect, self.names(), entries_view(entries@), location@),
            ),
        decreases entries, 0nat,
    {
        let ghost ev = entries_view(entries@);
        let ghost d = self.dialect;
        let ghost ns = self.names();
        let mut out: Vec<(String, JsonValue)> = Vec::new();
        let mut i: usize = 0;
        assert(ev.take(0) =~= Seq::<(Seq<char>, Json)>::empty());
        assert(entries_view(out@) =~= Seq::<(Seq<char>, Json)>::empty());
        while i < entries.len()
            invariant
                i <= entries.len(),
                ev == entries_view(entries@),
                spec_normalize_keywords(d, ns, ev.take(i as int), location@) == Ok::<
                    Seq<(Seq<char>, Json)>,
                    Failure,
                >(entries_view(out@)),
            decreases entries.len() - i,
        {
            assert(ev.take(i + 1).drop_last() =~= ev.take(i as int));
            assert(ev.take(i + 1).last() == ev[i as int]);
            proof {
                assert(decreases_to!(entries@ => entries@[i as int]));
            }
            let key = &entries[i].0;
            let value = &entries[i].1;
            let child = location.child(key.as_str());
            let kind = self.keyword_kind(key.as_str(), value);
            let v: JsonValue = match kind {
                KeywordKind::Schema => match self.normalize(value, &child) {
                    Ok(v) => v,
                    Err(e) => {
                        proof {
                            lemma_keywords_stop(d, ns, ev, location@, i + 1);
                        }
                        return Err(e);
                    },
                },
                KeywordKind::SchemaArray => match value {
                    JsonValue::Array(subs) => {
                        proof {
                            crate::json::lemma_array_view(*subs);
                        }
                        match self.normalize_items(subs, &child) {
                            Ok(vs) => {
                                proof {
                                    crate::json::lemma_array_view(vs);
                                }
                                JsonValue::Array(vs)
                            },
                            Err(e) => {
                                proof {
                                    lemma_keywords_stop(d, ns, ev, location@, i + 1);
                                }
                                return Err(e);
                            },
                        }
                    },
                    _ => json_clone(value),
                },
                KeywordKind::SchemaMap => match value {
                    JsonValue::Object(subs) => {
                        proof {
                            lemma_object_view(*subs);
                        }
                        match self.normalize_props(subs, &child) {
                            Ok(vs) => {
                                proof {
                                    lemma_object_view(vs);
                                }
                                JsonValue::Object(vs)
                            },
                            Err(e) => {
                                proof {
                                    lemma_keywords_stop(d, ns, ev, location@, i + 1);
                                }
                                return Err(e);
                            },
                        }
                    },
                    _ => json_clone(value),
                },
                KeywordKind::Ref => match self.check_ref(value, &child) {
                    Ok(()) => json_clone(value),
                    Err(e) => {
                        proof {
                            lemma_keywords_stop(d, ns, ev, location@, i + 1);
                        }
                        return Err(e);
                    },
                },
                KeywordKind::Unsupported => {
                    let e = invalid_openapi(&child, unsupported_keyword_reason(key.as_str()));
                    proof {
                        lemma_keywords_stop(d, ns, ev, location@, i + 1);
                    }
                    return Err(e);
                },
                KeywordKind::Other => json_clone(value),
            };
            obj_insert_key(&mut out, key.clone(), v);
            i = i + 1;
        }
        assert(ev.take(entries.len() as int) =~= ev);
        Ok(out)
    }

    /// Normalizes an array of subschemas, item by item.
    #[verifier::loop_isolation(false)]
    pub fn normalize_items(&self, items: &Vec<JsonValue>, location: &Location) -> (r: Result<
        Vec<JsonValue>,
        Error,
    >)
        ensures
            items_result_is(
                r,
                spec_normalize_items(
                    self.dialect,
                    self.names(),
                    crate::json::items_view(items@),
                    location@,
                ),
            ),
        decreases items, 0nat,
    {
        let ghost iv = crate::json::items_view(items@);
        let ghost d = self.dialect;
        let ghost ns = self.names();
        let mut out: Vec<JsonValue> = Vec::new();
        let mut i: usize = 0;
        assert(iv.take(0) =~= Seq::<Json>::empty());
        assert(crate::json::items_view(out@) =~= Seq::<Json>::empty());
        while i < items.len()
            invariant
                i <= items.len(),
                iv == crate::json::items_view(items@),
                spec_normalize_items(d, ns, iv.take(i as int), location@) == Ok::<
                    Seq<Json>,
                    Failure,
                >(crate::json::items_view(out@)),
            decreases items.len() - i,
        {
            assert(iv.take(i + 1).drop_last() =~= iv.take(i as int));
            assert(iv.take(i + 1).last() == iv[i as int]);
            proof {
                assert(decreases_to!(items@ => items@[i as int]));
            }
            let child = location.index(i);
            match self.normalize(&items[i], &child) {
                Ok(v) => {
                    let ghost before = crate::json::items_view(out@);
                    let ghost vv = v@;
                    out.push(v);
                    assert(crate::json::items_view(out@) =~= before.push(vv));
                },
                Err(e) => {
                    proof {
                        lemma_items_stop(d, ns, iv, location@, i + 1);
                    }
                    return Err(e);
                },
            }
            i = i + 1;
        }
        assert(iv.take(items.len() as int) =~= iv);
        Ok(out)
    }

    /// Normalizes an object of subschemas, entry by entry.
    #[verifier::loop_isolation(false)]
    pub fn normalize_props(&self, props: &Vec<(String, JsonValue)>, location: &Location) -> (r:
        Result<Vec<(String, JsonValue)>, Error>)
        ensures
            entries_result_is(
                r,
                spec_normalize_props(self.dialect, self.names(), entries_view(props@), location@),
            ),
        decreases props, 0nat,
    {
        let ghost ev = entries_view(props@);
        let ghost d = self.dialect;
        let ghost ns = self.names();
        let mut out: Vec<(String, JsonValue)> = Vec::new();
        let mut i: usize = 0;
        assert(ev.take(0) =~= Seq::<(Seq<char>, Json)>::empty());
        assert(entries_view(out@) =~= Seq::<(Seq<char>, Json)>::empty());
        while i < props.len()
            invariant
                i <= props.len(),
                ev == entries_view(props@),
                spec_normalize_props(d, ns, ev.take(i as int), location@) == Ok::<
                    Seq<(Seq<char>, Json)>,
                    Failure,
                >(entries_view(out@)),
            decreases props.len() - i,
        {
            assert(ev.take(i + 1).drop_last() =~= ev.take(i as int));
            assert(ev.take(i + 1).last() == ev[i as int]);
            proof {
                assert(decreases_to!(props@ => props@[i as int]));
            }
            let key = &props[i].0;
            let child = location.child(key.as_str());
            match self.normalize(&props[i].1, &child) {
                Ok(v) => {
                    obj_insert_key(&mut out, key.clone(), v);
                },
                Err(e) => {
                    proof {
                        lemma_props_stop(d, ns, ev, location@, i + 1);
                    }
                    return Err(e);
                },
            }
            i = i + 1;
        }
        assert(ev.take(props.len() as int) =~= ev);
        Ok(out)
    }
}

// ----------------------------------------------------------------------
// Documents
// ----------------------------------------------------------------------

/// Whether `uri` is a dialect known to be equivalent to JSON Schema 2020-12
/// for the keywords that are interpreted.
pub open spec fn is_known_2020_12_dialect(uri: Seq<char>) -> bool {
    uri == "https://spec.openapis.org/oas/3.1/dialect/base"@ || uri
        == "https://spec.openapis.org/oas/3.2/dialect/base"@ || uri
        == "https://json-schema.org/draft/2020-12/schema"@
}

/// The schema dialect of a document: that of its version, where OpenAPI 3.1
/// and later honor a known `jsonSchemaDialect` and refuse any other.
pub open spec fn spec_document_dialect(
    doc: Seq<(Seq<char>, Json)>,
    version: OpenApiVersion,
    pointer: Seq<char>,
) -> Result<SchemaDialect, Failure> {
    let d = spec_dialect(version);
    if d == SchemaDialect::OpenApi30 {
        Ok(d)
    } else {
        match obj_get(doc, "jsonSchemaDialect"@) {
            None => Ok(d),
            Some(Json::Str(uri)) => if is_known_2020_12_dialect(uri) {
                Ok(SchemaDialect::JsonSchema202012)
            } else {
                Err(
                    fail(
                        child_pointer(pointer, "jsonSchemaDialect"@),
                        "unsupported schema dialect \""@ + uri + "\""@,
                    ),
                )
            },
            Some(_) => Err(
                fail(child_pointer(pointer, "jsonSchemaDialect"@), "expected a dialect URI string"@),
            ),
        }
    }
}

/// The normalized component schemas, in order, up to the first failure,
/// and that failure if there is one.
pub open spec fn spec_normalize_components(
    d: SchemaDialect,
    names: Seq<Seq<char>>,
    schemas: Seq<(Seq<char>, Json)>,
    pointer: Seq<char>,
) -> (Seq<(Seq<char>, Json)>, Option<Failure>)
    decreases schemas.len(),
{
    if schemas.len() == 0 {
        (Seq::empty(), None)
    } else {
        let (done, failure) = spec_normalize_components(d, names, schemas.drop_last(), pointer);
        if failure is Some {
            (done, failure)
        } else {
            let name = schemas.last().0;
            match spec_normalize(d, names, schemas.last().1, child_pointer(pointer, name)) {
                Ok(v) => (done.push((name, v)), None),
                Err(f) => (done, Some(f)),
            }
        }
    }
}

/// The reason given for a Swagger 2.0 document.
pub open spec fn swagger_reason() -> Seq<char> {
    "Swagger 2.0 documents are not supported; convert the document to OpenAPI 3.x first"@
}

/// The version of a document: its `openapi` string, which must be present.
pub open spec fn spec_document_version(doc: Seq<(Seq<char>, Json)>) -> Result<OpenApiVersion, Failure> {
    match obj_get(doc, "openapi"@) {
        Some(Json::Str(v)) => spec_parse_version(v, child_pointer(Seq::empty(), "openapi"@)),
        Some(_) => Err(fail(child_pointer(Seq::empty(), "openapi"@), "expected a version string"@)),
        None => if obj_has(doc, "swagger"@) {
            Err(fail(Seq::empty(), swagger_reason()))
        } else {
            Err(fail(Seq::empty(), "not an OpenAPI document (missing the `openapi` field)"@))
        },
    }
}

/// The `components.schemas` object of a document, if it has one.
pub open spec fn spec_component_schemas(doc: Seq<(Seq<char>, Json)>) -> Option<Json> {
    match obj_get(doc, "components"@) {
        Some(Json::Object(c)) => obj_get(c, "schemas"@),
        _ => None,
    }
}

/// The extraction of the component schemas of an OpenAPI document: the
/// document must be an object with a supported version and dialect; its
/// `components.schemas` (if any) must be an object, whose schemas are
/// normalized in order, the names of its schemas being the only reference
/// targets.
pub open spec fn spec_extract_schemas(doc: Json) -> Result<
    (Seq<(Seq<char>, Json)>, Option<Failure>),
    Failure,
> {
    match doc {
        Json::Object(d) => match spec_document_version(d) {
            Err(f) => Err(f),
            Ok(version) => match spec_document_dialect(d, version, Seq::empty()) {
                Err(f) => Err(f),
                Ok(dialect) => match spec_component_schemas(d) {
                    None => Ok((Seq::empty(), None)),
                    Some(Json::Object(schemas)) => Ok(
                        spec_normalize_components(
                            dialect,
                            obj_keys(schemas),
                            schemas,
                            child_pointer(child_pointer(Seq::empty(), "components"@), "schemas"@),
                        ),
                    ),
                    Some(_) => Err(
                        fail(
                            child_pointer(child_pointer(Seq::empty(), "components"@), "schemas"@),
                            "expected an object"@,
                        ),
                    ),
                },
            },
        },
        _ => Err(fail(Seq::empty(), "document must be an object"@)),
    }
}

/// Determines the schema dialect of a document.
pub fn document_dialect(
    document: &Vec<(String, JsonValue)>,
    version: OpenApiVersion,
    root: &Location,
) -> (r: Result<SchemaDialect, Error>)
    ensures
        match (r, spec_document_dialect(entries_view(document@), version, root@)) {
            (Ok(a), Ok(b)) => a == b,
            (Err(e), Err(f)) => error_is(e, f),
            _ => false,
        },
{
    let dialect = version.dialect();
    if let SchemaDialect::OpenApi30 = dialect {
        return Ok(dialect);
    }
    match obj_get_ref(document, "jsonSchemaDialect") {
        None => Ok(dialect),
        Some(JsonValue::String(uri)) => {
            if is_str(uri.as_str(), "https://spec.openapis.org/oas/3.1/dialect/base") || is_str(
                uri.as_str(),
                "https://spec.openapis.org/oas/3.2/dialect/base",
            ) || is_str(uri.as_str(), "https://json-schema.org/draft/2020-12/schema") {
                Ok(SchemaDialect::JsonSchema202012)
            } else {
                let mut reason = string_of("unsupported schema dialect \"");
                push_str(&mut reason, uri.as_str());
                push_str(&mut reason, "\"");
                Err(invalid_openapi(&root.child("jsonSchemaDialect"), reason))
            }
        },
        Some(_) => Err(
            invalid_openapi(
                &root.child("jsonSchemaDialect"),
                string_of("expected a dialect URI string"),
            ),
        ),
    }
}

/// The component schemas of a document, normalized in order up to the
/// first failure. A caller converting each normalized schema further
/// reports its own failures for the schemas before `failure`, then
/// `failure`.
#[derive(Debug)]
pub struct ComponentSchemas {
    /// The normalized schemas, with their names.
    pub schemas: Vec<(String, JsonValue)>,
    /// The failure that stopped normalization, if any.
    pub failure: Option<Error>,
}

/// Whether extracted schemas agree with specified ones.
pub open spec fn components_are(c: ComponentSchemas, s: (Seq<(Seq<char>, Json)>, Option<Failure>)) -> bool {
    &&& entries_view(c.schemas@) == s.0
    &&& match (c.failure, s.1) {
        (None, None) => true,
        (Some(e), Some(f)) => error_is(e, f),
        _ => false,
    }
}

/// Extracts the component schemas of an OpenAPI document, normalized from
/// the dialect implied by its version (and `jsonSchemaDialect` field).
pub fn extract_schemas(document: &JsonValue) -> (r: Result<ComponentSchemas, Error>)
    ensures
        match (r, spec_extract_schemas(document@)) {
            (Ok(c), Ok(s)) => components_are(c, s),
            (Err(e), Err(f)) => error_is(e, f),
            _ => false,
        },
{
    let root = Location::root();
    let doc = match document {
        JsonValue::Object(d) => d,
        _ => {
            return Err(invalid_openapi(&root, string_of("document must be an object")));
        },
    };
    proof {
        lemma_object_view(*doc);
    }
    let version = match obj_get_ref(doc, "openapi") {
        Some(JsonValue::String(v)) => OpenApiVersion::parse(v.as_str(), &root.child("openapi"))?,
        Some(_) => {
            return Err(
                invalid_openapi(&root.child("openapi"), string_of("expected a version string")),
            );
        },
        None => {
            if find_key_exec(doc, "swagger").is_some() {
                return Err(
                    invalid_openapi(
                        &root,
                        string_of(
                            "Swagger 2.0 documents are not supported; convert the document to OpenAPI 3.x first",
                        ),
                    ),
                );
            }
            return Err(
                invalid_openapi(
                    &root,
                    string_of("not an OpenAPI document (missing the `openapi` field)"),
                ),
            );
        },
    };
    let dialect = document_dialect(doc, version, &root)?;
    let schemas_location = root.child("components").child("schemas");
    let components = match obj_get_ref(doc, "components") {
        Some(JsonValue::Object(c)) => {
            proof {
                lemma_object_view(*c);
            }
            obj_get_ref(c, "schemas")
        },
        _ => None,
    };
    let schemas = match components {
        None => {
            let empty: Vec<(String, JsonValue)> = Vec::new();
            assert(entries_view(empty@) =~= Seq::<(Seq<char>, Json)>::empty());
            return Ok(ComponentSchemas { schemas: empty, failure: None });
        },
        Some(JsonValue::Object(s)) => s,
        Some(_) => {
            return Err(invalid_openapi(&schemas_location, string_of("expected an object")));
        },
    };
    proof {
        lemma_object_view(*schemas);
    }
    let ghost sv = entries_view(schemas@);
    let mut names: Vec<String> = Vec::new();
    let mut j: usize = 0;
    while j < schemas.len()
        invariant
            j <= schemas.len(),
            sv == entries_view(schemas@),
            names@.map_values(|n: String| n@) == obj_keys(sv).take(j as int),
        decreases schemas.len() - j,
    {
        let ghost before = names@.map_values(|n: String| n@);
        names.push(schemas[j].0.clone());
        assert(names@.map_values(|n: String| n@) =~= before.push(sv[j as int].0));
        assert(obj_keys(sv).take(j + 1) =~= obj_keys(sv).take(j as int).push(sv[j as int].0));
        j = j + 1;
    }
    assert(obj_keys(sv).take(schemas.len() as int) =~= obj_keys(sv));
    let normalizer = Normalizer { dialect, schema_names: names };
    Ok(normalizer.normalize_components(schemas, &schemas_location))
}

impl Normalizer {
    /// Normalizes named schemas in order, stopping at the first failure.
    pub fn normalize_components(&self, schemas: &Vec<(String, JsonValue)>, location: &Location) -> (r:
        ComponentSchemas)
        ensures
            components_are(
                r,
                spec_normalize_components(self.dialect, self.names(), entries_view(schemas@), location@),
            ),
    {
        let ghost sv = entries_view(schemas@);
        let ghost ns = self.names();
        let ghost d = self.dialect;
        let mut out: Vec<(String, JsonValue)> = Vec::new();
        let mut i: usize = 0;
        assert(sv.take(0) =~= Seq::<(Seq<char>, Json)>::empty());
        assert(entries_view(out@) =~= Seq::<(Seq<char>, Json)>::empty());
        while i < schemas.len()
            invariant
                i <= schemas.len(),
                sv == entries_view(schemas@),
                ns == self.names(),
                d == self.dialect,
                spec_normalize_components(d, ns, sv.take(i as int), location@) == (
                    entries_view(out@),
                    None::<Failure>,
                ),
            decreases schemas.len() - i,
        {
            assert(sv.take(i + 1).drop_last() =~= sv.take(i as int));
            assert(sv.take(i + 1).last() == sv[i as int]);
            let name = &schemas[i].0;
            let child = location.child(name.as_str());
            let ghost spec_r = spec_normalize(d, ns, sv[i as int].1, child@);
            match self.normalize(&schemas[i].1, &child) {
                Ok(v) => {
                    let ghost before = entries_view(out@);
                    let ghost entry = (name@, v@);
                    out.push((name.clone(), v));
                    assert(entries_view(out@) =~= before.push(entry));
                },
                Err(e) => {
                    proof {
                        let t = sv.take(i + 1);
                        assert(spec_normalize_components(d, ns, t, location@) == (
                            entries_view(out@),
                            Some(spec_r->Err_0),
                        ));
                        lemma_components_stop(d, ns, sv, location@, i + 1);
                    }
                    return ComponentSchemas { schemas: out, failure: Some(e) };
                },
            }
            i = i + 1;
        }
        assert(sv.take(schemas.len() as int) =~= sv);
        ComponentSchemas { schemas: out, failure: None }
    }
}

proof fn lemma_components_stop(
    d: SchemaDialect,
    names: Seq<Seq<char>>,
    e: Seq<(Seq<char>, Json)>,
    pointer: Seq<char>,
    i: int,
)
    requires
        0 <= i <= e.len(),
        spec_normalize_components(d, names, e.take(i), pointer).1 is Some,
    ensures
        spec_normalize_components(d, names, e, pointer) == spec_normalize_components(
            d,
            names,
            e.take(i),
            pointer,
        ),
    decreases e.len(),
{
    if i == e.len() {
        assert(e.take(i) =~= e);
    } else {
        assert(e.drop_last().take(i) =~= e.take(i));
        lemma_components_stop(d, names, e.drop_last(), pointer, i);
    }
}


/// Normalization is structural: the properties of an object of
/// subschemas keep their names, in order, whatever those names are (a
/// property called `nullable` is data, not a keyword).
pub proof fn law_normalize_props_keeps_names(
    d: SchemaDialect,
    names: Seq<Seq<char>>,
    props: Seq<(Seq<char>, Json)>,
    pointer: Seq<char>,
)
    requires
        keys_unique(props),
        spec_normalize_props(d, names, props, pointer) is Ok,
    ensures
        obj_keys(spec_normalize_props(d, names, props, pointer)->Ok_0) == obj_keys(props),
    decreases props.len(),
{
    if props.len() > 0 {
        let p = props.drop_last();
        assert(keys_unique(p));
        law_normalize_props_keeps_names(d, names, p, pointer);
        let prev = spec_normalize_props(d, names, p, pointer)->Ok_0;
        let key = props.last().0;
        assert(obj_keys(prev).len() == prev.len());
        assert(obj_keys(p).len() == p.len());
        assert forall|j: int| 0 <= j < prev.len() implies prev[j].0 != key by {
            assert(obj_keys(prev)[j] == obj_keys(p)[j]);
            assert(p[j].0 == props[j].0);
            assert(props[j].0 != props[props.len() - 1].0);
        }
        lemma_key_index(prev, key);
        let out = spec_normalize_props(d, names, props, pointer)->Ok_0;
        let v = spec_normalize(d, names, props.last().1, child_pointer(pointer, key))->Ok_0;
        assert(out == prev.push((key, v)));
        assert forall|j: int| 0 <= j < out.len() implies obj_keys(out)[j] == obj_keys(props)[j] by {
            if j < prev.len() {
                assert(obj_keys(prev)[j] == obj_keys(p)[j]);
            }
        }
        assert(obj_keys(out) =~= obj_keys(props));
    }
}

/// `s` with each `~` written `~0`.
pub open spec fn tilde_escaped(s: Seq<char>) -> Seq<char>
    decreases s.len(),
{
    if s.len() == 0 {
        s
    } else {
        (if s[0] == '~' {
            seq!['~', '0']
        } else {
            seq![s[0]]
        }) + tilde_escaped(s.drop_first())
    }
}

proof fn lemma_escape_front(s: Seq<char>)
    requires
        s.len() > 0,
    ensures
        escape_token(s) == escape_char(s[0]) + escape_token(s.drop_first()),
    decreases s.len(),
{
    if s.len() == 1 {
        assert(s.drop_first() =~= Seq::<char>::empty());
        assert(s.drop_last() =~= Seq::<char>::empty());
        assert(escape_token(s) =~= escape_char(s[0]));
    } else {
        lemma_escape_front(s.drop_last());
        assert(s.drop_last().drop_first() =~= s.drop_first().drop_last());
        assert(s.drop_first().last() == s.last());
        assert(escape_token(s) =~= escape_char(s[0]) + escape_token(s.drop_first()));
    }
}

proof fn lemma_replace_keep(c: char, t: Seq<char>, a: char, b: char, r: char)
    requires
        c != a,
    ensures
        replace_pair(seq![c] + t, a, b, r) == seq![c] + replace_pair(t, a, b, r),
{
    let s = seq![c] + t;
    assert(s.skip(1) =~= t);
    if s.len() < 2 {
        assert(t.len() == 0);
        assert(replace_pair(t, a, b, r) == t);
        assert(s =~= seq![c] + t);
    }
}

proof fn lemma_replace_pair_hit(x: char, y: char, t: Seq<char>, r: char)
    ensures
        replace_pair(seq![x, y] + t, x, y, r) == seq![r] + replace_pair(t, x, y, r),
{
    let s = seq![x, y] + t;
    assert(s.skip(2) =~= t);
}

proof fn lemma_unescape_slashes(s: Seq<char>)
    ensures
        replace_pair(escape_token(s), '~', '1', '/') == tilde_escaped(s),
    decreases s.len(),
{
    if s.len() == 0 {
        assert(escape_token(s) =~= Seq::<char>::empty());
    } else {
        lemma_escape_front(s);
        lemma_unescape_slashes(s.drop_first());
        let e = escape_token(s.drop_first());
        if s[0] == '~' {
            assert(escape_char(s[0]) + e =~= seq!['~'] + (seq!['0'] + e));
            lemma_replace_keep('0', e, '~', '1', '/');
            assert(replace_pair(seq!['~'] + (seq!['0'] + e), '~', '1', '/') == seq!['~'] + replace_pair(seq!['0'] + e, '~', '1', '/')) by {
                let w = seq!['~'] + (seq!['0'] + e);
                assert(w.skip(1) =~= seq!['0'] + e);
                if w.len() >= 2 {
                    assert(w[1] == '0');
                }
            }
            assert(tilde_escaped(s) =~= seq!['~', '0'] + tilde_escaped(s.drop_first()));
            assert(replace_pair(escape_token(s), '~', '1', '/') =~= tilde_escaped(s));
        } else if s[0] == '/' {
            assert(escape_char(s[0]) + e =~= seq!['~', '1'] + e);
            lemma_replace_pair_hit('~', '1', e, '/');
            assert(replace_pair(escape_token(s), '~', '1', '/') =~= tilde_escaped(s));
        } else {
            assert(escape_char(s[0]) + e =~= seq![s[0]] + e);
            lemma_replace_keep(s[0], e, '~', '1', '/');
            assert(replace_pair(escape_token(s), '~', '1', '/') =~= tilde_escaped(s));
        }
    }
}

proof fn lemma_unescape_tildes(s: Seq<char>)
    ensures
        replace_pair(tilde_escaped(s), '~', '0', '~') == s,
    decreases s.len(),
{
    if s.len() > 0 {
        lemma_unescape_tildes(s.drop_first());
        let t = tilde_escaped(s.drop_first());
        if s[0] == '~' {
            lemma_replace_pair_hit('~', '0', t, '~');
        } else {
            lemma_replace_keep(s[0], t, '~', '0', '~');
        }
        assert(s =~= seq![s[0]] + s.drop_first());
    }
}

proof fn lemma_escape_has_no_slash(s: Seq<char>)
    ensures
        !has_char(escape_token(s), '/'),
    decreases s.len(),
{
    if s.len() > 0 {
        lemma_escape_has_no_slash(s.drop_last());
        let a = escape_token(s.drop_last());
        let b = escape_char(s.last());
        assert forall|i: int| 0 <= i < (a + b).len() implies (a + b)[i] != '/' by {
            if i < a.len() {
                assert((a + b)[i] == a[i]);
            }
        }
    }
}

/// Unescaping a reference token gives back what was escaped: `~1` read as
/// `/`, then `~0` as `~` (RFC 6901).
pub proof fn law_unescape_escape(s: Seq<char>)
    ensures
        replace_pair(replace_pair(escape_token(s), '~', '1', '/'), '~', '0', '~') == s,
{
    lemma_unescape_slashes(s);
    lemma_unescape_tildes(s);
}

/// A reference to a component schema by its name, escaped as a JSON
/// pointer token, is always valid, whatever characters the name holds.
pub proof fn law_escaped_ref_is_valid(names: Seq<Seq<char>>, name: Seq<char>, pointer: Seq<char>)
    requires
        names.contains(name),
    ensures
        spec_check_ref(names, Json::Str(schemas_ref_prefix() + escape_token(name)), pointer) is None,
{
    let prefix = schemas_ref_prefix();
    let reference = prefix + escape_token(name);
    assert(reference.take(prefix.len() as int) =~= prefix);
    assert(reference.skip(prefix.len() as int) =~= escape_token(name));
    lemma_escape_has_no_slash(name);
    law_unescape_escape(name);
}

proof fn lemma_items_all_ok(d: SchemaDialect, names: Seq<Seq<char>>, subs: Seq<Json>, pointer: Seq<char>)
    requires
        forall|i: int| 0 <= i < subs.len() ==> (#[trigger] spec_normalize(d, names, subs[i], index_pointer(pointer, i as nat))) is Ok,
    ensures
        spec_normalize_items(d, names, subs, pointer) is Ok,
        spec_normalize_items(d, names, subs, pointer)->Ok_0 =~= Seq::new(subs.len(), |i: int| spec_normalize(d, names, subs[i],
            index_pointer(pointer, i as nat))->Ok_0),
    decreases subs.len(),
{
    if subs.len() > 0 {
        let init = subs.drop_last();
        assert forall|i: int| 0 <= i < init.len() implies (#[trigger] spec_normalize(d, names, init[i], index_pointer(pointer,
            i as nat))) is Ok by {
            assert(init[i] == subs[i]);
        }
        lemma_items_all_ok(d, names, init, pointer);
        let last = spec_normalize(d, names, subs.last(), index_pointer(pointer, (subs.len() - 1) as nat));
        assert(last is Ok);
        let prev = spec_normalize_items(d, names, init, pointer)->Ok_0;
        assert(spec_normalize_items(d, names, subs, pointer) == Ok::<Seq<Json>, Failure>(prev.push(last->Ok_0)));
        assert(Seq::new(init.len(), |i: int| spec_normalize(d, names, init[i], index_pointer(pointer, i as nat))->Ok_0).push(
            last->Ok_0) =~= Seq::new(subs.len(), |i: int| spec_normalize(d, names, subs[i], index_pointer(pointer, i as nat))->Ok_0));
    }
}

proof fn lemma_items_fail(d: SchemaDialect, names: Seq<Seq<char>>, subs: Seq<Json>, pointer: Seq<char>, k: int)
    requires
        0 <= k < subs.len(),
        spec_normalize(d, names, subs[k], index_pointer(pointer, k as nat)) is Err,
    ensures
        spec_normalize_items(d, names, subs, pointer) is Err,
    decreases subs.len(),
{
    if k < subs.len() - 1 {
        assert(subs.drop_last()[k] == subs[k]);
        lemma_items_fail(d, names, subs.drop_last(), pointer, k);
    }
}

/// The subschemas of `allOf`, `anyOf` and `oneOf` are normalized alike, in
/// both dialects: a schema node holding such a keyword with subschemas
/// `s1..sn` keeps the keyword with `normalize(s1)..normalize(sn)`, each at
/// its own index below the keyword; if any of them fails, the node fails.
pub proof fn law_combinator_subschemas_normalized(
    d: SchemaDialect,
    names: Seq<Seq<char>>,
    key: Seq<char>,
    subs: Seq<Json>,
    pointer: Seq<char>,
)
    requires
        key == "allOf"@ || key == "anyOf"@ || key == "oneOf"@,
    ensures
        (forall|i: int| 0 <= i < subs.len() ==> (#[trigger] spec_normalize(d, names, subs[i], index_pointer(child_pointer(pointer,
            key), i as nat))) is Ok) ==> spec_normalize_keywords(d, names, seq![(key, Json::Array(subs))], pointer) is Ok
            && spec_normalize_keywords(d, names, seq![(key, Json::Array(subs))], pointer)->Ok_0 == seq![(key, Json::Array(Seq::new(
            subs.len(), |i: int| spec_normalize(d, names, subs[i], index_pointer(child_pointer(pointer, key), i as nat))->Ok_0)))],
        (exists|i: int| 0 <= i < subs.len() && (#[trigger] spec_normalize(d, names, subs[i], index_pointer(child_pointer(pointer,
            key), i as nat))) is Err) ==> spec_normalize_keywords(d, names, seq![(key, Json::Array(subs))], pointer) is Err,
{
    reveal_strlit("allOf");
    reveal_strlit("anyOf");
    reveal_strlit("oneOf");
    reveal_strlit("$ref");
    reveal_strlit("properties");
    reveal_strlit("$defs");
    reveal_strlit("definitions");
    reveal_strlit("$id");
    reveal_strlit("$anchor");
    reveal_strlit("$dynamicAnchor");
    reveal_strlit("$dynamicRef");
    reveal_strlit("$schema");
    let entries = seq![(key, Json::Array(subs))];
    let child = child_pointer(pointer, key);
    assert(entries.drop_last() =~= Seq::<(Seq<char>, Json)>::empty());
    assert(spec_keyword_kind(d, key, Json::Array(subs)) == KeywordKind::SchemaArray);
    assert(crate::json::key_index(Seq::<(Seq<char>, Json)>::empty(), key) is None);
    if forall|i: int| 0 <= i < subs.len() ==> (#[trigger] spec_normalize(d, names, subs[i], index_pointer(child, i as nat))) is Ok {
        lemma_items_all_ok(d, names, subs, child);
        let v = Seq::new(subs.len(), |i: int| spec_normalize(d, names, subs[i], index_pointer(child, i as nat))->Ok_0);
        assert(spec_normalize_items(d, names, subs, child)->Ok_0 == v);
        assert(spec_normalize_keywords(d, names, entries.drop_last(), pointer) == Ok::<Seq<(Seq<char>, Json)>, Failure>(
            Seq::empty()));
        assert(entries.last().0 == key && entries.last().1 == Json::Array(subs));
        assert(spec_normalize_keywords(d, names, entries, pointer) == Ok::<Seq<(Seq<char>, Json)>, Failure>(obj_insert(
            Seq::empty(), key, Json::Array(v))));
        assert(obj_insert(Seq::empty(), key, Json::Array(Seq::new(subs.len(), |i: int| spec_normalize(d, names, subs[i],
            index_pointer(child, i as nat))->Ok_0))) =~= seq![(key, Json::Array(Seq::new(subs.len(), |i: int| spec_normalize(d,
            names, subs[i], index_pointer(child, i as nat))->Ok_0)))]);
    }
    if exists|i: int| 0 <= i < subs.len() && (#[trigger] spec_normalize(d, names, subs[i], index_pointer(child, i as nat))) is Err {
        let k = choose|i: int| 0 <= i < subs.len() && (#[trigger] spec_normalize(d, names, subs[i], index_pointer(child, i as nat)))
            is Err;
        lemma_items_fail(d, names, subs, child, k);
    }
}

} // verus!
