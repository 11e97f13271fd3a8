//! typify: conversion of JSON Schema and OpenAPI documents into Rust type
//! definitions, with a verified core.

use vstd::prelude::*;

pub mod attrs;
pub mod cli;
pub mod conversions;
pub mod emit;
pub mod enum_impls;
pub mod ident;
pub mod json;
pub mod module_tree;
pub mod openapi;
pub mod output;
pub mod partition;
pub mod settings;
pub mod space;
pub mod strings;
pub mod struct_output;
pub mod type_entry;

use crate::json::JsonValue;
use crate::strings::{push_str, string_of, is_str};

verus! {

/// Errors from type generation.
#[derive(Debug)]
pub enum Error {
    /// A value had an unexpected type.
    BadValue(String, JsonValue),
    /// A `TypeId` does not name a type of the type space.
    InvalidTypeId,
    /// A value does not conform to the given schema.
    InvalidValue,
    /// A schema cannot be converted into a type.
    InvalidSchema { schema_type_name: Option<String>, reason: String },
    /// An OpenAPI document is malformed or uses unsupported constructs;
    /// `location` is a JSON pointer into the document prefixed with `#`.
    InvalidOpenApi { location: String, reason: String },
}

impl Error {
    /// The error for a value that does not conform to its schema.
    pub fn invalid_value() -> (e: Self)
        ensures
            e is InvalidValue,
    {
        Error::InvalidValue
    }
}

/// The name shown for a type that may be unnamed.
pub open spec fn spec_show_type_name(name: Option<Seq<char>>) -> Seq<char> {
    match name {
        Some(n) => n,
        None => "<unknown type>"@,
    }
}

/// The given type name, or `<unknown type>` where there is none.
pub fn show_type_name<'a>(name: Option<&'a str>) -> (r: &'a str)
    ensures
        r@ == spec_show_type_name(
            match name {
                Some(n) => Some(n@),
                None => None,
            },
        ),
{
    match name {
        Some(n) => n,
        None => "<unknown type>",
    }
}

/// Type identifier returned from type creation and used to look up types.
#[derive(Clone, Copy, Debug, PartialEq, Eq, Structural, PartialOrd, Ord, Hash)]
pub struct TypeId(pub u64);

/// A type name: one that must be used, one that may be changed, or none.
#[derive(Debug)]
pub enum Name {
    Required(String),
    Suggested(String),
    Unknown,
}

impl Name {
    /// The name, if there is one.
    pub fn into_option(self) -> (r: Option<String>)
        ensures
            r == match self {
                Name::Required(s) => Some(s),
                Name::Suggested(s) => Some(s),
                Name::Unknown => None::<String>,
            },
    {
        match self {
            Name::Required(s) => Some(s),
            Name::Suggested(s) => Some(s),
            Name::Unknown => None,
        }
    }

    /// A suggested name made of this name, `_` and `s`; no name stays no
    /// name.
    pub fn append(&self, s: &str) -> (r: Self)
        ensures
            match *self {
                Name::Required(p) => r matches Name::Suggested(n) && n@ == p@ + "_"@ + s@,
                Name::Suggested(p) => r matches Name::Suggested(n) && n@ == p@ + "_"@ + s@,
                Name::Unknown => r is Unknown,
            },
    {
        match self {
            Name::Required(prefix) | Name::Suggested(prefix) => {
                let mut n = string_of(prefix.as_str());
                push_str(&mut n, "_");
                push_str(&mut n, s);
                Name::Suggested(n)
            },
            Name::Unknown => Name::Unknown,
        }
    }
}

/// A trait implementation that a generated type may have.
#[derive(Debug, Copy, Clone, PartialEq, Eq, Structural, PartialOrd, Ord, Hash)]
#[non_exhaustive]
pub enum TypeSpaceImpl {
    FromStr,
    FromStringIrrefutable,
    Display,
    Default,
}

impl TypeSpaceImpl {
    /// Parses a trait specifier: `FromStr`, `Display` or `Default`.
    pub fn parse(s: &str) -> (r: Result<Self, String>)
        ensures
            s@ == "FromStr"@ ==> r == Ok::<Self, String>(TypeSpaceImpl::FromStr),
            s@ == "Display"@ ==> r == Ok::<Self, String>(TypeSpaceImpl::Display),
            s@ == "Default"@ ==> r == Ok::<Self, String>(TypeSpaceImpl::Default),
            s@ != "FromStr"@ && s@ != "Display"@ && s@ != "Default"@ ==> (r matches Err(m) && m@
                == s@ + " is not a valid trait specifier"@),
    {
        proof {
            reveal_strlit("FromStr");
            reveal_strlit("Display");
            reveal_strlit("Default");
            assert("Display"@[0] != "FromStr"@[0]);
            assert("Default"@[0] != "FromStr"@[0]);
            assert("Default"@[2] != "Display"@[2]);
        }
        if is_str(s, "FromStr") {
            Ok(TypeSpaceImpl::FromStr)
        } else if is_str(s, "Display") {
            Ok(TypeSpaceImpl::Display)
        } else if is_str(s, "Default") {
            Ok(TypeSpaceImpl::Default)
        } else {
            let mut m = string_of(s);
            push_str(&mut m, " is not a valid trait specifier");
            Err(m)
        }
    }
}

impl std::str::FromStr for TypeSpaceImpl {
    type Err = String;

    fn from_str(s: &str) -> (r: Result<Self, String>)
        ensures
            s@ == "FromStr"@ ==> r == Ok::<Self, String>(TypeSpaceImpl::FromStr),
            s@ == "Display"@ ==> r == Ok::<Self, String>(TypeSpaceImpl::Display),
            s@ == "Default"@ ==> r == Ok::<Self, String>(TypeSpaceImpl::Default),
            s@ != "FromStr"@ && s@ != "Display"@ && s@ != "Default"@ ==> (r matches Err(m) && m@
                == s@ + " is not a valid trait specifier"@),
    {
        TypeSpaceImpl::parse(s)
    }
}

/// The category of a generated type.
#[derive(Debug, Clone, Copy, PartialEq, Eq, Structural)]
pub enum TypeKind {
    Struct,
    Enum,
    Newtype,
}

/// Selector for the generated type categories a derive or attribute applies
/// to.
#[derive(Debug, Default, Clone, Copy, PartialEq, Eq, Structural)]
pub struct TypeKindFilter {
    /// Apply to generated structs.
    pub structs: bool,
    /// Apply to generated enums.
    pub enums: bool,
    /// Apply to generated newtypes.
    pub newtypes: bool,
}

impl TypeKindFilter {
    /// Apply to all categories.
    pub fn all() -> (r: Self)
        ensures
            r.structs && r.enums && r.newtypes,
    {
        TypeKindFilter { structs: true, enums: true, newtypes: true }
    }

    /// Apply only to structs.
    pub fn structs_only() -> (r: Self)
        ensures
            r.structs && !r.enums && !r.newtypes,
    {
        TypeKindFilter { structs: true, enums: false, newtypes: false }
    }

    /// Apply only to enums.
    pub fn enums_only() -> (r: Self)
        ensures
            !r.structs && r.enums && !r.newtypes,
    {
        TypeKindFilter { structs: false, enums: true, newtypes: false }
    }

    /// Apply only to newtypes.
    pub fn newtypes_only() -> (r: Self)
        ensures
            !r.structs && !r.enums && r.newtypes,
    {
        TypeKindFilter { structs: false, enums: false, newtypes: true }
    }

    /// Whether this filter selects the category `kind`.
    pub open spec fn selects(self, kind: TypeKind) -> bool {
        match kind {
            TypeKind::Struct => self.structs,
            TypeKind::Enum => self.enums,
            TypeKind::Newtype => self.newtypes,
        }
    }

    /// `true` if this filter targets the given [`TypeKind`].
    pub fn matches(&self, kind: TypeKind) -> (r: bool)
        ensures
            r == self.selects(kind),
    {
        match kind {
            TypeKind::Struct => self.structs,
            TypeKind::Enum => self.enums,
            TypeKind::Newtype => self.newtypes,
        }
    }
}

} // verus!
