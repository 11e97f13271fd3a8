# typify

Conversion of JSON Schema and OpenAPI documents into Rust type definitions.
The library decides what each generated item holds and writes its Rust
text; the caller supplies what comes from a schema value (default and
listed values as expressions, variant declarations, field attributes).
The library does not itself turn a schema into type entries, render
schema values as Rust expressions, or produce the output of a whole type
space in one call: it works on the entries of a type space as given, and the
caller assembles the items and modules from the functions below.
The library is written in Verus. Its functions carry contracts that the
verifier proves, except a few small trusted wrappers around outside calls
(`semver`, `syn`, `unicode-ident`, and some of `std`), whose contracts are assumed and whose
doc comments say what they claim.

## Layout

- `src/lib.rs` — type ids, names, errors, trait-implementation names, type
  kinds and kind filters.
- `src/json.rs` — a JSON value model with its mathematical view, and the
  object operations used by the rest of the library.
- `src/strings.rs` — string and character-sequence helpers.
- `src/openapi.rs` — OpenAPI version and dialect detection, JSON pointers,
  and the normalization of component schemas to JSON Schema 2020-12.
- `src/conversions.rs` — the schema-to-type conversion cache: subset
  matching of schema keywords, metadata ignored, the most specific match
  winning.
- `src/settings.rs` — generation settings, patches, replacements and their
  builders.
- `src/type_entry.rs` — the entries of a type space, and the naming of enum
  variants.
- `src/space.rs` — the type space: id assignment, lookups, trait
  implementation queries, type views.
- `src/ident.rs` — type expressions and parameter types of entries.
- `src/attrs.rs` — derive and attribute lists, deep-patch decisions.
- `src/emit.rs` — what the item generated for an enum, struct or newtype
  holds: derives, serde options, `Default` impls, optional impls, doc
  strings.
- `src/output.rs` — the Rust text of generated items: attribute blocks, and
  the newtype item with its proxying, validating and convenience impls.
- `src/enum_impls.rs` — the Rust text of a generated enum: its attribute
  block and serde options, the catch-all variant of an opened string enum,
  its string conversions, `Default`, untagged parsing and display, the
  `From` impls of its variants, and the shared error module.
- `src/struct_output.rs` — the Rust text of a generated struct: its field
  declarations, its `Default` impl and its builder.
- `src/partition.rs` — partitioned output: which module each generated type
  goes to, the module tree of the `/`-separated module paths in use (each
  node with its preamble and types; only leaves get the `error` and
  `defaults` submodules), and its nested text.
- `src/module_tree.rs` — module paths as segments, their order, and the set
  of paths with all their ancestors.
- `src/cli.rs` — crate specifiers, kind filters, and the settings selected
  by command-line and macro options.
- `app/` — plain Rust around the library: JSON and schema values in and
  out, error types, tokens, the command-line front end and its I/O.
- `tests/` — tests of the library.

Public proof functions named `law_*` state properties that hold across
functions or for all inputs.
