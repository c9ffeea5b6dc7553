# roas

Rust OpenAPI Specification: a model of OpenAPI 3.0 and 3.1 documents and the
rules that validate them, written in Verus. Every function of the library has
a contract, and Verus proves each body against it.

## What is verified

- `src/common/`: what both versions share. The validation pass
  (`context.rs`: the errors reported so far and the markers visited, with the
  `ValidateWithContext` trait whose `checks` relation states what each
  object's check does to a pass), required strings and URLs, the keys of an
  object (`keys.rs`), security requirements, parameter uniqueness, path
  templates, JSON pointers and the component sections (`sections.rs`: each
  entry is reported unused exactly when nothing visited it before its own
  check and the section's `IgnoreUnused...` switch is off, and is reported
  when its name is not a valid component name).
- `src/v3_0/`: the 3.0 objects and `Spec::validate`, which collects every
  diagnostic of one pass over a document (info, servers, operation ids,
  security, path templates, paths and operations with their tags,
  parameters and request bodies, components, external documentation, tag
  groups, tags) and states that list in `document_reports`.
- `src/v3_1/`: the 3.1 objects, the 3.1 `Spec::validate` (`document_reports`
  there), path items with their operations (tags, parameters, responses,
  security) and servers, and the upgrade of a 3.0 document to 3.1
  (`from_v3_0.rs`).

The maps of a document are lists of `(key, value)` entries; a document's
`well_formed` says that each lists its keys in strictly increasing order, and
the `define_*` operations keep that.

Regular expressions are matched by the `regex` crate; each call sits behind a
small trusted wrapper (`src/common/patterns.rs`) whose contract names what the
crate computes.

## Layout

- `src/`: the verified library.
- `tests/`: tests of the library, run against the real outside crates.
- `app/`: the serde layer (JSON reading, the `Options` set, error display),
  which is ordinary Rust around the library.
