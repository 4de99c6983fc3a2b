# smithy4rs_core

Core of a Smithy data model library: shape ids, schemas and their traits, documents,
validation of shapes against the built-in constraint traits, text formatting that
respects `@sensitive`, and the conversion between shapes and documents. The functions
of `src/` carry contracts that Verus checks; the few calls into `regex`, `bigdecimal`
and std stand behind small trusted wrappers whose contracts are stated, not proved.
Serde adapters, fuzzing support and schemas that refer to themselves are not part of
this library.

Layout:

- `src/shapes.rs`, `src/schema.rs`, `src/traits.rs`, `src/prelude.rs`, `src/api.rs`:
  shape ids, schemas and schema builders, trait maps, the prelude traits and the
  generated trait definitions.
- `src/documents.rs`, `src/conversion.rs`: documents, their accessors and equality, and
  the conversion of shapes to documents and back.
- `src/values.rs`: the value tree a schema-guided serializer writes (`ShapeValue`).
- `src/validation.rs`: the default validator and its error types.
- `src/fmt.rs`: formatting of shapes as text.
- `src/numbers.rs`, `src/text.rs`, `src/refs.rs`: decimals, timestamps, integer text,
  string helpers and shared references.
- `src/adapters.rs`, `src/builders.rs`, `src/correction.rs`, `src/assertions.rs`:
  naming and reading decisions of format adapters, builder helpers, error correction
  defaults and member-name checks.
- `app/lib.rs`: conversions to and from the types of the outside crates (big numbers,
  instants, byte buffers, ordered maps, floats), error display, and `Debug` rendering.
- `tests/`: the tests of the library.
