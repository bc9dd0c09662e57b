# enuminfo_macros (verified core)

The decisions of the `enuminfo` derive macros (`EnumIs`, `EnumName`,
`EnumFromName`, `EnumVariants`, and the enum-name helper) written in Verus:
how `#[enuminfo(...)]` entries are read, how a variant's public name is
resolved from `rename` and `rename_all`, which variants are kept, and when an
input is refused (not an enum, a refused attribute entry, a variant with
fields, two variants with one name).

- `src/rename_case.rs`: the casing conventions; the case conversions
  themselves are those of `heck` and of `str::to_lowercase`/`to_uppercase`.
- `src/model.rs`: the derive input and the errors as plain values.
- `src/attrs.rs`: reading attribute entries and resolving names.
- `src/enum_*.rs`: one module per derive, each with a specification of its
  whole outcome and the verified function that computes it.
- `src/listing.rs`, `src/laws.rs`: what the kept-variant lists mean, and the
  properties proved across derives (lookups find every kept variant by its
  name and identifier, never an ignored one; names are unique; unknown
  casings leave names unchanged).
- `app/lib.rs`: the `syn`/`quote` glue that reads a `DeriveInput` into the
  plain input and writes the generated code.
