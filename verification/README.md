# foundations_settings

The expansion of the `settings` attribute, with its behaviour stated in contracts and proved by Verus.

The attribute turns a structure or an enum into settings: it derives `serde` impls, gives every field
a default, and implements the `Settings` trait, whose `add_docs` hands out the doc comments of the
fields and variants.

- `src/` is the verified library. `expand::expand` goes from the tokens of the attribute's arguments
  and of the item to the tokens that take their place.
- `src/laws.rs` and `src/spans.rs` state what holds of every expansion.
- `src/token.rs`, `src/parse.rs` and `src/error.rs` hold the trusted contracts of `proc-macro2`,
  `quote`, `syn` and `darling`; `src/variant.rs` holds three of `std`.
- `tests/` run the library on source code.
- `app/` is the entry point that a compiler calls.
