# builder_seq

The decision logic of two procedural macros, verified with Verus.

- `#[derive(Builder)]`: for a struct `T` with named fields, the library
  reads the fields, their types and their `#[builder(each = "...")]`
  attributes, and plans `TBuilder`, `T::builder()`, the setters, the `each`
  methods and `build()` (`src/derive_input.rs`, `src/derive_plan.rs`).
  `src/command.rs` is the builder that the derive gives for a `Command`
  struct, written out by hand.
- `seq!(N in START..END { ... })`: the library parses the input, finds the
  `#( ... )*` sections, and repeats the body or its sections over the range,
  replacing `N` and pasting `x~N` (`src/tokens.rs`, `src/expansion.rs`,
  `src/seq_input.rs`).

`app/` reads the compiler's tokens into the library's model, and writes the
library's results back as tokens with `quote!`.
