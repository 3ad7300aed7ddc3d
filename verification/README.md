# ignis

Parts of the Ignis compiler, written in Verus and proved against their
contracts.

- `src/token.rs` — token kinds, spans and tokens.
- `src/data_type.rs` — the language's types and how diagnostics write them.
- `src/ast.rs` — the syntax tree and the `Visitor` trait.
- `src/environment.rs` — the evaluator's chain of scopes: `define`, `get`
  and `assign`, modelled as a sequence of maps, with the scoping laws.
- `src/ir.rs`, `src/to_lua.rs` — the intermediate representation and its
  translation to Lua, specified by a recursive definition of the output.
- `src/text.rs` — decimal numerals, indentation, trimming, searching.
- `src/driver.rs` — the driver's pure parts: output paths, diagnostic lines,
  the interactive prompt's decisions.
- `app/` — the `ignisc` program: command line (clap), files, printing and
  the external C compiler.
