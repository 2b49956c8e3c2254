# figtree

A layered runtime configuration library, written in Verus. Every key is a
`Fig` with a fixed type, a default, a rule and a history; a `Tree` resolves
each key from its sources in a fixed order (flags, environment, files in
registration order, the default), runs validators and callbacks, and reports
changes as `Mutation`s.

Layout:

- `src/` — the verified library. `tree.rs` holds the `Tree`, `fig.rs` the
  `Fig` and its history, `priority.rs` the resolution order, `validators.rs`
  and `callbacks.rs` the hooks, `sources/` the value sources (environment
  syntax, CLI flags, dotenv, INI, and the document formats read into
  trees of `DocNode`s), `render.rs` the text forms, `attributes.rs` the decisions of
  the struct derive, and `laws.rs` the properties that span several
  operations, stated and proved as proof functions.
- `tests/` — tests run against the compiled library.
- `app/` — what the library leaves to its host: reading files and the
  process environment, and the floating-point validators and codec.

Not included: the derive macro's code generation. The struct derive emits
Rust tokens through a procedural-macro crate, which a verified library
cannot hold; what it decides (which fields become keys, their types,
defaults and rules, and the Pascal-case names of the generated mutation
variants) is here, verified, in `attributes.rs` and `naming.rs`.
