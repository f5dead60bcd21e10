# bending

Object patterns: a chain of Rust patterns written `P1; P2; P3 => { action }`,
where a `!` inside a pattern marks a hole whose value the next pattern is
matched against. The chain expands into a closure of nested `match`
statements that pushes the action's value for every way the chain matches.

Layout:

- `src/token.rs`: the macro input as plain token trees.
- `src/data.rs`: the pattern tree, its mathematical model, the walk over its
  children, and the fresh-name generator.
- `src/parsing/object_pattern.rs`: the grammar of object patterns as spec
  functions and the parser proved to follow it.
- `src/parsing.rs`, `src/parsing/pattern_parser.rs`: two small parsers for
  chains of holes and for a single wild pattern.
- `src/gen/object_pattern.rs`: the code generator and its specification.
- `src/lib.rs`: `object_pattern`, parsing and generation together.
- `app/lib.rs`: the conversion from the compiler's token trees, for the
  procedural macro.
