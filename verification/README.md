# beanstalk_hir

The verified core of the high-level intermediate representation (HIR) of the Beanstalk
compiler frontend, written in Verus. Every function in `src/` carries a contract that Verus
proves; the few calls into `rustc_hash` and `std` that Verus cannot read stand behind small
trusted wrappers, each documented where it is declared.

Layout of `src/`:

- `ids.rs`, `tokens.rs`, `string_table.rs`, `text.rs`: identifiers, source positions, string
  interning, and text helpers.
- `hir_datatypes.rs`, `hir_nodes.rs`, `expressions.rs`, `nodes.rs`, `ast.rs`: the data model
  (types, declarations, expressions and places, linear nodes, and the typed AST read by
  the linearisers).
- `build_hir.rs`, `expression_linearizer.rs`, `control_flow_linearizer.rs`: build-time
  bookkeeping and the lowering of AST statements and expressions into linear HIR; runtime
  expressions in reverse Polish order are flattened with compiler temporaries holding their
  intermediate results.
- `hir_builder.rs`, `builder_flow.rs`, `type_lowering.rs`, `datatypes.rs`: the module
  builder: id counters, the type interner, blocks, regions, functions and structs by id,
  the current function, block and region, terminators, loop targets, the lowering of
  frontend data types to canonical HIR types, function declarations, and documentation
  fragments; `functions.rs`: the lookup from declaration paths to the stable origins of
  functions.
- `expression_rewrite.rs`: bottom-up rewriting of expression trees and substitution of
  locals.
- `templates.rs`: state for lowering runtime templates.
- `hir_side_table.rs`, `hir_display.rs`: source names of HIR entities and the renderer.
- `hir_validation.rs`, `body_validation.rs`, `fx_collections.rs`: structural validation of
  module declarations and of what blocks hold (locals, terminators, expressions, places and
  patterns), and the trusted access to `FxHashSet` and `FxHashMap` it uses.

Laws of the library (what every operation keeps, what one call undoes) are public proof
functions named `lemma_*` beside the functions they speak of. `tests/` exercises the
library on concrete values.
