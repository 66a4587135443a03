# aria_lang

The verified core of the Aria language tools, written in Verus.

`src/` is the library. Every function in it carries a contract that Verus proves:

- `mir`, `optimize`, `contract_verifier`, `pretty`, `display`: the mid-level
  intermediate representation, its optimization passes (constant folding,
  algebraic simplification, dead-code removal, CFG simplification), the contract
  check insertion and the textual listing.
- `ast`, `lower`, `lower_expr`: the syntax tree the lowering reads and the
  lowering of whole programs to MIR: type lowering and unification,
  declarations, contracts, function bodies (expressions, statements, pattern
  binding and matching, lambdas with captures, comprehensions, string
  interpolation), with the lowering state's invariant kept by every step and
  emitted code only ever appended.
- `lsp_types`, `text`, `state`, `definition`, `completion`, `diagnostics`,
  `outline`, `handlers`: the language server's logic: positions and the
  byte/UTF-16 line index, documents held in a rope, symbol scanning, completion,
  diagnostics and document outlines.

`app/` holds what Verus does not see: the tower-lsp server, its async
handlers, the conversions to and from LSP types, and the printing of float
constants.

`tests/` runs the library on concrete inputs.
