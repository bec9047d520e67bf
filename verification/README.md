# lambda_cicle

An implementation of λ-cicle, a small functional language with multiplicities
(0, 1, ω and borrowing) that runs programs as interaction nets. The library
is written in Verus: each function states what it does in `requires` /
`ensures` over mathematical models, and Verus proves it.

## Layout

- `src/ast`: terms, types, patterns and how they are written.
- `src/parser`: the lexer and the grammar, each against a spec of the
  language.
- `src/typecheck`, `src/borrow.rs`, `src/exhaustiveness.rs`: the type
  system, the borrow checker and match coverage.
- `src/traits`, `src/desugar.rs`: trait declarations, implementations,
  method resolution and the desugaring of trait calls.
- `src/runtime`: the interaction net, its rewrite rules, one reduction step
  at a time, building nets from terms and reading back results.
- `src/modules`: exports, module names and import cycles, the object file
  format and linking.
- `src/tools`: the pipeline from source text to a net, DOT output, tracing
  and the commands of the interactive loop.
- `app/`: the command-line program. It reads and writes files, runs the
  evaluation loops (threads, timing, input and output) and does the
  floating-point arithmetic, calling the library for every decision.
- `tests/`: tests of the library on concrete values.
