# pycodegen

A verified bytecode compiler for Python, with the hashes of Python values and weak proxies.

- `src/ast.rs`, `src/symboltable.rs`, `src/bytecode.rs`, `src/error.rs`: what the compiler reads
  and what it gives.
- `src/state.rs`: the state of a compilation and what each step does to it. `src/expr_code.rs`
  and `src/stmt_code.rs` say, as chains of such steps, what the code of each expression and
  statement is.
- `src/compiler.rs` and `src/compile_*.rs`: the compiler. Each function is proved to do to its
  state exactly what these chains say. `src/compile.rs` has the entry points.
- `src/validity.rs`: what every step keeps. The arguments of all instructions refer to blocks,
  constants and names that the code has; pools only grow; every block that is allocated is gone on
  in, and only once.
- `src/branches.rs`: what the jumps of `and`, `or` and `not` do when their code is run: exactly the
  operands that decide are evaluated, and the run goes where the verdict says.
- `src/steady.rs`: what an expression leaves alone.
- `src/alike.rs`, `src/alike_expr.rs`, `src/alike_stmt.rs`: compilations that differ in source
  locations alone go on to differ in them alone.
- `src/laws.rs`: what holds of the compiler as a whole.
- `src/contains.rs`, `src/doc.rs`, `src/integer.rs`, `src/pool.rs`, `src/text.rs`: await
  expressions, docstrings, integer literals, the pools of a code object, texts.
- `src/hash.rs`, `src/modular.rs`: numeric and keyed hashes. A float hashes to its value modulo
  the prime `2**61 - 1`, and so like the integer that it equals.
- `src/weakproxy.rs`: weak proxies, which pass every operation on to their referent as long as it
  lives.
- `src/bigint.rs`: big integers, which are those of `malachite-bigint`.
- `app/`: syntax trees as a parser gives them, and floats.

A compilation starts from a syntax tree and its symbol table. Where a tree and a table do not
belong together, or a construct is not supported at all, there is no sensible result:
`checked_compile_top` says so with `None`.
