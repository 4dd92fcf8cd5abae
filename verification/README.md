# taurine

A syntax-tree optimizer, a bytecode compiler and a bytecode machine for the
Taurine scripting language, written in Verus and verified against
mathematical models of each.

Numbers of the language are IEEE-754 doubles.  The library carries them as
their 64-bit patterns and asks a caller-supplied function for every
operation whose result depends on floating-point rules (see `number.rs`);
the verified contracts hold for every arithmetic that is a function of its
arguments.

Layout of `src/`:

- `ast.rs` — the syntax tree and its model.
- `number.rs` — the operations delegated to the caller's arithmetic.
- `optimizer.rs` — constant folding, propagation, strength reduction and
  dead-code removal, with laws on the counters and the constant table.  A
  constant is propagated only while nothing may have reassigned its
  variable: a declaration or assignment without a constant value forgets
  the old one; branches, loops that may run, `try` and destructuring forget
  all of them; and once a function has been met none is recorded.
- `interner.rs` — the string interner.
- `bytecode.rs` — instructions, compiled functions and programs.
- `compiler.rs`, `compile_laws.rs` — the compiler, its model and its laws.
- `slots.rs`, `table.rs` — the `indexmap::IndexMap`s the compiler and the
  machine use, behind contracts.
- `value.rs` — runtime values.
- `text.rs` — numbers written as text, through the caller's arithmetic.
- `messages.rs` — the text of the machine's errors.
- `machine.rs`, `vm.rs` — the machine: its model (one instruction, whole
  runs, laws) and its implementation.
- `limits.rs` — the size bounds that the compiler and the optimizer
  require, computed without overflow.
- `heap_laws.rs` — the machine's invariant that every array or table a
  value refers to exists.

`app/` holds the double-precision arithmetic, including how a double is
written as text.
