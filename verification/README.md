rlox
====

A bytecode interpreter for Lox (part III of *Crafting Interpreters*), written in Verus: the
scanner, the Pratt-parsing compiler, the chunk format, the disassembler, the string store and
the virtual machine are proved against specifications stated over mathematical models.

Layout:

- `src/scanner.rs`: the lexical grammar as spec functions, and the scanner proved to follow it.
- `src/grammar.rs`: what compiling a source means (parser states, error recovery, emitted
  bytes and constants); `src/compiler.rs` is proved to follow it.
- `src/chunk.rs`, `src/debug.rs`: bytecode chunks, opcode encoding, and disassembly listings.
- `src/value.rs`, `src/gc.rs`: values (numbers as binary64 bit patterns) and the string store.
- `src/vm.rs`: the machine's semantics (`step_spec`, `run_spec`) and its implementation. The
  machine stops for what needs the outside world: printing, and floating-point arithmetic.
- `app/`: the `rlox` command (REPL or file), which parses number literals, does the
  floating-point arithmetic, prints, and exits with the sysexits status codes. Setting its
  `TRACE_EXECUTION` constant prints the stack and each instruction before it runs (with
  `Execution::step`); `PRINT_CODE` prints the disassembly of each compiled chunk.
