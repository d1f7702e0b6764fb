# snek

A compiler for the small expression language snek, with its proofs.

The library (`src/`) reads s-expressions into programs, type-checks them,
generates x86-64 instructions and prints them as NASM assembly. Its
contracts state each stage exactly, over spec functions that say what a
program reads as (`parser.rs`), what type it has (`typecheck.rs`), what code
it compiles to (`codegen/compile.rs`) and how that code is printed
(`codegen/assemble.rs`). Proved laws include the subtype lattice, that a
parsed program defines each function once, and that generated code defines
each label once (`codegen/labels.rs`). `driver.rs` chains the stages for
ahead-of-time compilation and for running in memory; `repl.rs` holds the
decisions of the interactive prompt.

The command-line program (`app/`) reads files and lines, assembles the
instructions into memory with `dynasmrt` and runs them.
