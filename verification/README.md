# fmpl_core

The core library of FMPL, a small language with tuple spaces, PEG grammars
and persistent images, written in Verus: each function states what it
returns in its contract, and the verifier proves it.

Layout:

- `src/value.rs`: the value type and its mathematical model.
- `src/bytes.rs`: byte encoders (LEB128, little-endian, hex), with
  round-trip laws.
- `src/persistence/`: the persistence envelope (header layout, checksum,
  schema versions) and the loader that decides which records load.
- `src/tuplespace/`: tuples, patterns, the ordered tuple store and
  permission facets.
- `src/grammar/`: grammars, rules and the registry with the built-in
  `base::parser`, `base::binary` and `base::tree` grammars; parse inputs
  (text, bytes, values, streams) with packrat memo tables; incremental
  parse states.
- `src/compiler.rs`, `src/cross_compile.rs`: the instruction set and the
  type inference used when cross-compiling it to a typed register machine.
- `src/pattern/`, `src/stream.rs`, `src/bytecode/`, `src/compute.rs`: the
  pattern type, stream metadata, the bytecode header, and trampolined
  computations.
- `src/builtins/`, `src/repl.rs`: the decisions of the built-ins (random
  ranges, environment lookups, approval requests, request headers, name
  tables of the Rust bridge) and of the interactive prompt.
- `app/`: the runtime around the library: channels, shared tuple spaces
  with subscribers and blocking takes, file and environment access, and the function bridge.
- `tests/`: tests of the library on concrete values.
