# classpath-surfer

Fast dependency symbol search for Gradle Java/Kotlin projects: every class,
method and field of a project's resolved classpath is indexed, then searched
from the command line, a terminal browser, or as JSON for scripts and agents.

## Layout

- `src/` — the library, written in Verus.  Every function carries a
  `requires`/`ensures` contract that Verus proves:
  - `descriptor`, `classfile`, `locator`: JVM descriptors, symbols of a
    classfile (over the fields the classfile parser reads), method start lines;
  - `kotlin_metadata`: framing and decoding of `@kotlin.Metadata`, Kotlin
    signature rendering;
  - `jar`, `resolver`, `decompiler`: source-JAR tables, source resolution and
    decompiler runs;
  - `index_doc`, `search`: the stored fields of a symbol, query
    classification, filters, and listing order;
  - `manifest`, `staleness`, `digest`, `gradle`, `cli`, `config`, `error`:
    classpath manifests and their diffs, index staleness, the decisions of
    each command;
  - `browser`, `view`, `wrap`, `plain`: the terminal browser as a state
    machine, the text of its views, line wrapping, and the plain-text output
    of each command.
  Laws that relate several functions are public proof functions named
  `law_*`.
- `app/` — the program: argument parsing, files and processes, the Gradle
  run, the full-text index, protobuf decoding and the terminal UI.  It calls
  the library for every decision and formatting rule.
- `tests/` — tests of the library on concrete values.

## Trust

The library calls a few outside functions through wrappers whose contracts
are believed rather than proved: the `cafebabe` classfile parser, SHA-256
(`sha2`) and hex encoding (`hex`), and a handful of `std` functions on
characters and strings (case mapping, whitespace, UTF-8 decoding).  Each
wrapper's doc comment says what its contract claims.
