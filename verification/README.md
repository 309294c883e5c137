# envyc

A front end for the Envious programming language, written in Verus: every
function of the library carries a contract that Verus proves.

## Layout

- `src/` — the verified library.
  - `lexical_analysis/` — the byte lexer (tokens with line and column spans).
  - `parser/` — the recursive-descent parser of expressions; its grammar is
    stated in `parser/grammar.rs`, which the parser is proved to follow.
  - `semantic_analyzer/` — types, function signatures and the type checker.
  - `compiler.rs` — code generation for the Dark virtual machine.
  - `errors/` — errors and how they are shown against the input.
  - `source/`, `context/`, `parse/`, `error/` — sources, symbol interning,
    the token stream and signature parser that report diagnostics, and the
    reports a terminal shows for them.
  - `syntax/`, `lexer/` — the whitespace-keeping lexer, the lexer that
    tags tokens with snippets, and the parser of signatures over those
    tokens.
  - `diagnostic/`, `unit/` — diagnostics about snippets, compile units.
  - `cli/`, `repl/`, `repl_helpers/` — command-line arguments and the
    decisions of the two REPLs (what each key does, what is shown).
  - `interner.rs`, `text.rs` — a text interner and text helpers.
- `tests/` — tests of the library on concrete inputs.
- `app/` — the program: terminal input and output, files, rendering of
  reports with `codespan-reporting`, and the REPL loops.

Verify with `verus src/lib.rs --crate-type lib`, with the outside crates of
`Cargo.toml` built.
