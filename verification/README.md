# luma

The front end of the Luma language, verified with Verus: lexer, parser, semantic
analysis (name resolution, lowering to HIR, type inference, type checking), symbol
tables, the diagnostic reporter and its terminal formatting.

- `src/` is the verified library. Each stage states what it does as a spec function
  over its input (for example `lex` for the lexer, `ns_stmts` for name resolution,
  `ti_stmt` for type inference, `tc_stmts` for type checking) and proves that the
  executable code computes it. The parser's grammar (`sp_program`, `sp_stmt`,
  `sp_expression` in `src/parser/grammar.rs`) gives, over the tokens, the tree and the
  reports of each reading; the parser is proved to build that tree and file those
  reports wherever the grammar reads the tokens to an end (it says nothing of a reading
  that stops without moving on, or of tokens that do not end with the end of the file).
- `tests/` runs the library on concrete programs and values.
- `app/` holds what meets the terminal and the file system: rendering diagnostics with
  annotate-snippets, reading source files, and the internal error type.
