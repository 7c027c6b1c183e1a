# tsqlust

A T-SQL lexer, parser and static-analysis framework, verified with Verus.

A query is parsed into a tree (`parse_tsql_select`), or its tree is walked
by a `visitor::Visitor` that records diagnostics (`get_diagnostics_for_tsql`).

## Layout

- `src/grammar.rs`: the grammar as spec functions over the source bytes:
  where each rule's match ends, and the record of expected rules it leaves
  when it fails.
- `src/recognize.rs`: executable recognizers, proved to follow the grammar.
- `src/tree.rs`, `src/text.rs`: the tree a match stands for (positions,
  identifiers, integers), and the functions that build it.
- `src/parser.rs`: the parser (`Rdp`, `StringInput`).
- `src/expected.rs`: the printed form of the expected rules.
- `src/ast.rs`, `src/diagnostics.rs`, `src/visitor.rs`, `src/visitors.rs`:
  the tree types, diagnostics, the visitor trait and the visitors that come
  with the library.
- `src/repl.rs`: what the interactive prompt shows for a line.
- `src/letter_case.rs`, `src/failure_record.rs`: properties of the grammar as
  a whole (keywords match in any case and leave the tree as it is; a refused query always names what was
  expected, and where).
- `app/main.rs`: the interactive prompt.
- `tests/`: tests.
