# lintspec

A linter for NatSpec doc-comments in Solidity code, whose core is verified with Verus.

## Layout

- `src/`: the verified library.
  - `comment.rs`: the grammar of `///` and `/** */` doc-comments, as a function on characters.
  - `natspec.rs`: the `NatSpec` items of a comment, and how `@return` items get their names.
  - `solidity.rs`: parsing a text with `solar_parse` and copying its syntax tree into plain nodes, and the
    parsed document of a text.
  - `tree.rs`: the syntax tree as plain nodes, and the list of source items made from it.
  - `items.rs`: the source items (plain values), and the document made from them.
  - `definitions.rs`: the source items (contracts, functions, variables...) and the rules that each of them is
    checked against.
  - `lint.rs`: the checks for each tag, the validation options, and the grouping and ordering of diagnostics.
  - `textindex.rs`, `parser.rs`: line/column/utf-16 positions of byte offsets, and how the spans of the items are
    completed from them.
  - `config.rs`, `overrides.rs`: the configuration and the command line rules on top of it.
  - `case.rs`, `files.rs`, `error.rs`, `sort.rs`, `text.rs`: smaller helpers.
  - `laws.rs`: properties of the library as a whole, proved over the specifications of the functions.
- `tests/`: tests of the library on concrete values.
- `app/`: the command line program: argument and configuration reading, the file walk, reading the files, and
  the output.

Verus checks `src/`; `app/` is ordinary Rust that calls the library.
