# treesitter_mcp

Structural answers about source code, built on tree-sitter grammars and
proved with Verus: file shapes, call graphs, usages, minimal edit contexts,
code maps, type definitions and file dependencies, each within a token
budget counted with the `cl100k_base` tokenizer.

- `src/` is the verified library. `parser` turns source into a flat syntax
  tree; `analysis` and `extraction` compute the answers over it. Every
  function there carries a contract; the `*_laws` modules state properties
  that span several functions (edges sorted and unique, budgets kept,
  questions that always make progress, ordered maps).
- The calls into tree-sitter, serde_json, tiktoken-rs, regex and globset go
  through small trusted wrappers. Where a few lines can say what a call
  returns (a JSON string literal, a stripped path), the contract says it;
  where the result takes pages to state, such as the nodes tree-sitter
  builds for a source (`ts_parse`) or the tokens of a text, the contract
  gives it a name, and every result built on it is stated over that name.
  The first, estimated pass of a token budget is in `analysis::budget`.
- `app/` reads the disk and answers tool calls: it walks projects, answers
  the questions the library asks about paths, and hands everything else to
  the library.
- `tests/` runs the library on concrete inputs.
