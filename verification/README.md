# kid

Task bookkeeping for a small family task manager ("Keep It Done"), written
in Verus. The library's own functions carry contracts that Verus proves.
The calls into outside crates (chrono, indexmap, serde_json, uuid, sha2,
base64, rand, sublime_fuzzy) and a few std string functions sit in small
wrapper functions marked `#[verifier::external_body]`, next to the type
declarations and the uninterpreted names for their results: Verus takes
those contracts on trust, and each doc comment says what it claims of the
outside function.

- `src/` — the library: the task model (`task`), the in-memory task cache
  and its flush bookkeeping (`cache`, `flush`), the task-list views and their
  grouping rules (`views`, `upcoming`, `groups`, `recent`, `present`,
  `search`), the Markdown reports and MCP tools (`report`, `mcp`), the OAuth
  bookkeeping of the MCP endpoint (`oauth`), the web forms (`web`), the
  flush status light (`led`), and time in words (`relative`). `laws` states
  and proves properties that span several functions.
- `tests/` — tests of the library on concrete values.
- `app/` — a command-line program around the library: it reads and writes
  the task files, the MCP clients file and the command line.
