# rusty_framework

A Rust backend for the Ivy UI framework: widgets that write themselves out as the
JSON the Ivy client draws, named state cells, the decisions of the SignalR-style
websocket protocol, and two transpilers that turn Ivy views written in C# into Rust.

The library in `src/` is verified with Verus:

- `json` — a JSON value and its compact writer, proved to write exactly the text
  that the spec `json_text` gives (`serde_json`'s compact format, with lower-case
  hexadecimal escapes; the tests compare the two), and never a control character.
- `text` — string helpers (prefix, suffix, search, trimming, literal replacement).
- `widgets`, `widget` — the two widget sets and the JSON of each widget.
- `ivy`, `state`, `shared` — state cells shared between clones.
- `server` — the handshake, message framing and what to do with each client message.
- `transpiler` — the tree-sitter C# transpiler: a copy of the syntax tree
  (`csharp`), and the Rust text written for it (`syntax`, `expr`, `program`).
- `regex_transpiler` — the line-by-line pattern transpiler.

`app/` holds the program around it: the axum server, file handling, the layout and
card widgets (whose sizes are floating-point numbers), the hello application and the
console demo.
