# unicode_diagram

A renderer for box-drawing diagrams described in a small line-oriented
language (`canvas`, `collision`, `rect`, `text`, `hline`, `vline`, `arrow`),
written in Verus: the functions of the library carry contracts and are
verified, and the properties the renderer promises are proved as lemmas.
Two small functions are trusted rather than verified: the one that collects
characters into a `String`, and the one that asks std whether a character
is alphanumeric; their contracts state what std documents.

Layout:

- `src/textops.rs`, `src/width.rs` — character sequences: lines, words,
  trimming, decimal numbers, display width (CJK characters take two columns).
- `src/dsl/` — the commands and their parser (`parse`), specified line by line.
- `src/object/` — rectangles, texts, lines and arrows; bounds, anchors and
  arrow routing.
- `src/canvas/` — the cell grid: placing characters, collision detection,
  rendering to text.
- `src/renderer/` — what each object draws, truncation of content, the
  two-pass renderer, and the proof that drawing with collision off never
  reports a collision.
- `src/pipeline.rs` — from commands to a configuration (arrows resolved by
  id), canvas size, rendering, listing and linting.
- `src/cli.rs` — the command-line choices.
- `app/` — the `unid` program: argument parsing, stdin, printing, the guide.
- `tests/` — tests of the library.
