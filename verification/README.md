# typst-stdio-worker

A typst compilation worker: it reads typst source from stdin and renders it to
a single PNG (all pages stitched one below the other). It runs in three modes:

- `worker` — a long-running NDJSON protocol on stdin/stdout: one request per
  line, one response per line, after an initial ready message;
- `interactive` — a line-by-line REPL that writes a preview PNG;
- `pipe` — one-shot: all of stdin in, the PNG out on stdout.

## Layout

- `src/` — the library, verified with Verus. Every function carries a
  `requires` / `ensures` contract over mathematical models (`Seq<char>` for
  text, `Seq<u8>` for bytes), and the properties that span several functions
  are stated and proved as `law_*` proof functions.
  - `text` — the vocabulary of character sequences (trimming, lines, joining,
    decimal rendering) and helpers proved against it;
  - `i18n`, `strings` — language selection and the bilingual messages;
  - `template` — package imports, structured `#set` / `#show` rules, template
    configurations and the prelude put in front of user input;
  - `render` — error codes and messages, diagnostics with positions relative
    to the user's input, page and pixel limits, stitching and PNG encoding;
  - `protocol` — requests, responses and the reading of one request line
    within a size cap;
  - `session` — the decisions of the three modes;
  - `packages` — where packages are looked up, fetched from and unpacked, and
    the containment check on resolved package files.
- `app/` — the program around the library: argument parsing, the typst
  compiler and renderer, fonts, the file system and the network, and the
  serde forms of the wire messages.
- `tests/` — tests of the library on concrete values.
