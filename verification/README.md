# moose

The core of Moose, a small desktop app for chatting with local AI models
through Ollama, written in Verus: each function states what it returns in its
`requires` / `ensures` contract, and Verus proves the code meets it.

## Layout

- `src/` — the verified library.
  - `conversations`, `providers`, `profiles`, `models`, `chat`: the records the
    app keeps, their validation rules and their storage names.
  - `shortcuts`: keyboard shortcut chords, how they are read from text and
    written back.
  - `ollama/`: the Ollama HTTP protocol's line framing and replies, the managed
    Ollama server's configuration and its wait for readiness, the checks on a
    downloaded release (size and SHA-256 digest), and the decisions of
    extracting its archive entry by entry.
  - `digest`: SHA-256 through the `sha2` crate.
  - `platform`: where the app keeps its data.
  - `presentation/`: what the window shows: message texts, code blocks,
    live Markdown, exports, the model manager and its catalog of models to
    download, settings fields, titles, the reply being written, and the
    steps of downloading a model and loading the model list.
  - `text`, `urls`, `ids`, `error`: shared string logic, URL parsing (through
    the `url` crate), fresh identifiers and timestamps, and the error type.
- `tests/` — tests of the library on concrete values.
- `app/` — the parts that talk to the outside world: SQLite storage, HTTP,
  the managed server process, reading and writing archive entries, JSON, and
  everything that needs floating point.

Laws that relate several functions (for example, that a shortcut's label reads
back as the same shortcut, or that a numbered conversation title is never one
already taken) are public proof functions next to the code they speak of.
