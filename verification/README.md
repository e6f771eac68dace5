# handy_app_lib

The storage, transcription and knowledge core of a desktop dictation app:
captures and their audio files, append-only transcription attempts, derived
representations, notes with versions, a user dictionary, spoken snippets,
prompt profiles, delivery auditing, a durable export outbox, an import of
Wispr Flow history, and the bounded windowing and seam joining that long
recordings are transcribed with.

## Layout

- `src/` is the library, verified with Verus. Every public function states
  what it returns in its `ensures`; the properties that span several calls
  are public proof functions whose names start with `law_`.
  - `text` — character-level helpers shared by the rest (splitting, trimming,
    joining, decimal numbers) and the trusted wrappers over `char`/`str`
    case and class queries.
  - `storage` — the data model: captures, attempts, representations,
    deliveries, notes, dictionary, snippets, exports, search, migrations,
    recovery, usage, audio file checks and SHA-256 hashing.
  - `long_audio` — audio windows, retries, seam detection and joins, job
    choice, and the worker's request handling.
  - `delivery` — routing a finished transcript to a sink with exactly one
    audit event, and the rows a dictation writes.
  - `managers` — snippets, dictionary terms, knowledge export items, prompt
    profiles and the Wispr Flow import.
  - `commands` — request parsing and page assembly for the history, notes
    and dictionary surfaces.
- `app/` is plain Rust around the library: SQLite through `rusqlite`, the
  file system, audio decoding, the worker process and the background queue.
  It hands the library plain values and carries out what the library decides.
- `tests/` exercises the library on concrete values.
