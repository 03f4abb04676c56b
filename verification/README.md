# yumo_core

The core of YuMo (语墨), a desktop dictation tool: speak, and the transcript
is cleaned up and pasted where the cursor is.

The library is written in Verus. Its functions state what they return in
their `requires` / `ensures`, over spec functions on sequences and integers,
and Verus proves the code against them. The exceptions are the functions
whose result is machine state shared with other programs — clipboard
access, paste simulation, opening the system settings — which promise only
what holds whatever the system answers (often nothing, or `Ok`).

## Layout

- `src/` — the verified library
  - `text_processor` (with `cn_numerals`, `word_rules`, `builtin_dict`):
    transcript post-processing — user replacements, the built-in dictionary,
    acronym merging, Chinese numerals, CJK/ASCII spacing, sentence
    capitalisation, the terminal period, hallucination filtering
  - `pipeline`: the recording pipeline state machine
  - `settings`, `audio_cue`, `state`: what the stored settings decide
  - `db`: word and keystroke counts, cursors, legacy-import bookkeeping
  - `audio_io`, `sprites`: base64 and `data:` URIs, sprite sampling points
  - `daemon`, `custom_worker`, `custom_models`: the model daemon's
    protocol, worker replies, custom model specs
  - `device_watcher`, `commands`: device bookkeeping, front-end decisions
  - `platform`: per-platform permissions, keychain, clipboard and recorder
    decisions
  - `unicode`: character helpers shared by the text functions
- `tests/` — tests of the library on concrete values
- `app/` — the application layer: storage (SQLite), processes, threads,
  audio and image files, JSON/YAML conversion, and the front-end commands

Outside crates are reached from `src/` only through small trusted wrappers
whose doc comments say what is assumed of them (`regex`, `regex-syntax`,
`arboard`, `keyring`, `dirs`).
