# cage

Age encryption automation: locking and unlocking files and repositories
with passphrases or recipients, key rotation, integrity verification,
in-place locking with recovery files, key generation, progress reporting
and chunked processing of large files.

The library under `src/` is written in Verus: each public function states
its behaviour in `requires`/`ensures` clauses over mathematical models
(sequences, maps, views of strings), and the laws that tie several
operations together are stated and proved as public proof functions.

Layout:

- `src/` — the verified library.
  - `crud_manager.rs` — lock, unlock, status, verify, batch, rotation and
    emergency operations over any `AgeAdapter` backend, with an operation
    history.
  - `crud.rs`, `lifecycle.rs`, `operations.rs`, `in_place.rs` — the rules of
    the lifecycle: accepted passphrases, output paths, `age` headers, backup
    names, in-place safety checks, tallies of batches.
  - `adapter.rs`, `adapter_v2.rs`, `pty.rs` — backends, streaming plans,
    recipient and pipe arguments, and the passphrase dialogue with `age` in a
    pseudo-terminal.
  - `passphrase.rs`, `security.rs`, `cli.rs`, `keygen.rs`, `requests.rs`,
    `config.rs`, `audit.rs`, `tty_automation.rs` — passphrase sources,
    injection checks, command-line decisions, key generation plans, request
    values, configuration, and audit text lines and JSON event fields.
  - `progress/` — progress tasks, styles, the manager and terminal
    rendering.
  - `chunker/`, `buff.rs` — chunk plans, resumable chunk runs, the JSON
    structure scanner.
  - `text.rs`, `paths.rs`, `digest.rs`, `order.rs`, `clock_text.rs` —
    string, path, digest, ordering and date-text helpers.
- `tests/` — tests of the library on concrete values.
- `app/` — the `cage` command: argument handling, the terminal, the file
  system, the `age` process and the clock around the library.
