# work_tuimer

A time tracker's core, written in Verus: every function under `src/` carries a contract that
Verus proves.

- `src/date.rs`, `src/digits.rs`, `src/text.rs` — calendar dates (`YYYY-MM-DD`), number and
  text helpers.
- `src/models.rs` — work records and a day's records, kept in id order.
- `src/timer.rs` — the running timer and its RFC 3339 instants.
- `src/cli/` — the command-line grammar, CSV export, and the `doctor` / `session start`
  inputs.
- `src/keys.rs` — which action each key asks for in each mode of the day view.
- `src/storage/` — the SQL statements that persist days and the timer, the readers of the
  rows that come back, and change tracking across processes.
- `app/` — the program around the library: argument handling, the SQLite connection, legacy
  JSON files and export files.
- `tests/` — tests of the library, including runs of the storage protocol on an in-memory
  SQLite database.
