# session-checkpoint

Turns a recorded assistant session (a JSONL log) into a checkpoint
document, and finds the session log that belongs to a working directory.

- `src/` is the verified library:
  - `types.rs`: the session-line data model and the displayable text of a
    message's content;
  - `extract.rs`: picking the last N messages of a session and rendering the
    checkpoint document;
  - `session.rs`: mangling a working directory into its project directory
    name, session-id validation, and the lookups (by exact id, by working
    directory walking up its ancestors, by newest modification time);
  - `clock.rs`: the current UTC time as a `YYYY-MM-DDTHH:MM:SSZ` stamp;
  - `size.rs`, `text.rs`: byte sizes and decimal numbers as text;
  - `laws.rs`: properties that span the functions above.
- `app/` is the command-line program: argument parsing, reading and writing
  files, walking directories, and JSON decoding of log lines. It gathers
  what the file system says and hands plain values to the library, which
  makes every decision.
- `tests/` runs the library on concrete values.
