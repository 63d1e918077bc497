# sql_hummus

Key-value files and append-only log files kept in SQLite databases, written
in Verus.

- `src/` is the library, verified by Verus:
  - `plan.rs`: how the stores talk to SQLite. Each operation is a plan, a
    verified function from its state and SQLite's last reply to its next
    request (which statement, what is bound where, what is read) or its
    result, pinned exactly by its contract; the drivers carry the requests
    out. The connection is opaque and changes through shared references,
    so the stores' own contracts cannot say which requests reached SQLite:
    they say only that a result is one their plan can give for some
    replies, which holds whatever arguments the plan ran with. Nor does
    anything state SQL's effects on the file (that a key-value file acts
    like a map, or a log like an append-only list);
  - `kv.rs`: key-value files, their plans, and the proof that a prefix scan
    over keys in code-point order yields every key with the prefix;
  - `log.rs`: log files and their plans, with the trail of cookies that their errors carry
    (`error.rs`);
  - `log_index.rs`: reading which log elements a user asks for, and the
    proof that the decimal text of any index, or of two joined by `..`,
    reads back as that index or range;
  - `text.rs`: prefixes, code-point order and decimal integers;
  - `db.rs`, `ids.rs` and the RFC 3339 reader in `log_index.rs`: the calls
    into `sql-peas`, `ulid` and `chrono`, each behind a small trusted
    function whose contract says what it promises.
- `app/` is the `sql-hummus` command: argument parsing, printing, standard
  input and the default log's directory.
- `tests/` runs the library against real database files.
