# moraine

The transaction layer of a lakehouse catalog (DuckLake's tables) that is kept in
an ordered key-value store, written in Rust and proved with Verus.

A transaction works on a copy of the catalog at the head. What it leaves behind
is compared with what it started from, and the difference becomes one batch of
writes: new records, ended versions that move to history, the snapshot and the
head. A commit that loses a race is judged by what both sides changed: a benign
loss runs again, a conflict is reported. Rows that a client stages itself, commit
slots that several writers race for, group commit, equality indexes, inlined
rows, refreshes and migrations build on the same parts.

## Layout

- `src/` is the library. Every function carries its contract; the modules whose
  names end in `_laws` hold what relates several of them.
  - `records`, `keys`, `rows`, `api`, `error`: the data.
  - `ordered`, `text`, `bytes`, `names`, `scoped`, `clock`: what the rest stands
    on.
  - `operations`, `grammar`, `wire`, `conflicts`: what a commit changed, its text
    form, and when two commits conflict.
  - `catalog`, `verbs`, `txn`: the catalog and the requests on it.
  - `diff`, `commit`, `txn_commit`, `fold`, `delta`, `refresh`: from a changed
    catalog to a batch of writes, and back.
  - `decode`, `entities`, `children`, `apply`, `ends`, `deletes`, `inline`,
    `staged`: commits of staged rows.
  - `index_entries`, `index_upkeep`, `index_changes`, `upkeep`, `reading`:
    equality indexes.
  - `slots`, `coalesce`, `folder`: stores that several writers share.
  - `migration`: moving a store to a newer layout.
- `tests/` runs the library on concrete values.
- `app/` is the I/O around it over SlateDB: opening stores, running commits,
  reading rows and waiting. The byte form of keys and values, the reader of data
  files and the log of commit slots are traits that it is handed.

Whatever the library does not compute itself is declared where it is used: the
text form that `Debug` gives, random identifiers, the normal form of object
paths, the clock.
