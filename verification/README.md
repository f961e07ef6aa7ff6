# gqy

The state of the GQY assistant and the rules of its web interface, verified with
[Verus](https://github.com/verus-lang/verus).

- `src/state`: the conversation store as a set of tables. Sessions, turns, queued
  prompts, journals, compaction, redo, recovery, platform bindings and grants. Every
  operation is one transaction.
- `src/web`: who may log in and change what, what a request may hold, how runs and
  changes of the configuration keep each other out, which events the pages are told
  of, and what they are shown.
- `src/tools`: the memory, a directory of markdown shards with an index, and the
  libraries of pictures.
- `src/laws`: what holds of several operations together, and what every operation
  keeps.
- `src/language.rs`: what the user reads, in English and in Chinese.
- `src/table.rs`, `text.rs`, `textset.rs`, `words.rs`, `paths.rs`, `facts.rs`: tables,
  texts, paths and what is known of them.
- `src/json.rs`, `digest.rs`, `ambient.rs`: the calls into `serde_json`, `sha2`,
  `blake3`, `chrono` and `rand`.
- `app`: the database file, the directories and the HTTP server around the library.
- `tests`: the library at work.

A contract speaks of models: a table is a sequence of rows, a text a sequence of
characters. An operation that can fail says which error comes when, and that
nothing has changed where one does.
