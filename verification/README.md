# ai_planner

The verified core of `aip`: build plans kept as rows, shared by every worktree and
every agent, and the decisions made around them. Parsing a plan written in markdown,
rendering it back, deciding which plan and slice a worktree is on, what claiming and
releasing a slice does to it, reconciling slices with what git shows, merging hook
settings, and the text every command prints.

A claim is refused when the slice is already held elsewhere, so of two claims made one
after the other only the first lands. That two claims made at the same moment cannot
both land rests on the database running each claim as one transaction; no database is
part of this crate, and nothing here proves that part.

Everything under `src/` is checked by Verus against its contracts. The few calls into
std, `sha2` and `serde_json` that Verus cannot read are trusted wrappers, each with a doc comment that
says what its contract claims.

## Layout

- `src/model.rs`, `src/error.rs`: plans, slices, statuses and the errors the library reports.
- `src/parse.rs`, `src/render.rs`, `src/ingest.rs`, `src/import.rs`: markdown in, rows, markdown out.
- `src/resolve.rs`, `src/git.rs`: which plan and slice a worktree is on.
- `src/rows.rs`, `src/store.rs`: what each write does to a row, and how a reference finds a plan.
- `src/drift.rs`: slices against branches and pull requests, the fix each finding calls for, and applying a list of findings; no fix sets a done slice back.
- `src/search.rs`, `src/embed.rs`: the search index and how its results are merged.
- `src/handoff.rs`, `src/report.rs`, `src/listing.rs`, `src/board.rs`, `src/out.rs`, `src/md.rs`: what is shown.
- `src/api.rs`: the board's requests and answers.
- `src/rules.rs`, `src/update.rs`, `src/json.rs`: the charter block, self-update and settings files.
- `src/text.rs`, `src/util.rs`: text as sequences of characters.
- `tests/`: scenarios on concrete values.
- `app/`: a small command line over the library: the charter rules block, a dry-run import, self-update, hook settings and showing a plan file. The commands that read or write the plan database are not part of it.

Each law the library keeps is a public proof function whose name starts with `law_`.
