# quick_command

The decision logic of a keyboard-driven project launcher, verified with Verus.

A line such as `code example`, `ll`, `cat README.md`, `cd child` or
`mkdir demo` is parsed without a shell, checked against a catalog of trusted
commands, resolved against the user's enabled workspaces, and either shown
inside the launcher, applied to the launcher's own state, or handed to an
external program as an argument vector.

## Layout

- `src/` — the verified library.
  - `catalog`: the trusted commands and how each one runs.
  - `parser`: trimming, shell-syntax refusal, word splitting, catalog check.
  - `paths`, `text`, `order`: path components, joins, parents and
    extensions; string predicates; the lexicographic order of strings.
  - `workspace`: which paths lie inside enabled workspaces, which root holds
    a new directory, and workspace normalization.
  - `presentation`: `ls`/`ll`/`cat` arguments, sorted and bounded listings,
    bounded UTF-8 text views.
  - `commands`: safe child names, candidate actions, routing, history and
    usage recording, and the steps of `cd`, `mkdir` and launching.
  - `index`: rebuilding the directory index with usage carried over.
  - `search`: the text score of a directory for a query.
  - `store`: data versions, migration and the load/save recovery policy.
  - `resolver`: where a command-line tool is looked for.
  - `errors`, `window`, `models`: user messages, the auto-hide flag, data.
- `tests/` — tests of the library on concrete values.
- `app/` — the desktop shell: window and shortcut handling, filesystem and
  process access, the JSON state file, and the commands the interface calls.
