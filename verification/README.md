# automotion

Batch tooling for Alight Motion / Alemon `.amproj` projects: splitting a
project into one project per element, grouping all elements into one
`embedScene` and cutting it into frame windows, repairing resource URIs, and
driving an Android phone over adb to render projects into videos.

The library under `src/` is written in Verus: its functions carry contracts
over mathematical models (`Seq`, `Map`, spec functions) and are proved.
Calls into the regex, roxmltree and std functions that have no Verus
specification go through small trusted wrappers whose contracts state their
results, or name them where the result takes pages to state.

- `text`, `paths`, `xml` — character sequences, Unix path rules, attribute
  escaping, file-name sanitizing, the scene model read from the archive.
- `split`, `group_split`, `fix`, `amproj` — the project operations, on
  archive entries (name and bytes).
- `adb`, `ui_parser`, `ui`, `render_monitor`, `workflow`, `batch` — the adb
  commands, UI-dump search, and the state machines that decide each step on
  the phone; the caller performs the steps and reports their outcomes.
- `ffi`, `config` — the values shared with the Android app.

`app/` is the command-line front end: argument parsing, ZIP reading and
writing, running adb, sleeping and reading the clock. `tests/` runs the
library on concrete projects, dumps and device scripts.
