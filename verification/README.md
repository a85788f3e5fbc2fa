# sortcrab

Organise files into categorised, semester-dated folders:
`{target}/{category}/{subcategory}/{semester}/{filename}`.

The library in `src/` holds the logic, verified with Verus:

- `config` — the extension rules table (`RulesConfig`, with its merge of a
  user file over the built-in rules), the period settings, the location of the
  configuration file and the text of the default file.
- `organize` — classification by extension (`classify`), period labels from
  modification times (`semester`), the move of one file with collision
  numbering (`moving::MoveTask`) and the sort of a directory
  (`SortSession`). The two state machines say what to ask of the filesystem
  next and take the answers back; they keep the counts of the `SortReport`.
- `cli` — what the commands decide: the `config` action, the directories and
  settings of a sort, the tree of moves and the summary line.
- `error` — `SortcrabError` and its messages.
- `text` — character-sequence helpers (trimming, replacement, decimal
  rendering, ordering).

`app/` is the command-line program around it: argument parsing, logging, the
filesystem work that the state machines ask for, and the configuration file's
serde form. `tests/` runs the library on concrete values.
