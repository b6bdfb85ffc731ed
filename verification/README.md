# Meow App Launcher (meowal)

A keyboard launcher in the spirit of Spotlight: a hotkey summons a search
box, the query is matched against the registered applications (by name,
pinyin, pinyin initials or tag), and Enter launches the selection. A
calculator, system commands and a web search join the results of name
queries.

## Layout

* `src/` — the library, verified with Verus: the application registry and
  the merge of a Start menu scan, fuzzy matching and exact ranking, the
  result list (browse groups, aggregation, selection), the calculator's
  lexer and shunting-yard conversion, hotkey and command-line parsing, the
  control-channel protocol, environment synchronisation, the dynamic
  island's state machine, the search-box editor, the settings model (the
  table of configuration-backed rows, reading, writing and restoring them,
  and the settings pages built from it), SVG icon parsing, palettes and
  date formatting.
* `app/` — the console front end: command-line dispatch (`register`,
  `show`, `hide`, `toggle`, `query`), the JSON data files, walking the Start
  menu folders, the named-pipe client and the floating-point evaluation of
  arithmetic.
* `tests/` — tests of the library on concrete values.
