# oc

`oc` keeps OpenCode sessions alive in tmux and shows them in a small
terminal dashboard: what runs attached, what runs detached, and what is saved
but stopped. Sessions are named, get dense numeric IDs, and can be attached,
stopped, restarted, moved and removed from the command line or the dashboard.

## Layout

- `src/` is the library, verified with Verus. It holds the rules of the tool:
  the saved-session model and its numeric IDs, the merged session list, the
  command line's meaning, the command parser of the dashboard, filtering and
  grouping, selection and action cycling, key handling and the input state,
  the dashboard's geometry and table lines, the theme choices that are plain
  integers, the argument lists and output parsers for tmux and `/proc`, and
  the decisions taken on OpenCode's database.
- `app/` is the program around it: argument parsing with clap, SQLite through
  rusqlite, running tmux, reading `/proc`, the terminal and the event loop,
  and the floating-point color derivation of the theme.
- `tests/` exercises the library through its public functions.

Calls into other crates that the library makes (display widths, JSON, the
layout solver, std's path queries) go through small wrappers whose contracts
are stated next to them.
