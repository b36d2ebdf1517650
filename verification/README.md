# jt-budget

A terminal-first monthly budgeting app for a manual zero-based allocation
workflow. Budget data lives in TOML files (`config.toml`, `months/YYYY-MM.toml`)
inside a separate Git repository.

## Layout

- `src/` is the library, verified with Verus: money parsing and formatting,
  month identifiers, the configuration rules, the month calculation, the
  editing state machines of the month list, guided creation and the monthly
  sheet, the repository rules (which month files may be created, renamed or
  deleted, listing order, commit messages), setup decisions (modes, paths,
  GitHub repository references, answers to prompts), launch decisions, and the
  texts and colour roles the screens show.
- `app/` is the terminal front end: command-line parsing, TOML files, git and
  GitHub CLI commands, prompts, the key loop and the drawing of each screen.
  It acts on the library's decisions and holds no rules of its own.
- `tests/` exercises the library on concrete values.
