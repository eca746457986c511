# todo_cli

A terminal task list: tasks with a priority, an optional due date and
`#tags`, listed, searched, counted, exported as CSV, and changed one step
at a time with a one-step undo. It runs as a command line, as a menu, and
as a full-screen view.

## Layout

- `src/` — the library, written in Verus and verified:
  - `domain.rs` — statuses, priorities, days, tasks and their listings.
  - `text.rs` — words, joining, trimming, searching, ordering, decimals.
  - `utils.rs` — reading tags out of a task's text and its name.
  - `calendar.rs` — reading a due date (through `chrono`), today's date,
    writing a day as `YYYY-MM-DD`.
  - `todo_list.rs` — the list itself, with the contract of every operation.
  - `csv.rs` — the CSV table.
  - `paint.rs` — terminal colours (through `colored`).
  - `formatting.rs` — sections, counts and messages as shown.
  - `commands.rs` — one command of the command line, and what the caller is
    to do after it (store the list, write the table).
  - `menu.rs` — what each answered entry of the menu does.
  - `tui.rs` — what each key does in the full-screen view, and how each row
    is drawn.
  - `laws.rs` — properties across operations: undo takes back each kind of
    change (clears included), counts add up, cleaning a name is idempotent, sorting orders.
- `tests/` — the test suite.
- `app/` — the program around the library: argument parsing (`clap`), JSON
  storage (`serde_json`), the menu (`dialoguer`) and the screen (`ratatui`,
  `crossterm`).
