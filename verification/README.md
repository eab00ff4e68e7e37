# gitui_view

A terminal Git repository browser (status, log and stashes, with inline and
side-by-side diffs) whose logic is a library verified with Verus.

- `src/` — the verified library: token alignment (`align`), pairing and
  annotation of changed lines (`edits`), syntax colours merged with the
  annotation (`diff_engine`), hunk rows and line wrapping (`diff_rows`,
  `wrap`), navigation state of each tab (`nav`, `status_tab`, `log_nav`,
  `stashes_tab`, `files_tab`), key handling and the status line (`ui`),
  the repository data and status classification (`git`), and the theme
  format with its round trip (`theme`, `theme_round_trip`).
- `app/` — the terminal program around it: argument handling, the git2
  reads, the ratatui drawing, the event loop, local-time dates.
- `tests/` — tests of the library on concrete values.
