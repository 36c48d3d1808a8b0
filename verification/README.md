# zex

The core of a keyboard-driven file explorer and disk usage analyzer,
written in Verus: every function in `src/` carries a contract that Verus
proves, except the small wrappers around std and outside crates (marked
`#[verifier::external_body]`), whose contracts are trusted.

## Layout

- `src/` — the verified library: navigation history, undo and redo,
  selection, sorting of listings, the disk usage tree, git status parsing,
  search requests and results (ripgrep's JSON events read field by field),
  settings text with comments parsed and merged, the
  command line, icon theme resolution and the text and path helpers they
  share. Public `lemma_*` proof functions state the laws that hold across
  calls (history round trips, undo/redo symmetry, merge rules, orderings).
- `tests/` — tests on concrete values.
- `app/` — the `zex` command: reads the command line, answers
  `zex config`, loads the settings files, and prints the starting folder
  with its git status (or, with `--disk-usage`, the disk usage of its
  disk: the walk reads the file system and the library builds the
  tree, polling the scan for progress). It also holds the drivers that the
  library's decisions need and that a window would call: bulk operations
  item by item, paste, undo and redo, content and name searches, the
  trash view's listing and the properties of a selection. File
  system work, processes (git, ripgrep) with time limits, trash calls,
  floating-point formatting and time zones live here.
