# justanothergitgui

The core of a desktop Git client, written in Verus: the decisions the
client makes about a repository are verified functions with contracts.

- `src/` — the library. Conflict parsing, three-way merging and line
  picking (`conflicts`), patch parsing (`diff`), commit-message rules and
  scope inference (`commit_rules`), file lists and previews (`git_status`),
  branch, tag and worktree checks, push/pull/reset/undo routing (`sync`,
  `remotes`), publishing to GitHub and the device sign-in (`publish`,
  `github`), the stored worktree metadata (`metadata_store`,
  `worktree_metadata`), logging and redaction (`logging`), and the state of a
  repository tab: what a refresh keeps (`views`, `inspector`), what the
  toolbar offers (`toolbar`), what each button and shortcut starts
  (`actions`), what a finished job changes (`outcomes`), the dialogs
  (`dialogs`) and the window outside any tab (`welcome`). Calls into git2,
  urlencoding and two std functions that vstd does not specify go through
  four trusted wrappers whose contracts are stated next to them.
- `app/` — a command-line front end: it reads and writes repositories with
  git2, talks to GitHub over reqwest, keeps the sign-in in the system
  keychain, and hands everything it read to the library.
- `tests/` — tests of the library on concrete values.
