# oretachi

The decision logic of the oretachi worktree manager as a verified library: how tool calls
and agent hooks find the worktree they are about, how subscription targets resolve and
which subscriptions let one worktree act on another, how notifications are planned,
debounced and mirrored, how artifacts and their modules are read and edited, how an answer
to a terminal prompt is checked against the screen it was planned for (one question, or
every question of a dialog in turn), and the small state machines that watch the main
thread and the tool server's peers.

- `src/` is the library. Every function in it carries a contract that Verus proves; the
  public proof functions state the laws that span several functions (a module reads back
  what was written, a debounced key never touches another key, a stored subscription target
  reaches the worktrees it names, and so on).
- `tests/` runs the library on concrete values.
- `app/` is the thin program around it: argument handling, reading `settings.json`, a
  local `/notify` endpoint, the `--notify` command-line client and the process helpers.
