# maki_ui status bar

The status bar of a terminal chat client, as a verified library.

`src/` (verified with Verus):

- `numbers` — decimal digits, token counts (`format_tokens`: `999`,
  `12.3k`, `1.5m`) and the context gauge (`context_percent`), computed in
  exact integer arithmetic with the rounding of binary64 division and
  one-decimal rendering; laws on nearest-tenth rounding, whole units and
  the gauge rounding down.
- `paths` — collapsing the home directory to `~`.
- `git` — finding the enclosing `.git` directory, parsing `HEAD` into a
  branch name or short hash, and the `dir:branch` label; the file system
  is reached through functions the caller passes in.
- `status_bar` — the bar's state (flash message, spinner verb, directory
  label, branch-change signal) and the spans it shows.
- `clock`, `signal`, `text` — the clock, the watcher's channel and string
  helpers.

`app/` holds what reads the disk, the environment and the clock, the
file watcher thread, and drawing with ratatui.
