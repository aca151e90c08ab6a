# worktree-color-sync

A daemon that gives every git worktree its own colour and shows it in the
terminal (Ghostty, through OSC sequences on the tab's tty) and in Cursor (the
title bar colours in `.vscode/settings.json`).

## Layout

- `src/` is the verified library (Verus). It holds the decisions the daemon
  makes and proves them against their contracts:
  - `hex`, `color`, `allocator`: colour normal form, the default palette, the
    seeded order in which colours are tried, fallback colours, and the choice
    of a free colour (including cycling a worktree to its next colour);
  - `keyed`, `state`: the runtime state (colour per worktree, context per
    terminal) over an association list with distinct keys;
  - `lines`, `git`, `resolve`: reading `git worktree list --porcelain` and the
    step-by-step resolution of the worktree that contains a directory;
  - `paths`, `config`: configured paths with `~`, defaults and normalisation;
  - `cursor`, `ghostty`: the jq program and the OSC payloads written;
  - `protocol`, `daemon`, `render`: requests, the answer to each, and how the
    command line prints them.
  Calls into std, `sha2` and `dirs` that Verus cannot read stand behind small
  trusted wrappers whose contracts say what the documentation promises.
- `app/` is the command line and the daemon process: sockets, files, running
  git and jq, writing to ttys, and the serde copies of the message types.
- `tests/` runs the library on concrete values.
