# airlock-v2

A conservative auto-save and push engine for git work trees. Registered work trees are committed
to every quarter of an hour and cleaned up every eight hours:

- a branch is pushed by fast-forward only; where that fails, whatever the reason, it is kept and
  pushed as a new branch `wip/<date>-<id>`;
- the stashes of a work tree are recovered from the last to the first: the work of a stash is
  committed, a branch `wip/<date>-stash-<id>` is made at that commit and pushed, and only then is
  the stash dropped;
- a snapshot is made in an index of its own, so that the index of the user stays as it is.

## Layout

- `src/` is the engine, verified with Verus. It starts no process and touches no file. Whatever has
  to be asked of git is a function of the replies that came so far: it gives the next command, or
  the result. `flow.rs` explains this; `policy.rs`, `replay.rs`, `safety.rs` and `disk.rs` state
  what holds of the engine as a whole.
- `app/` is the program: it reads the command line, runs git, and reads and writes files as the
  engine tells it to. Started under the name `daemon` it is a scheduler:
  `daemon <autocommit|cleanup>`.
- `tests/` runs the engine on scripted replies.

## State

Everything is kept below `~/.airlock/v2`: `registry.json`, which is replaced as a whole, and
`logs/<name>.log`, to which one line of JSON is added for each event.
