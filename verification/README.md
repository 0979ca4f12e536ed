# aura_control

The decision logic of a DAW's control plane, verified with Verus.

Every document change travels as an `Op` inside one transaction. This crate
holds the op vocabulary and everything that decides which ops a command
applies, proved against contracts:

- `op`, `types` — the op vocabulary, transaction metadata and document rows.
- `ops` — building and inserting track rows, the live transport snapshot.
- `gesture` — coalescing a drag into one undo step (the fold law).
- `history` — undo/redo stacks and the "undo to here" walk.
- `plane`, `arrange`, `instrument`, `transport` — the command planners:
  mix batches, clip moves, lane arrangements, track/clip/insert/send
  removal, instrument binding, parameter batches, tempo-map edits,
  transport actions and the stop-time automation boundary, pad presses and
  quantized starts, and the refusal texts.
- `commit` — what runs after a commit, persistence planning, dirty flags.
- `project` — adopting an opened project (document swap, epoch, history root).
- `host` — plugin-host dispatch of a commit's forwards, instantiate writeback.
- `demo` — the demo song's notes and its seeding transaction.

`app/` holds what is not verified: the gesture mutex, the serde wire forms,
and the floating-point edges (gain clamps, fractional quantize divisions).
