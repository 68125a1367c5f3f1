# Multi progress bars, verified

A multi progress draws several progress bars one below the other. This crate
keeps its bookkeeping: a draw-state slot per bar, a free list of slots of
removed bars (reused last first), and the visual order of the shown bars. It
builds the frame of each draw (orphaned lines, then every shown bar's lines
in order) and leaves the terminal output to the caller.

- `src/model.rs`: the abstract state (`MultiView`), its well-formedness, and
  the spec of insert, remove and draw.
- `src/multi.rs`: `MultiProgressState` and `MultiProgress`, proved against the
  model.
- `src/laws.rs`: properties across operations (an insert undone by a remove,
  slot reuse, idempotent removal, insert positions, orphans drawn once).
- `src/bar.rs`, `src/target.rs`, `src/frame.rs`, `src/alignment.rs`: the bar
  handle, draw targets, frames and alignment.
- `app/lib.rs`: sharing between threads and writing frames to standard error.
