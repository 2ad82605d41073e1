# nros

A robotics middleware stack whose core is specified and proved with Verus.

- `src/` — the verified library: the single-producer single-consumer rings
  (`ring`, `zero_copy`), the wire format and stream framing (`wire`,
  `transport`), leader election, replicated state, task scheduling and fleet
  coordination (`distributed`), timestamps, DMA buffer ownership, the camera
  driver and sensor time alignment (`hal`), node statistics (`node`), project
  generation (`cli`), manifest parsing (`representation`), and small helpers
  (`text`, `clock`, `types`, `sim`, `studio`, `probe`, `bench`).
- `tests/` — tests of the library, run against the compiled crate.
- `app/` — the `nros` program: sockets, files, the dashboard server, the
  simulator's physics and every computation on floating-point values.
