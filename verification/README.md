# petri

A cell simulation: circles move in a box, bounce off its walls and push each
other apart, with a spatial grid to find neighbours and per-stage timers.

- `src/` is the verified library (Verus): mouse button state, the two spatial
  grids (integer-division and power-of-two), the grouping of timers for the
  performance panel, timing histograms, the event-loop decisions, collision
  pairs and the frame/tick counters. Each public function states its result in
  its contract, except where the result is a clock reading, a float or the
  histogram's floating-point mean: there the contract states what holds of
  every outcome, or names the outside computation. The `lemma_*` proof
  functions state the laws that tie the operations together.
- `app/` is the headless program around it: reading the configuration, the
  floating-point physics, the global timer registry and the main loop.
- `tests/` runs the library on concrete values.
