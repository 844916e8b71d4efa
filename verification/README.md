# tofupilot_studio

The execution core of a hardware test orchestrator, verified with Verus.

A test procedure is a list of phases in five stages (shared setup, per-slot
setup, main, per-slot teardown, shared teardown). The library turns a
procedure into jobs, queues them phase-first or slot-first, decides which idle
worker starts which ready job, turns each finished job into an outcome and a
next action, cancels what a failure or a stop cancels (never a teardown
phase), hands each job the unit identification that earlier phases of its
slot reported, and summarises the run for the report.

Layout:

- `src/` — the verified library. Each public function states its result in
  its contract; the laws that relate several functions are public proof
  functions (`lemma_*`).
- `tests/` — tests of the library on concrete values.
- `app/` — a command-line driver (`run <procedure.yaml>`): reads the
  procedure file, runs phases as processes on worker threads, prints the
  output lines and writes `report.json`. It performs what the library decides.
