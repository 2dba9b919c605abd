# orchestrator

A pipeline orchestrator: pipelines move through spec review, universe setup,
agent development and validation under a checked state machine; an executor
runs them phase by phase, records each run, and cleans up and rolls back on
failure. Around it: a dependency-ordered phase scheduler, exactly-once
execution keyed by idempotency keys, retry, timeout and circuit-breaker
policies, and a priority job queue.

## Layout

- `src/` — the library, verified with Verus. Every public function states
  what it returns or changes in its `ensures`; the properties that span
  several functions stand as public proof functions (`lemma_*`).
  - `state` — pipelines and their state machine.
  - `persistence` — the pipeline state cache (what is stored under which id,
    and what must be written out).
  - `phases` (with `executor` and `framework`) — phase results, the
    validation decision, the executor and the phase framework.
  - `metrics` — the record of phase runs per pipeline and overall.
  - `cleanup`, `parallel`, `exactly_once`, `policies`, `queue`.
  - `clock`, `json`, `phase_log` — the calls into `chrono`, `uuid`,
    `serde_json` and `im`.
- `tests/` — tests of the library.
- `app/` — plain Rust around the library: state files on disk, JSON
  encodings, metrics averages in fractional seconds, the retry policy with a
  fractional factor, and the asynchronous job loop.

Times are milliseconds since the epoch and durations are milliseconds
throughout the library; a recorded phase run keeps its duration in whole
seconds, given in milliseconds.
