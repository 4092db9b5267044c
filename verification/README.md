# symphony_core

The decision-making core of an agent orchestrator, written and proved in Verus.

- `src/` is the library. Every function states in its contract what it returns or
  changes; the laws that span several functions are public proof functions beside them.
  - `handoff`, `integration`, `integration_request`, `pull_request`, `qa`, `qa_request`,
    `qa_blocker`, `qa_blocker_policy`, `parent_close`, `followup`, `followup_request`,
    `followup_policy`, `followup_routing`: what the records of a workflow have to satisfy.
  - `prompt`: strict expansion of prompt templates.
  - `lease`, `run_lease`, `heartbeat`, `cancellation`, `concurrency_gate`: what a dispatch
    needs before it may start, and while it runs.
  - `logical_queue`, `queue_tick`, `claims`, `intake_tick`, `integration_tick`,
    `followup_approval_tick`: the queues and what one tick of each emits.
  - `runner_core`, `integration_runner`, `followup_approval_runner`: bounded dispatch of
    queued requests; `integration_admission`, `followup_approval_admission`: which service
    is asked next before one may start.
  - `state_machine`, `events`, `poll_loop`, `jitter`: claiming issues tick by tick.
- `tests/` runs the library on concrete values.
- `app/` is the asynchronous side: services, tasks, serialised forms. It performs the steps
  that the library names and hands back what came of them. What it works out itself is how
  long to sleep, where the jitter is a floating-point factor, and how long a shutdown waits
  for running tasks before it forces them down; a deadline of zero forces them at once.
