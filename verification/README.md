# async_playground

The decisions of a handful of asynchronous Tokio programs, verified with
Verus.

- `src/` — the verified library:
  - `basics`: the result of a timed unit of work;
  - `channels`: a command worker (state machine) and the manager's plan;
  - `shared_state`: a name-to-number database and the writer's entries;
  - `decimal`: decimal notation of unsigned integers;
  - `patterns`: time-limited tasks and a cancellable pinger;
  - `jobs`: a job generator, a permit-holding dispatcher (state machine)
    with ordered shutdown, and worker outcomes.
- `app/` — the programs themselves: the Tokio runtime, channels, locks,
  timers and signals, driving the library's state machines.
  Run with one of `basics`, `channels`, `shared_state`, `patterns`,
  `mini_app` as argument.
- `tests/` — tests of the library on concrete values.
