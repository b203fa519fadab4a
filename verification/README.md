# async_demos

Small models of an agent runtime (sessions, turns, tools, permissions, replay, storage),
written so that their decisions are proved with Verus.

- `src/` is the verified library. Each module holds one concern: a reducer, a gate, a
  journal, or the decision function of an actor. State machines that run inside async
  tasks are written as functions from state and event to next state and action; the
  contracts state the result of every call over mathematical models (`Seq`, `Map`, views),
  and the `law_*` proof functions state properties that span several calls.
- `src/text.rs` and `src/textmap.rs` are verified helpers: text comparison and a map keyed
  by text with its keys kept in order.
- Calls into `serde_json` and a few std functions go through small trusted wrappers whose
  contracts name what the call returns.
- `tests/` runs the library on concrete scenarios.
- `app/` is the program around the library: tokio tasks, channels, timers, task-locals and
  serde conversions. `cargo run -- <demo>` runs one demo; with no argument all run.
