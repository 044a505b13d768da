# fmodel_decider_rust

A pure, event-driven decision engine whose behaviour is stated in Verus contracts and proved.

## Components

- `Projection` — state evolution only (`evolve`, `initial_state`), with `map_state`,
  `map_event` and `merge`.
- `AggregateDecider` — a traditional aggregate (`decide`, `evolve`, `initial_state`) whose
  events fold back into its own state; `map_state`, `map_command`, `map_event`, `map_error`,
  `combine`.
- `DCBDecider` — a decider whose output events differ from the events it evolves on;
  `map_input_event` and `map_output_event` in place of `map_event`.
- `Process` — a decider that also keeps a ToDo list (`react`, `pending`);
  `create_workflow_process` builds one over `WorkflowState`.

Two computation models are traits: the event-sourced model (`compute_new_events`: replay the
history, then decide) and the state-stored model (`compute_new_state`: decide against the stored
state, or the initial one, and fold the decided events into it).

## Layout

- `src/` — the verified library. `fold.rs` describes folding `evolve` over events and holds
  the lemmas about it; each component module states its laws as proof functions (both
  computation models agree; with deterministic functions every computation has one answer).
  `specification.rs` computes the outcomes of given-when-then test specifications.
  `application/` holds the handlers' data and the state replay of the query handler.
- `app/` — the asynchronous repositories, the handlers' `handle`/`handle_batch`, and the
  assertions of the test specifications, which panic with a diff.
- `tests/` — scenarios for every component.

The user's functions are closures; contracts describe results through `call_ensures`, so each
statement holds for every possible result of the closures on the arguments they are given.
