# graceful_shutdown

A graceful-shutdown framework for trees of asynchronous subsystems, whose
state and decisions are verified with Verus.

- `src/` is the verified library:
  - `token_tree.rs`: the model of a tree of joiner tokens (parents, liveness,
    failure handlers), the count of live descendants, how a raised failure
    travels up through the handlers, and the laws about creating and
    dropping tokens and about where a failure is caught.
  - `joiner_token.rs`: `JoinerTree`, which keeps one `tokio::sync::watch`
    counter per token and proves that each counter holds the number of live
    tokens below it.
  - `alive_guard.rs`: the guard that records how a subsystem stopped and
    hands the finished and cancel callbacks back on release.
  - `stop_reason.rs`, `error_action.rs`, `errors.rs`: stop reasons, failure
    handlers and error actions, subsystem errors and the result of a shutdown.
  - `remote_drop_collection.rs`: keyed storage of running children.
  - `subsystem_builder.rs`: a subsystem with its name.
- `app/` is the asynchronous runtime around it (tokio tasks, cancellation
  tokens, signal handling, the toplevel) and a small echo server.
- `tests/` runs the library on concrete values.
