# console_aggregator

Collects what an instrumented async runtime reports about its tasks, resources
and async operations, and streams it to subscribers. A new subscriber is sent
everything that is known; afterwards it is sent, at every publish, what is new.

- `src/` is the library, verified with Verus.
  - `aggregator.rs` is the aggregator; `run.rs` is its life, one cycle at a time.
  - `state.rs` is its state as a mathematical value, with what every operation
    does to it; `laws.rs` proves what holds of it as a whole,
    and `run_laws.rs` what holds over many publishes and cycles.
  - `id_data.rs`, `entities.rs` and `stats.rs` hold what is known of entities.
  - `watch.rs` are the subscribers, each of whom is reached by the channel of an
    outlet (`outlet.rs`).
  - `flush.rs` and `shared.rs` are what is shared with the producers of events,
    and `access.rs` the flag, the wake-up and the counters in it.
  - `release.rs` lets go of values, with a receipt.
  - `event.rs` and `proto.rs` are what comes in and what goes out.
- `app/` runs the library inside a tokio runtime.
- `tests/` are its tests.
