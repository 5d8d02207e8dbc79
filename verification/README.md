# starling

A small control plane: a controller accepts jobs, splits them into tasks and
hands the tasks to agents, which run them and report back.

- `src/` is the verified library (Verus): the records and their views
  (`models`), identifiers and clock readings (`ids`), the API's errors and how
  they are answered (`error`), the `Store` interface (`store`), the in-memory
  store over `dashmap` tables (`tables`, `memory_store`), the controller's
  request handlers (`controller`), the agent's decisions (`agent`), and the
  properties that hold across operations (`laws`).
- `app/` is the programs around it: the axum server, the agent's HTTP loop and
  process runner, the PostgreSQL store and its migration, and the JSON forms of
  the records.
- `tests/` exercises the library.
