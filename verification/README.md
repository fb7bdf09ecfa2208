# pooled

A lightweight thread pool library with specialized pool types, verified with Verus.

- `src/` is the verified library: the plan that splits the inputs of a parallel
  map into chunks (`chunks.rs`), running a chunk and putting the chunks' results
  back together in input order (`map.rs`), the messages between the runtime and
  its workers and what a worker does with each (`dispatch.rs`), tasks and the
  promises that settle them (`future.rs`), the error type (`error.rs`) and the
  sequential pool (`sequential.rs`). Channels come from `lockout`.
- `app/` is the runtime around it: worker threads, the panic guard around each
  job, and the simple, map and future pools.
- `tests/` exercises the library.
