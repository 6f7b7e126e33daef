# sharded_ringbuf

A bounded FIFO buffer split into shards, each a small ring buffer, for
producer and consumer tasks that spread over the shards.

`src/` is the library, verified with Verus:

- `layout` spreads the capacity over the shards (the first
  `capacity % shards` shards get one slot more) and proves that nothing is
  lost and that shards differ by at most one slot;
- `inner` is one shard, a ring buffer whose contents are modelled as a
  sequence; `shard_set` holds the shards of a buffer;
- `srb`, `lf`, `cs` and `mlf` are the four buffer types. Each operation is
  one attempt that never waits: where a task would wait for room, for an
  item or for a lock, the attempt says so (`outcome`, `notify`);
- `acquire`, `task_locals`, `shard_policies` and `task_node` decide how a
  task searches for a shard under its policy; `assigner` pairs enqueuer
  and dequeuer tasks on shards under the completely fair tasks (CFT)
  policy; `spawn_plan` holds the decisions of the spawned tasks (batching,
  counting, final notifications).

`app/` is the asynchronous layer around it: shared handles that keep each
buffer behind a mutex (held only for one attempt, never across a wait),
per-shard locks, Tokio notifications, and the spawners of enqueuer,
dequeuer and assigner tasks. It runs the loops and follows the library's
answers; what it checks itself is the library's preconditions, before each
call, failing as the buffers' documentation says.
