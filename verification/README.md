# venturi

> Controlled flow from backlog to worker.

venturi is a durable job queue with PostgreSQL as its default storage. Everything the
queue decides is a verified library: executable Rust whose behaviour is stated in
`requires` / `ensures` contracts and proved by Verus. Connections, handlers, and
clocks live in the application around it.

## Layout

- `src/` is the verified library.
  - `lifecycle` models storage as transitions of one state; `guarantees` proves what
    holds of every state and every sequence of operations.
  - `memory` is a store in memory that implements those transitions.
  - `queue` is the deduplication-aware enqueue, `worker` the claim/dispatch loop with
    its configuration, rotation, and settlement rules, both as state machines.
  - `postgres` holds the adapter's connection parameters, statements, row decoding,
    prefixes, and migrations.
  - `backoff`, `task`, `outcome`, `context`, `store`, `error`, `instants`, `ids`, `kinds`,
    and `text` are the values these speak of.
- `app/` runs the library on tokio: the storage backend trait with its PostgreSQL and
  in-memory implementations, the handler trait, the queue handle, and the worker.
- `tests/` runs the library on concrete values.

## What is proved

- Delivery is at least once: stored work is never lost, and unfinished work is always
  within reach of a claim or of a recovery.
- A claim takes the most urgent oldest eligible job, and only its own run or the end
  of its lease ends it. A run whose claim epoch has passed changes nothing.
- Every job's journal is a hole-free log of its finished runs, and its failure count is
  the number of failures in it.
- Over a whole run the loop never exceeds its concurrency or a kind's cap, never claims
  after a shutdown, and settles or releases every run it started exactly once, unless
  its task was lost. On a store that others use too, no claim outlives the worker.
- The priority rotation starves no tier; retry delays follow the Fibonacci curve and no
  realized delay exceeds it or the cap; history pages concatenate without gaps or repeats.

What is taken on trust is marked where it stands: each item that calls an outside
crate says which function it calls and what it claims of it.
