# mpmcpq

A multi-producer multi-consumer priority queue. Messages are received by
ascending priority; receivers may hold a message in a guard, and once the
queue is empty and every guard is released a single `Drained` message tells
the receivers that no more work is to be expected. Senders may keep a stash
where messages wait while the queue is contended.

- `src/` is the verified library: the queue (`mpmcpq.rs`), the counters of
  messages in flight (`progress.rs`), the stash (`stash.rs`), the guard
  (`guard.rs`), the message type (`message.rs`), and the laws that tie the
  operations together (`laws.rs`). Every operation is a step from the state
  under the queue's lock, the counters and the stash to the next state and to
  the threads that must be woken.
- `app/` shares the library between threads: it holds the queue and the
  counters behind `parking_lot` locks, waits on a condition variable while the
  queue is empty, wakes the threads that each step names, and sends a stash's
  messages to its queue when the stash is dropped.
