# async_broadcast

A multi-producer multi-consumer broadcast channel, where each consumer gets a clone of every
message sent on the channel. The library under `src/` is verified with Verus.

- `src/channel.rs` is the model: a channel is a log of all messages ever sent, of which the
  messages from the head on are still held, and each receiver is a position in that log.
- `src/inner.rs` is the state that the handles of a channel share, and `src/sender.rs`,
  `src/receiver.rs` and `src/inactive.rs` are the handles. Each operation takes the shared state as
  an argument; its contract says what it makes of the model and what it answers.
- `src/limiter.rs` holds the limits on the capacity, `src/errors.rs` the errors and their texts.
- `src/laws.rs` states and proves what holds of a channel as a whole.
- `src/weighted/` is the same for channels whose capacity is a total weight.
- `src/signal.rs`, `src/queue.rs` and `src/text.rs` hold everything that is trusted rather than
  proved.

`app/` puts the shared state behind a lock, and turns the operations that may have to wait into
futures and streams. `tests/` runs the library.
