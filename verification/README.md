# Batchinf

Framework agnostic static inference batching, verified with Verus.

A user implements `Predictor` for a type that holds a model: `predict_batch` takes a batch of
inputs and gives one output for each. Single requests are queued on the workers of a pool. A worker
fires its batch at the first of two occurrences, the batch being full or its timeout, and every
caller gets the output at the position of its own request, or the error of the batch. A batch with a
wrong number of outputs is an error for all of its callers.

## Layout

- `src/` decides. It works on plain values, never waits, and is verified.
  - `config`: the batching semantics.
  - `state`: a worker's status and queue length, packed into one word.
  - `worker`: accumulating a batch, running it and answering its callers.
  - `lifecycle`: what holds of a worker over its whole life, under any interleaving.
  - `queue`, `pool`: the queue of a worker, and routing a request round the pool.
  - `control_plane`: restarting crashed workers, and shutting down.
  - `setup`, `batcher`, `error`, `observability`, `predictor`: what a batcher is built from, what a
    caller is told, and the traits that users implement.
  - `embedding`: decoding, input layout and statuses of an image embedding service.
- `app/` carries out: the `tokio` tasks, the clock, the locks, the channels and the shared atomic
  words, and the image embedding service itself.
- `tests/` runs the library, from single functions to whole batchers on a clock that the test moves.

## What is trusted

These calls into other crates are taken at their word:

- `tokio::sync::mpsc::Sender::try_send` hands back the message that it does not take, and
  `tokio::sync::oneshot::Sender::send` the answer that nobody receives.
- `fastrand::usize` stays below the bound that it is given.
- `image` gives an image that was resized to a square as three values for each of its pixels.

Nothing is claimed of `tokio::sync::mpsc::channel` and `image::load_from_memory`, apart from what
they are called with.
