# low_latency_data_structures

Bounded queue and cell primitives for low-latency systems, with their
behaviour stated as Verus contracts and proved:

- `spsc`: a single-producer, single-consumer FIFO ring of power-of-two
  capacity. Pushes and pops follow the FIFO model (`fifo_push`, `fifo_pop`);
  `lemma_fifo_order` states the ordering law.
- `spmc`: a single-producer broadcast ring whose consumers each keep their own
  cursor. A read returns the next value, `Empty`, or `Lapped` with the number
  of values the consumer missed (`lemma_read_delivers`); over any run of
  reads nothing is lost or counted twice (`lemma_reads_account`), and a
  consumer within capacity is never lapped (`lemma_reads_within_capacity`,
  `lemma_publish_within_capacity`).
- `seqlock`: a single-writer sequence lock; a read returns the last value
  written (`lemma_read_after_write`).
- `mem`, `shim`, `ring`: slot allocation, the cell used for payloads, and the
  wrapping-counter arithmetic the rings rest on.
- `text`: decimal rendering and parsing, cpu lists, line and word splitting.
- `bench`: the decisions of the benchmark tooling — preflight checks on the
  contents of kernel files, the `/proc/interrupts` parser, TSC arithmetic, the
  throttled producer's schedule, consumer bookkeeping and report rendering.

The queues are modelled sequentially: each operation takes the shared queue
explicitly, so the handles' cached counters and the queue's invariant are
stated and proved per call.

`app/` holds what runs around the library and is not verified: reading the
kernel files, `rdtscp`, core pinning, `mmap`, the threaded bench cores with
their histograms, the adapters for other crates' queues, and the smoke run.
The bench adapters for this crate's own queues share the verified sequential
rings behind a mutex or read-write lock, so their numbers include that lock;
the reports say so in their caveats.
