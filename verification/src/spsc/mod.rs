//! Single-producer, single-consumer bounded FIFO queue.
mod builder;
mod queue;

pub use builder::Options;
pub use queue::{
    fifo_pop, fifo_push, lemma_fifo_order, lemma_pop_all, new, new_hugepage_backed, pop_each,
    push_each, ring_items, ring_occupied, Consumer, ConsumerState, Producer, ProducerState, Queue,
};
