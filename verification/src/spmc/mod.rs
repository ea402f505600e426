//! Single-producer, multi-consumer broadcast queue.
//!
//! Every consumer observes every value the producer publishes, unless it falls
//! behind by more than `CAPACITY` positions; its next read then reports
//! [`ReadResult::Lapped`] and jumps to the most recent position.
mod queue;

pub use crate::spsc::Options;
pub use queue::{
    follows, is_read_trace, lemma_publish_keeps_following, lemma_publish_within_capacity,
    lemma_read_delivers, lemma_read_keeps_following, lemma_reads_account,
    lemma_reads_within_capacity, new, publishes_between, read_credit, read_step, seq_for,
    total_credit, Consumer, ConsumerState, Producer, ProducerState, Queue, ReadResult, Slot,
};
