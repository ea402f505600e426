//! Single-writer, multi-reader cell with sequence-number validation.
//!
//! The writer marks a write in progress with an odd sequence number and
//! publishes it with the next even one; a reader accepts a value only when it
//! saw the same even sequence number before and after reading it.
mod lock;

pub use lock::{lemma_read_after_write, new, Reader, SeqLock, Writer};
