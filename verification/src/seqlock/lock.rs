use std::marker::PhantomData;

use vstd::prelude::*;

use crate::shim::UnsafeCell;

verus! {

/// A value guarded by a sequence number: even when stable, odd while a write
/// is in progress.
pub struct SeqLock<T> {
    seq: u64,
    data: UnsafeCell<T>,
}

/// The writing handle of a [`SeqLock`]; there is at most one.
pub struct Writer<T> {
    _t: PhantomData<T>,
}

/// A reading handle of a [`SeqLock`]; any number may exist.
pub struct Reader<T> {
    _t: PhantomData<T>,
}

impl<T> SeqLock<T> {
    /// The stable value.
    pub closed spec fn value(&self) -> T {
        self.data.value()
    }

    /// The sequence number.
    pub closed spec fn sequence(&self) -> u64 {
        self.seq
    }

    /// No write is in progress: the sequence number is even.
    pub closed spec fn wf(&self) -> bool {
        self.seq % 2 == 0
    }
}

/// Creates a sequence lock holding `initial_value`, with its writer and a
/// reader; more readers are made by cloning the reader.
pub fn new<T: bytemuck::AnyBitPattern>(initial_value: T) -> (r: (Writer<T>, Reader<T>, SeqLock<T>))
    ensures
        r.2.wf(),
        r.2.value() == initial_value,
        r.2.sequence() == 0,
{
    let sl = SeqLock { seq: 0, data: UnsafeCell::new(initial_value) };
    let writer = Writer { _t: PhantomData };
    let reader = Reader { _t: PhantomData };
    (writer, reader, sl)
}

/// Read-after-write: a lock that a completed write of `v` left behind is
/// stable (even sequence number, so readers accept it) and holds `v`, which
/// is what every read returns until the next write.
pub proof fn lemma_read_after_write<T>(before: &SeqLock<T>, after: &SeqLock<T>, v: T)
    requires
        before.wf(),
        after.value() == v,
        after.sequence() == before.sequence().wrapping_add(2),
    ensures
        after.wf(),
        after.value() == v,
{
}

/// An even sequence number has a clear low bit.
proof fn lemma_even_low_bit(x: u64)
    requires
        x % 2 == 0,
    ensures
        x & 1 == 0,
{
    assert(x % 2 == 0 ==> x & 1 == 0) by (bit_vector);
}

impl<T: Copy> SeqLock<T> {
    /// Replaces the value, moving the sequence number through the odd
    /// "in progress" state to the next even number.
    pub fn write(&mut self, value: T)
        requires
            old(self).wf(),
        ensures
            final(self).wf(),
            final(self).value() == value,
            final(self).sequence() == old(self).sequence().wrapping_add(2),
    {
        let s = self.seq;
        self.seq = s.wrapping_add(1);
        self.data.replace(value);
        self.seq = s.wrapping_add(2);
    }

    /// Reads the latest stable value: retries while a write is in progress
    /// or the sequence number moved during the read.
    pub fn read(&self) -> (r: T)
        requires
            self.wf(),
        ensures
            r == self.value(),
    {
        loop
            invariant
                self.wf(),
            decreases 0nat,
        {
            let s1 = self.seq;
            proof {
                lemma_even_low_bit(s1);
            }
            if s1 & 1 == 1 {
                continue;
            }
            let read_attempt = *self.data.get();
            let s2 = self.seq;
            if s1 == s2 {
                return read_attempt;
            }
        }
    }
}

impl<T: Copy> Writer<T> {
    /// Writes a new value into `lock`, replacing the current one.
    pub fn write(&self, lock: &mut SeqLock<T>, value: T)
        requires
            old(lock).wf(),
        ensures
            final(lock).wf(),
            final(lock).value() == value,
            final(lock).sequence() == old(lock).sequence().wrapping_add(2),
    {
        lock.write(value)
    }
}

impl<T: Copy> Reader<T> {
    /// Reads the latest stable value of `lock`.
    pub fn read(&self, lock: &SeqLock<T>) -> (r: T)
        requires
            lock.wf(),
        ensures
            r == lock.value(),
    {
        lock.read()
    }
}

impl<T> Clone for Reader<T> {
    fn clone(&self) -> (r: Self) {
        Reader { _t: PhantomData }
    }
}

} // verus!
