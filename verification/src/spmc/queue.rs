use std::marker::PhantomData;

use vstd::prelude::*;

use crate::mem::Allocator;
use crate::ring::{
    dist, is_pow2, lemma_dist_of_residues, lemma_pred_mod, lemma_wrap_add_mod, lemma_distinct_slots, lemma_mask_is_mod, lemma_pow2_divides_modulus,
    lemma_wrap_keeps_residue, modulus, wrap_add,
};
use crate::shim::UnsafeCell;
use crate::spsc::Options;

verus! {

/// One cell of the broadcast ring: the payload plus the sequence number that
/// tells readers which publication the payload belongs to.
pub struct Slot<T> {
    pub(crate) seq: usize,
    pub(crate) data: UnsafeCell<T>,
}

/// State written only by the producer: the next position to publish.
pub struct ProducerState {
    pub(crate) write_cursor: usize,
}

/// State private to one consumer: its next read position and the last write
/// cursor it observed.
pub struct ConsumerState {
    pub(crate) read_cursor: usize,
    pub(crate) cached_write_cursor: usize,
}

/// The shared ring of an SPMC broadcast queue. Publishing never blocks: the
/// oldest slot is overwritten once `CAPACITY` values are outstanding.
pub struct Queue<T, const CAPACITY: usize> {
    producer_state: ProducerState,
    slots: Vec<Option<Slot<T>>>,
    published: Ghost<Seq<T>>,
}

/// Outcome of a [`Consumer::try_read`] call.
#[derive(Debug, Clone, Copy, PartialEq, Eq)]
pub enum ReadResult<T> {
    /// A value was read from the next slot.
    Value(T),
    /// Nothing new has been published.
    Empty,
    /// The producer overwrote this consumer's next slot; the read cursor was
    /// moved to the most recently published position. `skipped` values were
    /// never observed.
    Lapped {
        /// Number of values skipped over by the jump.
        skipped: usize,
    },
}

/// The publishing handle of an SPMC queue.
pub struct Producer<T, const CAPACITY: usize> {
    _t: PhantomData<T>,
}

/// A reading handle of an SPMC queue; every consumer has its own cursor.
pub struct Consumer<T, const CAPACITY: usize> {
    state: ConsumerState,
    _t: PhantomData<T>,
}

/// The sequence number a slot carries once the value for position `p` is
/// fully written: `2p + 2`, reduced modulo the counter range.
pub open spec fn seq_for(p: int) -> int {
    (2 * p + 2) % modulus()
}

impl<T, const CAPACITY: usize> Queue<T, CAPACITY> {
    /// Every value published so far, in order.
    pub closed spec fn history(&self) -> Seq<T> {
        self.published@
    }

    /// The position the next value will be published at, as a wrapping counter.
    pub closed spec fn write_cursor(&self) -> usize {
        self.producer_state.write_cursor
    }

    /// The slots themselves, in physical order.
    pub closed spec fn slots(&self) -> Seq<Option<Slot<T>>> {
        self.slots@
    }

    /// The slot buffer itself, for the embedding program to lock in memory
    /// or inspect.
    pub fn slot_buffer(&self) -> (r: &[Option<Slot<T>>])
        ensures
            r@ == self.slots(),
    {
        self.slots.as_slice()
    }

    /// Sequence number held by slot `j`.
    pub closed spec fn slot_seq(&self, j: int) -> usize {
        self.slots@[j]->0.seq
    }

    /// Payload held by slot `j`.
    pub closed spec fn slot_data(&self, j: int) -> T {
        self.slots@[j]->0.data.value()
    }

    /// Well-formedness: each of the last `CAPACITY` published positions sits
    /// in its slot with its own value and sequence number; slots never written
    /// carry sequence number 0.
    pub closed spec fn wf(&self) -> bool {
        let w = self.published@.len() as int;
        let c = CAPACITY as int;
        &&& is_pow2(CAPACITY)
        &&& self.slots@.len() == CAPACITY
        &&& forall|j: int| 0 <= j < c ==> (#[trigger] self.slots@[j]) is Some
        &&& self.producer_state.write_cursor as int == w % modulus()
        &&& forall|p: int|
            0 <= p < w && w - c <= p ==> {
                &&& #[trigger] self.slot_seq(p % c) as int == seq_for(p)
                &&& self.slot_data(p % c) == self.published@[p]
            }
        &&& forall|j: int| w <= j < c ==> #[trigger] self.slot_seq(j) == 0
    }
}

/// The outcome of `try_read` for a consumer at `read_cursor` that last saw
/// the write cursor at `cached`: the result, the new read cursor and the new
/// cached write cursor.
pub open spec fn read_step<T, const CAPACITY: usize>(
    read_cursor: usize,
    cached: usize,
    q: &Queue<T, CAPACITY>,
) -> (ReadResult<T>, usize, usize) {
    let w = q.write_cursor();
    if read_cursor == cached && read_cursor == w {
        (ReadResult::Empty, read_cursor, w)
    } else {
        let cached1 = if read_cursor == cached {
            w
        } else {
            cached
        };
        let j = read_cursor as int % CAPACITY as int;
        if q.slot_seq(j) as int != seq_for(read_cursor as int) {
            let new_read = dist(1, w as int);
            (
                ReadResult::Lapped { skipped: dist(read_cursor as int, new_read) as usize },
                new_read as usize,
                w,
            )
        } else {
            (ReadResult::Value(q.slot_data(j)), wrap_add(read_cursor as int, 1) as usize, cached1)
        }
    }
}

/// The wrapping arithmetic `x.wrapping_mul(2).wrapping_add(k)` computes the
/// sequence-number offset of the position whose counter is `x`.
proof fn lemma_seq_arith(x: usize, k: int, p: int)
    requires
        0 <= p,
        x as int == p % modulus(),
        0 <= k <= 2,
    ensures
        wrap_add(((x as int * 2) % modulus()), k) == (2 * p + k) % modulus(),
        seq_for(p) % 2 == 0,
        0 <= seq_for(p) < modulus(),
{
    let m = modulus();
    vstd::arithmetic::div_mod::lemma_mul_mod_noop_left(p, 2, m);
    assert((p % m) * 2 == x as int * 2);
    vstd::arithmetic::div_mod::lemma_add_mod_noop((2 * p) % m, k, m);
    vstd::arithmetic::div_mod::lemma_mod_twice(2 * p, m);
    vstd::arithmetic::div_mod::lemma_mod_bound((2 * p) % m + k, m);
    vstd::arithmetic::div_mod::lemma_mod_bound(2 * p, m);
    if (2 * p) % m + k >= m {
        vstd::arithmetic::div_mod::lemma_mod_sub_multiples_vanish((2 * p) % m + k, m);
        vstd::arithmetic::div_mod::lemma_small_mod(((2 * p) % m + k - m) as nat, m as nat);
    } else {
        vstd::arithmetic::div_mod::lemma_small_mod(((2 * p) % m + k) as nat, m as nat);
    }
    lemma_seq_even(p);
}

/// Sequence numbers of completed writes are even and in counter range.
proof fn lemma_seq_even(p: int)
    ensures
        seq_for(p) % 2 == 0,
        0 <= seq_for(p) < modulus(),
{
    let m = modulus();
    vstd::arithmetic::power2::lemma2_to64();
    assert(is_pow2(2)) by {
        assert(2 == vstd::arithmetic::power2::pow2(1));
    }
    lemma_pow2_divides_modulus(2);
    vstd::arithmetic::div_mod::lemma_mod_mod(2 * p + 2, 2, m / 2);
    assert(2 * p + 2 == 2 * (p + 1));
    vstd::arithmetic::div_mod::lemma_mod_multiples_basic(p + 1, 2);
    vstd::arithmetic::div_mod::lemma_mod_bound(2 * p + 2, m);
}

/// Publishing stores the new position in its slot and leaves the rest of the
/// window in place.
proof fn lemma_publish_step<T, const CAPACITY: usize>(
    q: &Queue<T, CAPACITY>,
    q2: &Queue<T, CAPACITY>,
    value: T,
)
    requires
        q.wf(),
        q2.published@ == q.published@.push(value),
        q2.producer_state.write_cursor as int == wrap_add(q.producer_state.write_cursor as int, 1),
        q2.slots@.len() == CAPACITY,
        forall|j: int| 0 <= j < CAPACITY ==> (#[trigger] q2.slots@[j]) is Some,
        forall|j: int|
            0 <= j < CAPACITY && j != q.published@.len() as int % CAPACITY as int
                ==> #[trigger] q2.slots@[j] == q.slots@[j],
        q2.slot_seq(q.published@.len() as int % CAPACITY as int) as int == seq_for(
            q.published@.len() as int,
        ),
        q2.slot_data(q.published@.len() as int % CAPACITY as int) == value,
    ensures
        q2.wf(),
{
    let w = q.published@.len() as int;
    let c = CAPACITY as int;
    lemma_pow2_divides_modulus(CAPACITY);
    let m = modulus();
    // the write cursor keeps tracking the history length
    vstd::arithmetic::div_mod::lemma_add_mod_noop(w, 1, m);
    vstd::arithmetic::div_mod::lemma_mod_twice(w, m);
    vstd::arithmetic::div_mod::lemma_mod_bound(w + 1, m);
    vstd::arithmetic::div_mod::lemma_mod_bound(w, m);
    if w % m + 1 >= m {
        vstd::arithmetic::div_mod::lemma_mod_sub_multiples_vanish(w % m + 1, m);
        vstd::arithmetic::div_mod::lemma_small_mod((w % m + 1 - m) as nat, m as nat);
    } else {
        vstd::arithmetic::div_mod::lemma_small_mod((w % m + 1) as nat, m as nat);
    }
    assert forall|p: int| 0 <= p < w + 1 && w + 1 - c <= p implies {
        &&& #[trigger] q2.slot_seq(p % c) as int == seq_for(p)
        &&& q2.slot_data(p % c) == q2.published@[p]
    } by {
        vstd::arithmetic::div_mod::lemma_mod_bound(p, c);
        if p != w {
            lemma_distinct_slots(w + 1 - c, p - (w + 1 - c), c - 1, c);
            assert(w + 1 - c + (c - 1) == w);
            assert(q2.slots@[p % c] == q.slots@[p % c]);
            assert(q.slot_seq(p % c) as int == seq_for(p));
        }
    }
    assert forall|j: int| w + 1 <= j < c implies #[trigger] q2.slot_seq(j) == 0 by {
        vstd::arithmetic::div_mod::lemma_small_mod(w as nat, c as nat);
        assert(q2.slots@[j] == q.slots@[j]);
        assert(q.slot_seq(j) == 0);
    }
}

/// Creates an SPMC broadcast queue with `CAPACITY` slots, its producer and
/// `NCONSUMERS` consumers. `CAPACITY` must be a power of two.
pub fn new<T: bytemuck::AnyBitPattern, const CAPACITY: usize, const NCONSUMERS: usize, A: Allocator>(
    options: Options<A>,
) -> (r: (Producer<T, CAPACITY>, [Consumer<T, CAPACITY>; NCONSUMERS], Queue<T, CAPACITY>))
    requires
        is_pow2(CAPACITY),
    ensures
        r.2.wf(),
        r.2.history() == Seq::<T>::empty(),
        r.2.write_cursor() == 0,
        forall|i: int|
            0 <= i < NCONSUMERS ==> (#[trigger] r.1@[i]).read_cursor() == 0
                && r.1@[i].cached_write_cursor() == 0,
{
    let mut slots = A::allocate::<Slot<T>>(CAPACITY, options.alloc);
    // Every slot starts at sequence number 0 with a zeroed payload, before any
    // producer or consumer can observe it.
    let mut ix: usize = 0;
    while ix < CAPACITY
        invariant
            ix <= CAPACITY,
            slots@.len() == CAPACITY,
            forall|j: int| 0 <= j < ix ==> (#[trigger] slots@[j]) is Some && slots@[j]->0.seq == 0,
            forall|j: int| ix <= j < CAPACITY ==> (#[trigger] slots@[j]) is None,
        decreases CAPACITY - ix,
    {
        slots[ix] = Some(Slot { seq: 0, data: UnsafeCell::new(zeroed_value::<T>()) });
        ix = ix + 1;
    }
    let q = Queue {
        producer_state: ProducerState { write_cursor: 0 },
        slots,
        published: Ghost(Seq::empty()),
    };
    proof {
        vstd::arithmetic::div_mod::lemma_small_mod(0, modulus() as nat);
    }
    let producer = Producer { _t: PhantomData };
    let consumers = new_consumers::<T, CAPACITY, NCONSUMERS>();
    (producer, consumers, q)
}

/// A zeroed value of `T`, through `bytemuck::Zeroable::zeroed`. Nothing is
/// stated of the value: the queue never hands out a payload it has not been
/// given, so the initial contents only need to exist.
#[verifier::external_body]
fn zeroed_value<T: bytemuck::Zeroable>() -> T {
    T::zeroed()
}

/// `NCONSUMERS` fresh consumers, built by `std::array::from_fn` with
/// [`Consumer::new`]; the contract restates that each element is what
/// `Consumer::new` returns.
#[verifier::external_body]
fn new_consumers<T, const CAPACITY: usize, const NCONSUMERS: usize>() -> (cs: [Consumer<
    T,
    CAPACITY,
>; NCONSUMERS])
    ensures
        forall|i: int|
            0 <= i < NCONSUMERS ==> (#[trigger] cs@[i]).read_cursor() == 0
                && cs@[i].cached_write_cursor() == 0,
{
    std::array::from_fn(|_| Consumer::new())
}

impl<T, const CAPACITY: usize> Queue<T, CAPACITY> {
    /// Publishes `value` at the write cursor, overwriting the oldest slot.
    pub fn publish(&mut self, value: T)
        requires
            old(self).wf(),
        ensures
            final(self).wf(),
            final(self).history() == old(self).history().push(value),
            final(self).write_cursor() as int == wrap_add(old(self).write_cursor() as int, 1),
    {
        let ghost q0 = *self;
        let w_pos = self.producer_state.write_cursor;
        proof {
            lemma_mask_is_mod(w_pos, CAPACITY);
            lemma_wrap_keeps_residue(self.published@.len() as int, CAPACITY);
            lemma_seq_arith(w_pos, 1, self.published@.len() as int);
            lemma_seq_arith(w_pos, 2, self.published@.len() as int);
        }
        // Used as both generation control and even-odd guarantee
        let seq_no = w_pos.wrapping_mul(2);
        let idx = w_pos & (CAPACITY - 1);
        let mut slot = self.slots[idx].take().unwrap();
        slot.seq = seq_no.wrapping_add(1);
        slot.data.replace(value);
        slot.seq = seq_no.wrapping_add(2);
        self.slots[idx] = Some(slot);
        self.producer_state.write_cursor = w_pos.wrapping_add(1);
        proof {
            self.published@ = self.published@.push(value);
            lemma_publish_step(&q0, self, value);
        }
    }

    /// The slot that position counter `i` maps to.
    fn slot(&self, i: usize) -> (s: &Slot<T>)
        requires
            self.wf(),
        ensures
            s.seq == self.slot_seq(i as int % CAPACITY as int),
            s.data.value() == self.slot_data(i as int % CAPACITY as int),
    {
        proof {
            lemma_mask_is_mod(i, CAPACITY);
        }
        self.slots[i & (CAPACITY - 1)].as_ref().unwrap()
    }
}

impl<T, const CAPACITY: usize> Producer<T, CAPACITY> {
    /// Publishes `value` into `queue`; never blocks. When the queue is full the
    /// oldest slot is overwritten, and consumers that had not read it see
    /// [`ReadResult::Lapped`] next.
    pub fn publish(&self, queue: &mut Queue<T, CAPACITY>, value: T)
        requires
            old(queue).wf(),
        ensures
            final(queue).wf(),
            final(queue).history() == old(queue).history().push(value),
            final(queue).write_cursor() as int == wrap_add(old(queue).write_cursor() as int, 1),
    {
        queue.publish(value)
    }
}

impl<T, const CAPACITY: usize> Consumer<T, CAPACITY> {
    /// This consumer's next read position, as a wrapping counter.
    pub closed spec fn read_cursor(&self) -> usize {
        self.state.read_cursor
    }

    /// The last write cursor this consumer observed.
    pub closed spec fn cached_write_cursor(&self) -> usize {
        self.state.cached_write_cursor
    }

    /// A consumer that has read nothing yet.
    pub fn new() -> (c: Self)
        ensures
            c.read_cursor() == 0,
            c.cached_write_cursor() == 0,
    {
        Consumer { state: ConsumerState { read_cursor: 0, cached_write_cursor: 0 }, _t: PhantomData }
    }

    /// The slot of `queue` that position counter `i` maps to.
    fn slot<'a>(&self, queue: &'a Queue<T, CAPACITY>, i: usize) -> (s: &'a Slot<T>)
        requires
            queue.wf(),
        ensures
            s.seq == queue.slot_seq(i as int % CAPACITY as int),
            s.data.value() == queue.slot_data(i as int % CAPACITY as int),
    {
        queue.slot(i)
    }

    fn is_still_empty(&mut self, queue: &Queue<T, CAPACITY>) -> (r: bool)
        ensures
            final(self).read_cursor() == old(self).read_cursor(),
            final(self).cached_write_cursor() == queue.write_cursor(),
            r == (old(self).read_cursor() == queue.write_cursor()),
    {
        self.state.cached_write_cursor = queue.producer_state.write_cursor;
        self.state.read_cursor == self.state.cached_write_cursor
    }
}

impl<T: Copy, const CAPACITY: usize> Consumer<T, CAPACITY> {
    /// Attempts to read the next value: [`ReadResult::Value`] with the value
    /// at the read cursor, [`ReadResult::Empty`] when nothing new was
    /// published, or [`ReadResult::Lapped`] when the slot was overwritten, in
    /// which case the cursor jumps to the most recent position.
    pub fn try_read(&mut self, queue: &Queue<T, CAPACITY>) -> (r: ReadResult<T>)
        requires
            queue.wf(),
        ensures
            (r, final(self).read_cursor(), final(self).cached_write_cursor()) == read_step(
                old(self).read_cursor(),
                old(self).cached_write_cursor(),
                queue,
            ),
    {
        if self.state.read_cursor == self.state.cached_write_cursor {
            // It still may not be empty
            if self.is_still_empty(queue) {
                return ReadResult::Empty;
            }
        }
        let read_cursor = self.state.read_cursor;
        let slot = self.slot(queue, read_cursor);
        let ghost j = read_cursor as int % CAPACITY as int;
        proof {
            lemma_mask_is_mod(read_cursor, CAPACITY);
            lemma_seq_state(queue, j);
            vstd::arithmetic::div_mod::lemma_small_mod(read_cursor as nat, modulus() as nat);
            lemma_seq_arith(read_cursor, 2, read_cursor as int);
        }
        // The sequence number the slot carries once the value for the read
        // cursor is written
        let expected_seq = read_cursor.wrapping_mul(2).wrapping_add(2);
        loop
            invariant
                queue.wf(),
                self.state.read_cursor == read_cursor,
                slot.seq == queue.slot_seq(j),
                slot.data.value() == queue.slot_data(j),
                slot.seq % 2 == 0,
                expected_seq as int == seq_for(read_cursor as int),
                j == read_cursor as int % CAPACITY as int,
                old(self).read_cursor() == read_cursor,
                old(self).read_cursor() != old(self).cached_write_cursor() ==> self.state.cached_write_cursor
                    == old(self).cached_write_cursor(),
                old(self).read_cursor() == old(self).cached_write_cursor() ==> self.state.cached_write_cursor
                    == queue.write_cursor() && read_cursor != queue.write_cursor(),
            decreases 0nat,
        {
            let seq1 = slot.seq;
            proof {
                lemma_even_low_bit(seq1);
            }
            // A write in progress shows an odd sequence number
            if seq1 & 1 == 1 {
                continue;
            }
            if seq1 != expected_seq {
                // Overwritten: reload the write cursor and jump to the most
                // recent position.
                self.state.cached_write_cursor = queue.producer_state.write_cursor;
                let new_r_cursor = self.state.cached_write_cursor.wrapping_sub(1);
                let skipped = new_r_cursor.wrapping_sub(self.state.read_cursor);
                self.state.read_cursor = new_r_cursor;
                return ReadResult::Lapped { skipped };
            }
            let attempted_read = *slot.data.get();
            let seq2 = slot.seq;
            if seq1 == seq2 {
                self.state.read_cursor = self.state.read_cursor.wrapping_add(1);
                return ReadResult::Value(attempted_read);
            }
            // Torn read: retry

        }
    }
}

/// A consumer whose read cursor stands for history position `pos` and whose
/// cached write cursor stands for a position `seen` it has observed follows
/// the history of `q`, less than half the counter range behind.
pub open spec fn follows<T, const CAPACITY: usize>(
    q: &Queue<T, CAPACITY>,
    read_cursor: usize,
    cached: usize,
    pos: int,
    seen: int,
) -> bool {
    &&& 0 <= pos <= seen <= q.history().len()
    &&& read_cursor as int == pos % modulus()
    &&& cached as int == seen % modulus()
    &&& q.history().len() - pos < modulus() / 2
}

/// In-order delivery: a read keeps a consumer following the history, at the
/// next position after a value, at the same position when nothing is new,
/// and at the most recent position after a lap.
pub proof fn lemma_read_keeps_following<T, const CAPACITY: usize>(
    q: &Queue<T, CAPACITY>,
    read_cursor: usize,
    cached: usize,
    pos: int,
    seen: int,
)
    requires
        q.wf(),
        follows(q, read_cursor, cached, pos, seen),
    ensures
        ({
            let w = q.history().len() as int;
            let (res, r2, c2) = read_step(read_cursor, cached, q);
            &&& res is Empty ==> follows(q, r2, c2, pos, w)
            &&& res is Value ==> follows(q, r2, c2, pos + 1, if pos == seen { w } else { seen })
            &&& res is Lapped ==> follows(q, r2, c2, w - 1, w)
        }),
{
    lemma_read_delivers(q, read_cursor, cached, pos, seen);
    let w = q.history().len() as int;
    vstd::arithmetic::div_mod::lemma_small_mod(1, modulus() as nat);
    lemma_pow2_divides_modulus(CAPACITY);
}

/// Publishing keeps every consumer that follows the history following it,
/// as long as it stays less than half the counter range behind.
pub proof fn lemma_publish_keeps_following<T, const CAPACITY: usize>(
    q: &Queue<T, CAPACITY>,
    q2: &Queue<T, CAPACITY>,
    value: T,
    read_cursor: usize,
    cached: usize,
    pos: int,
    seen: int,
)
    requires
        q2.history() == q.history().push(value),
        follows(q, read_cursor, cached, pos, seen),
        q.history().len() + 1 - pos < modulus() / 2,
    ensures
        follows(q2, read_cursor, cached, pos, seen),
{
}

/// Broadcast delivery. A consumer whose read cursor stands for history
/// position `pos`, and whose cached write cursor stands for a position `seen`
/// it has observed (`pos <= seen <=` the number published), reads:
/// `Empty` when it has seen every published value; the value published at
/// `pos` when it is at most `CAPACITY` positions behind; otherwise `Lapped`,
/// skipping the values it missed and moving to the most recent position.
/// Stated for consumers less than half the counter range behind, beyond which
/// wrapped sequence numbers can coincide.
pub proof fn lemma_read_delivers<T, const CAPACITY: usize>(
    q: &Queue<T, CAPACITY>,
    read_cursor: usize,
    cached: usize,
    pos: int,
    seen: int,
)
    requires
        q.wf(),
        0 <= pos <= seen <= q.history().len(),
        read_cursor as int == pos % modulus(),
        cached as int == seen % modulus(),
        q.history().len() - pos < modulus() / 2,
    ensures
        ({
            let w = q.history().len() as int;
            let (res, r2, c2) = read_step(read_cursor, cached, q);
            &&& pos == w ==> res == ReadResult::<T>::Empty && r2 == read_cursor && c2 as int == w
                % modulus()
            &&& pos < w && w - pos <= CAPACITY ==> res == ReadResult::Value(q.history()[pos]) && r2
                as int == (pos + 1) % modulus() && c2 as int == (if pos == seen {
                w
            } else {
                seen
            }) % modulus()
            &&& w - pos > CAPACITY ==> res == ReadResult::<T>::Lapped {
                skipped: (w - 1 - pos) as usize,
            } && r2 as int == (w - 1) % modulus() && c2 as int == w % modulus()
        }),
{
    let w = q.history().len() as int;
    let c = CAPACITY as int;
    let m = modulus();
    lemma_pow2_divides_modulus(CAPACITY);
    lemma_dist_of_residues(pos, seen);
    lemma_dist_of_residues(pos, w);
    lemma_wrap_keeps_residue(pos, CAPACITY);
    lemma_seq_for_residue(pos);
    lemma_wrap_add_mod(pos, 1);
    let j = pos % c;
    vstd::arithmetic::div_mod::lemma_mod_bound(pos, c);
    if pos < w && w - pos <= c {
        assert(q.slot_seq(pos % c) as int == seq_for(pos));
    } else if w - pos > c {
        // the position in the window that now occupies the slot of `pos`
        let k = (w - 1 - pos) / c;
        let p = pos + c * k;
        vstd::arithmetic::div_mod::lemma_fundamental_div_mod(w - 1 - pos, c);
        vstd::arithmetic::div_mod::lemma_mod_bound(w - 1 - pos, c);
        vstd::arithmetic::div_mod::lemma_div_pos_is_pos(w - 1 - pos, c);
        assert(k >= 1) by {
            vstd::arithmetic::div_mod::lemma_div_is_ordered(c, w - 1 - pos, c);
            vstd::arithmetic::div_mod::lemma_div_by_self(c);
        }
        assert(c * k >= c) by (nonlinear_arith)
            requires
                k >= 1,
                c > 0,
        ;
        assert(w - c <= p < w);
        vstd::arithmetic::div_mod::lemma_mod_multiples_vanish(k, pos, c);
        assert(p % c == j);
        assert(q.slot_seq(p % c) as int == seq_for(p));
        // sequence numbers of positions less than half the range apart differ
        vstd::arithmetic::div_mod::lemma_mod_equivalence(2 * p + 2, 2 * pos + 2, m);
        vstd::arithmetic::div_mod::lemma_small_mod((2 * (p - pos)) as nat, m as nat);
        assert(seq_for(p) != seq_for(pos));
        lemma_pred_mod(w);
        lemma_dist_of_residues(pos, w - 1);
    }
}

/// How far a read result moves a consumer through the history: one
/// position for a value, the skipped count for a lap, none when empty.
pub open spec fn read_credit<T>(r: ReadResult<T>) -> int {
    match r {
        ReadResult::Value(_) => 1,
        ReadResult::Empty => 0,
        ReadResult::Lapped { skipped } => skipped as int,
    }
}

/// The history positions a run of read results accounts for.
pub open spec fn total_credit<T>(rs: Seq<ReadResult<T>>) -> int
    decreases rs.len(),
{
    if rs.len() == 0 {
        0
    } else {
        total_credit(rs.drop_last()) + read_credit(rs.last())
    }
}

/// `results` are the outcomes of successive reads by one consumer, read `i`
/// made on the queue as it stood in `qs[i]`, with `cursors[i]` the
/// consumer's read cursor and cached write cursor before it.
pub open spec fn is_read_trace<T, const CAPACITY: usize>(
    qs: Seq<Queue<T, CAPACITY>>,
    cursors: Seq<(usize, usize)>,
    results: Seq<ReadResult<T>>,
) -> bool {
    &&& results.len() == qs.len()
    &&& cursors.len() == qs.len() + 1
    &&& forall|i: int|
        0 <= i < qs.len() ==> #[trigger] read_step(cursors[i].0, cursors[i].1, &qs[i]) == (
            results[i],
            cursors[i + 1].0,
            cursors[i + 1].1,
        )
}

/// Between reads the queue only gains published values: each state's
/// history extends the previous one, every state is well formed, and fewer
/// than half the counter range of values have been published.
pub open spec fn publishes_between<T, const CAPACITY: usize>(qs: Seq<Queue<T, CAPACITY>>) -> bool {
    &&& forall|i: int| 0 <= i < qs.len() ==> (#[trigger] qs[i]).wf()
    &&& forall|i: int| 0 <= i < qs.len() ==> (#[trigger] qs[i]).history().len() < modulus() / 2
    &&& forall|i: int|
        0 <= i < qs.len() - 1 ==> (#[trigger] qs[i]).history().is_prefix_of(qs[i + 1].history())
}

/// The credit of a run grows by the credit of its last read.
proof fn lemma_total_credit_step<T>(rs: Seq<ReadResult<T>>, n: int)
    requires
        0 < n <= rs.len(),
    ensures
        total_credit(rs.take(n)) == total_credit(rs.take(n - 1)) + read_credit(rs[n - 1]),
{
    assert(rs.take(n).drop_last() =~= rs.take(n - 1));
}

/// One read by a consumer that follows the history: its new position is
/// the old one plus the read's credit, and a value read is the one
/// published at the old position.
proof fn lemma_read_credit<T, const CAPACITY: usize>(
    q: &Queue<T, CAPACITY>,
    read_cursor: usize,
    cached: usize,
    pos: int,
    seen: int,
) -> (seen2: int)
    requires
        q.wf(),
        follows(q, read_cursor, cached, pos, seen),
    ensures
        ({
            let (res, r2, c2) = read_step(read_cursor, cached, q);
            &&& follows(q, r2, c2, pos + read_credit(res), seen2)
            &&& res matches ReadResult::Value(v) ==> pos < q.history().len() && v == q.history()[pos]
            &&& pos == q.history().len() ==> res is Empty
            &&& q.history().len() - pos <= CAPACITY ==> !(res is Lapped)
        }),
{
    lemma_read_delivers(q, read_cursor, cached, pos, seen);
    lemma_read_keeps_following(q, read_cursor, cached, pos, seen);
    let w = q.history().len() as int;
    let (res, r2, c2) = read_step(read_cursor, cached, q);
    if pos == w {
        w
    } else if w - pos <= CAPACITY {
        if pos == seen {
            w
        } else {
            seen
        }
    } else {
        assert(0 <= w - 1 - pos < modulus() / 2);
        assert(read_credit(res) == w - 1 - pos);
        w
    }
}

/// Reads by a fresh consumer, up to read `n`: where the consumer stands
/// and what the values it read were.
proof fn lemma_trace_prefix<T, const CAPACITY: usize>(
    qs: Seq<Queue<T, CAPACITY>>,
    cursors: Seq<(usize, usize)>,
    results: Seq<ReadResult<T>>,
    n: int,
) -> (seen: int)
    requires
        is_read_trace(qs, cursors, results),
        publishes_between(qs),
        cursors[0] == (0usize, 0usize),
        1 <= n <= qs.len(),
    ensures
        follows(&qs[n - 1], cursors[n].0, cursors[n].1, total_credit(results.take(n)), seen),
        forall|i: int|
            0 <= i < n ==> (#[trigger] results[i] matches ReadResult::Value(v) ==> v
                == qs[i].history()[total_credit(results.take(i))]),
    decreases n,
{
    let k = n - 1;
    let q = qs[k];
    assert(q.wf() && q.history().len() < modulus() / 2);
    let seen0 = if n == 1 {
        assert(results.take(0) =~= Seq::<ReadResult<T>>::empty());
        vstd::arithmetic::div_mod::lemma_small_mod(0, modulus() as nat);
        0
    } else {
        let s = lemma_trace_prefix(qs, cursors, results, k);
        let p = qs[k - 1];
        assert(p.history().is_prefix_of(q.history()));
        s
    };
    let pos = total_credit(results.take(k));
    assert(follows(&q, cursors[k].0, cursors[k].1, pos, seen0));
    assert(read_step(cursors[k].0, cursors[k].1, &q) == (results[k], cursors[k + 1].0, cursors[k + 1].1));
    let seen2 = lemma_read_credit(&q, cursors[k].0, cursors[k].1, pos, seen0);
    lemma_total_credit_step(results, n);
    seen2
}

/// Accounting law: a consumer fresh from [`new`] that reads while values
/// are published loses nothing and counts nothing twice. After any run of
/// reads, the values it read plus the skipped counts of its laps make up
/// exactly the position of the next value it will return, which never
/// exceeds the number published; each value it read is the one published at
/// its position. Stated while fewer than half the counter range of values
/// have been published.
pub proof fn lemma_reads_account<T, const CAPACITY: usize>(
    qs: Seq<Queue<T, CAPACITY>>,
    cursors: Seq<(usize, usize)>,
    results: Seq<ReadResult<T>>,
)
    requires
        is_read_trace(qs, cursors, results),
        publishes_between(qs),
        cursors[0] == (0usize, 0usize),
    ensures
        qs.len() > 0 ==> total_credit(results) <= qs.last().history().len(),
        cursors.last().0 as int == total_credit(results) % modulus(),
        forall|i: int|
            0 <= i < results.len() ==> (#[trigger] results[i] matches ReadResult::Value(v) ==> v
                == qs[i].history()[total_credit(results.take(i))]),
{
    let n = qs.len() as int;
    assert(results.take(n) =~= results);
    if n == 0 {
        vstd::arithmetic::div_mod::lemma_small_mod(0, modulus() as nat);
    } else {
        let _ = lemma_trace_prefix(qs, cursors, results, n);
    }
}

/// Reads on an unchanged queue by a consumer at most `CAPACITY` behind,
/// up to read `n`.
proof fn lemma_within_capacity_prefix<T, const CAPACITY: usize>(
    q: &Queue<T, CAPACITY>,
    cursors: Seq<(usize, usize)>,
    results: Seq<ReadResult<T>>,
    pos: int,
    seen: int,
    n: int,
) -> (seen_n: int)
    requires
        q.wf(),
        follows(q, cursors[0].0, cursors[0].1, pos, seen),
        q.history().len() - pos <= CAPACITY,
        cursors.len() == results.len() + 1,
        forall|i: int|
            0 <= i < results.len() ==> #[trigger] read_step(cursors[i].0, cursors[i].1, q) == (
                results[i],
                cursors[i + 1].0,
                cursors[i + 1].1,
            ),
        0 <= n <= results.len(),
    ensures
        follows(
            q,
            cursors[n].0,
            cursors[n].1,
            if pos + n < q.history().len() {
                pos + n
            } else {
                q.history().len() as int
            },
            seen_n,
        ),
        forall|i: int|
            0 <= i < n ==> #[trigger] results[i] == (if pos + i < q.history().len() {
                ReadResult::Value(q.history()[pos + i])
            } else {
                ReadResult::<T>::Empty
            }),
    decreases n,
{
    if n == 0 {
        seen
    } else {
        let k = n - 1;
        let s = lemma_within_capacity_prefix(q, cursors, results, pos, seen, k);
        let w = q.history().len() as int;
        let p = if pos + k < w {
            pos + k
        } else {
            w
        };
        assert(read_step(cursors[k].0, cursors[k].1, q) == (results[k], cursors[k + 1].0, cursors[k + 1].1));
        lemma_read_delivers(q, cursors[k].0, cursors[k].1, p, s);
        lemma_read_credit(q, cursors[k].0, cursors[k].1, p, s)
    }
}

/// Reads without laps: a consumer following the history at most
/// `CAPACITY` positions behind reads, on an unchanged queue, every later
/// value in order and then `Empty`, never `Lapped`.
pub proof fn lemma_reads_within_capacity<T, const CAPACITY: usize>(
    q: &Queue<T, CAPACITY>,
    cursors: Seq<(usize, usize)>,
    results: Seq<ReadResult<T>>,
    pos: int,
    seen: int,
)
    requires
        q.wf(),
        follows(q, cursors[0].0, cursors[0].1, pos, seen),
        q.history().len() - pos <= CAPACITY,
        cursors.len() == results.len() + 1,
        forall|i: int|
            0 <= i < results.len() ==> #[trigger] read_step(cursors[i].0, cursors[i].1, q) == (
                results[i],
                cursors[i + 1].0,
                cursors[i + 1].1,
            ),
    ensures
        forall|i: int|
            0 <= i < results.len() ==> #[trigger] results[i] == (if pos + i < q.history().len() {
                ReadResult::Value(q.history()[pos + i])
            } else {
                ReadResult::<T>::Empty
            }),
{
    let _ = lemma_within_capacity_prefix(q, cursors, results, pos, seen, results.len() as int);
}

/// Publishing never laps a consumer within capacity: after a publish that
/// leaves a following consumer at most `CAPACITY` positions behind, its
/// reads return the values from its position on, the new one last, and then
/// `Empty`, never `Lapped`.
pub proof fn lemma_publish_within_capacity<T, const CAPACITY: usize>(
    q: &Queue<T, CAPACITY>,
    q2: &Queue<T, CAPACITY>,
    value: T,
    cursors: Seq<(usize, usize)>,
    results: Seq<ReadResult<T>>,
    pos: int,
    seen: int,
)
    requires
        q2.wf(),
        q2.history() == q.history().push(value),
        follows(q, cursors[0].0, cursors[0].1, pos, seen),
        q.history().len() + 1 - pos <= CAPACITY,
        q.history().len() + 1 - pos < modulus() / 2,
        cursors.len() == results.len() + 1,
        forall|i: int|
            0 <= i < results.len() ==> #[trigger] read_step(cursors[i].0, cursors[i].1, q2) == (
                results[i],
                cursors[i + 1].0,
                cursors[i + 1].1,
            ),
    ensures
        forall|i: int|
            0 <= i < results.len() ==> #[trigger] results[i] == (if pos + i < q2.history().len() {
                ReadResult::Value(q2.history()[pos + i])
            } else {
                ReadResult::<T>::Empty
            }),
{
    lemma_publish_keeps_following(q, q2, value, cursors[0].0, cursors[0].1, pos, seen);
    lemma_reads_within_capacity(q2, cursors, results, pos, seen);
}

/// The sequence number of a wrapped counter is that of its position.
proof fn lemma_seq_for_residue(p: int)
    requires
        0 <= p,
    ensures
        seq_for(p % modulus()) == seq_for(p),
{
    let m = modulus();
    vstd::arithmetic::div_mod::lemma_mul_mod_noop_right(2, p, m);
    vstd::arithmetic::div_mod::lemma_add_mod_noop(2 * (p % m), 2, m);
    vstd::arithmetic::div_mod::lemma_add_mod_noop(2 * p, 2, m);
    vstd::arithmetic::div_mod::lemma_small_mod(2, m as nat);
}

/// Every slot of a well-formed queue carries an even sequence number.
proof fn lemma_seq_state<T, const CAPACITY: usize>(q: &Queue<T, CAPACITY>, j: int)
    requires
        q.wf(),
        0 <= j < CAPACITY,
    ensures
        q.slot_seq(j) % 2 == 0,
{
    let w = q.published@.len() as int;
    let c = CAPACITY as int;
    if j >= w {
    } else {
        // the position in the window that uses slot j
        let p = j + c * ((w - 1 - j) / c);
        vstd::arithmetic::div_mod::lemma_fundamental_div_mod(w - 1 - j, c);
        vstd::arithmetic::div_mod::lemma_mod_bound(w - 1 - j, c);
        assert(0 <= (w - 1 - j) / c) by {
            vstd::arithmetic::div_mod::lemma_div_pos_is_pos(w - 1 - j, c);
        }
        assert(c * ((w - 1 - j) / c) >= 0) by (nonlinear_arith)
            requires
                c > 0,
                (w - 1 - j) / c >= 0,
        ;
        vstd::arithmetic::div_mod::lemma_mod_multiples_vanish((w - 1 - j) / c, j, c);
        vstd::arithmetic::div_mod::lemma_small_mod(j as nat, c as nat);
        assert(p % c == j);
        assert(q.slot_seq(p % c) as int == seq_for(p));
        lemma_seq_even(p);
    }
}

/// An even counter has a clear low bit.
proof fn lemma_even_low_bit(x: usize)
    requires
        x % 2 == 0,
    ensures
        x & 1 == 0,
{
    assert(x % 2 == 0 ==> x & 1 == 0) by (bit_vector);
}

} // verus!
