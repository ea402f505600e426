use std::marker::PhantomData;

use vstd::prelude::*;

use crate::mem::{Allocator, HugepageAllocator, HugepageAllocatorOptions, HugepageSize};
use crate::ring::{
    dist, is_pow2, lemma_distinct_slots, lemma_full_turn, lemma_mask_is_mod,
    lemma_dist_succ, lemma_unwrap_keeps_residue, lemma_wrap_add_residue, modulus, wrap_add,
};
use crate::spsc::builder::Options;

verus! {

/// State written only by the producer side: the published tail and the
/// producer's last observation of the head.
pub struct ProducerState {
    pub(crate) tail: usize,
    pub(crate) cached_head: usize,
}

/// State written only by the consumer side: the published head and the
/// consumer's last observation of the tail.
pub struct ConsumerState {
    pub(crate) head: usize,
    pub(crate) cached_tail: usize,
}

/// The shared ring of an SPSC queue: `CAPACITY` slots addressed by the
/// free-running `head` and `tail` counters.
pub struct Queue<T, const CAPACITY: usize> {
    producer_state: ProducerState,
    consumer_state: ConsumerState,
    slots_allocation: Vec<Option<T>>,
}

/// The pushing handle of an SPSC queue. It keeps its own copy of the tail it
/// publishes and of the last head it observed.
pub struct Producer<T, const CAPACITY: usize> {
    cached_head: usize,
    cached_tail: usize,
    _t: PhantomData<T>,
}

/// The popping handle of an SPSC queue. It keeps its own copy of the head it
/// publishes and of the last tail it observed.
pub struct Consumer<T, const CAPACITY: usize> {
    cached_head: usize,
    cached_tail: usize,
    _t: PhantomData<T>,
}

impl<T, const CAPACITY: usize> Queue<T, CAPACITY> {
    /// Number of items currently held.
    #[verifier::inline]
    spec fn spec_len(&self) -> int {
        dist(self.consumer_state.head as int, self.producer_state.tail as int)
    }

    /// Physical slot of the item at logical offset `i` from the head.
    #[verifier::inline]
    spec fn slot_of(&self, i: int) -> int {
        (self.consumer_state.head as int + i) % (CAPACITY as int)
    }

    /// The slots themselves, in physical order.
    pub closed spec fn slots(&self) -> Seq<Option<T>> {
        self.slots_allocation@
    }

    /// The published head counter.
    pub closed spec fn head(&self) -> usize {
        self.consumer_state.head
    }

    /// The published tail counter.
    pub closed spec fn tail(&self) -> usize {
        self.producer_state.tail
    }

    /// Well-formedness: a power-of-two ring whose occupied slots are exactly
    /// the `spec_len()` slots following the head.
    pub closed spec fn wf(&self) -> bool {
        &&& is_pow2(CAPACITY)
        &&& self.slots_allocation@.len() == CAPACITY
        &&& 0 <= self.spec_len() <= CAPACITY
        &&& ring_occupied(
            self.slots_allocation@,
            self.consumer_state.head as int,
            self.spec_len(),
            CAPACITY as int,
        )
    }

    /// The queue's own cached counters lag the real ones: the cached head lies
    /// between an earlier head and the current one, the cached tail between
    /// the head and the tail.
    pub closed spec fn caches_ok(&self) -> bool {
        let h = self.consumer_state.head as int;
        let t = self.producer_state.tail as int;
        let ch = self.producer_state.cached_head as int;
        let ct = self.consumer_state.cached_tail as int;
        &&& dist(ch, t) <= CAPACITY
        &&& dist(ch, h) + self.spec_len() == dist(ch, t)
        &&& dist(h, ct) + dist(ct, t) == self.spec_len()
    }
}

impl<T, const CAPACITY: usize> View for Queue<T, CAPACITY> {
    type V = Seq<T>;

    /// The items in FIFO order, oldest first.
    closed spec fn view(&self) -> Seq<T> {
        ring_items(
            self.slots_allocation@,
            self.consumer_state.head as int,
            self.spec_len(),
            CAPACITY as int,
        )
    }
}

/// The FIFO model of a push onto a queue holding `s` with room for `cap`
/// items: the new contents and what the push hands back.
pub open spec fn fifo_push<T>(s: Seq<T>, cap: nat, item: T) -> (Seq<T>, Option<T>) {
    if s.len() >= cap {
        (s, Some(item))
    } else {
        (s.push(item), None)
    }
}

/// The FIFO model of a pop from a queue holding `s`: the new contents and
/// the item popped, if any.
pub open spec fn fifo_pop<T>(s: Seq<T>) -> (Seq<T>, Option<T>) {
    if s.len() == 0 {
        (s, None)
    } else {
        (s.drop_first(), Some(s[0]))
    }
}

/// Contents after pushing `items` one by one onto `s`.
pub open spec fn push_each<T>(s: Seq<T>, cap: nat, items: Seq<T>) -> Seq<T>
    decreases items.len(),
{
    if items.len() == 0 {
        s
    } else {
        push_each(fifo_push(s, cap, items[0]).0, cap, items.skip(1))
    }
}

/// The items returned by `k` pops from `s`, in order, `None` for a pop on
/// an empty queue.
pub open spec fn pop_each<T>(s: Seq<T>, k: nat) -> Seq<Option<T>>
    decreases k,
{
    if k == 0 {
        Seq::empty()
    } else {
        seq![fifo_pop(s).1] + pop_each(fifo_pop(s).0, (k - 1) as nat)
    }
}

/// FIFO law: up to `cap` items pushed onto a queue holding `s` are all
/// accepted and, after the items already held, come back out in the order
/// they were pushed; once `cap` items are held a further push is refused.
pub proof fn lemma_fifo_order<T>(s: Seq<T>, cap: nat, items: Seq<T>)
    requires
        s.len() + items.len() <= cap,
    ensures
        push_each(s, cap, items) == s + items,
        pop_each(s + items, (s.len() + items.len()) as nat) == (s + items).map_values(
            |x: T| Some(x),
        ),
        s.len() + items.len() == cap ==> forall|x: T|
            #[trigger] fifo_push(push_each(s, cap, items), cap, x) == (push_each(s, cap, items), Some(x)),
    decreases items.len(),
{
    if items.len() > 0 {
        assert(s.push(items[0]) + items.skip(1) =~= s + items);
        lemma_fifo_order(s.push(items[0]), cap, items.skip(1));
    }
    lemma_pop_all(s + items);
}

/// Popping everything from a queue returns its items in order.
pub proof fn lemma_pop_all<T>(s: Seq<T>)
    ensures
        pop_each(s, s.len()) == s.map_values(|x: T| Some(x)),
    decreases s.len(),
{
    if s.len() > 0 {
        lemma_pop_all(s.drop_first());
        assert(pop_each(s, s.len()) =~= s.map_values(|x: T| Some(x)));
    } else {
        assert(pop_each(s, s.len()) =~= s.map_values(|x: T| Some(x)));
    }
}

/// Occupancy of a ring: of the `c` slots following `head`, exactly the first
/// `len` hold an item.
pub open spec fn ring_occupied<T>(slots: Seq<Option<T>>, head: int, len: int, c: int) -> bool {
    forall|i: int| 0 <= i < c ==> ((#[trigger] slots[(head + i) % c]) is Some <==> i < len)
}

/// The `len` items following `head`, oldest first.
pub open spec fn ring_items<T>(slots: Seq<Option<T>>, head: int, len: int, c: int) -> Seq<T> {
    Seq::new(len as nat, |i: int| slots[(head + i) % c]->0)
}

/// The slot that follows the last item is the slot of the tail counter.
proof fn lemma_tail_slot<T, const CAPACITY: usize>(q: &Queue<T, CAPACITY>)
    requires
        q.wf(),
    ensures
        (q.producer_state.tail as int) % (CAPACITY as int) == q.slot_of(q.spec_len()),
        (q.consumer_state.head as int) % (CAPACITY as int) == q.slot_of(0),
{
    let h = q.consumer_state.head as int;
    let t = q.producer_state.tail as int;
    if t < h {
        lemma_wrap_add_residue(h, q.spec_len(), CAPACITY);
    }
}

/// Storing `item` in the free slot after the last item and advancing the tail
/// appends `item`.
proof fn lemma_append<T, const CAPACITY: usize>(
    q: &Queue<T, CAPACITY>,
    q2: &Queue<T, CAPACITY>,
    item: T,
)
    requires
        q.wf(),
        q.spec_len() < CAPACITY,
        q2.consumer_state.head == q.consumer_state.head,
        q2.producer_state.tail as int == wrap_add(q.producer_state.tail as int, 1),
        q2.slots_allocation@ == q.slots_allocation@.update(q.slot_of(q.spec_len()), Some(item)),
    ensures
        q2.wf(),
        q2.spec_len() == q.spec_len() + 1,
        q2@ == q@.push(item),
{
    let c = CAPACITY as int;
    let n = q.spec_len();
    assert(q2.spec_len() == n + 1);
    assert forall|i: int| 0 <= i < c implies ((#[trigger] q2.slots_allocation@[q2.slot_of(i)]) is Some
        <==> i < q2.spec_len()) by {
        if i != n {
            lemma_distinct_slots(q.consumer_state.head as int, i, n, c);
        }
        assert(q2.slot_of(i) == q.slot_of(i));
    }
    assert forall|i: int| 0 <= i < n implies #[trigger] q2.slots_allocation@[q2.slot_of(i)] == q.slots_allocation@[q.slot_of(i)] by {
        lemma_distinct_slots(q.consumer_state.head as int, i, n, c);
    }
    assert(q2@ =~= q@.push(item));
}

/// Taking the head slot and advancing the head drops the first item.
proof fn lemma_remove_first<T, const CAPACITY: usize>(
    q: &Queue<T, CAPACITY>,
    q2: &Queue<T, CAPACITY>,
)
    requires
        q.wf(),
        q.spec_len() > 0,
        q2.producer_state.tail == q.producer_state.tail,
        q2.consumer_state.head as int == wrap_add(q.consumer_state.head as int, 1),
        q2.slots_allocation@ == q.slots_allocation@.update(q.slot_of(0), None),
    ensures
        q2.wf(),
        q2.spec_len() == q.spec_len() - 1,
        q2@ == q@.drop_first(),
{
    let c = CAPACITY as int;
    let h = q.consumer_state.head as int;
    let n = q.spec_len();
    assert(q2.spec_len() == n - 1);
    assert forall|i: int| -1 <= i < c - 1 implies #[trigger] q2.slot_of(i) == q.slot_of(i + 1) by {
        if h + 1 > usize::MAX {
            lemma_unwrap_keeps_residue(h + 1 + i, CAPACITY);
        }
    }
    assert forall|i: int| 0 <= i < c implies ((#[trigger] q2.slots_allocation@[q2.slot_of(i)]) is Some
        <==> i < q2.spec_len()) by {
        if i < c - 1 {
            lemma_distinct_slots(h, i + 1, 0, c);
        } else {
            if h + 1 > usize::MAX {
                lemma_unwrap_keeps_residue(h + 1 + i, CAPACITY);
            }
            lemma_full_turn(h, c);
            assert(q2.slot_of(i) == q.slot_of(0));
        }
    }
    assert forall|i: int| 0 <= i < n - 1 implies #[trigger] q2.slots_allocation@[q2.slot_of(i)] == q.slots_allocation@[q.slot_of(i + 1)] by {
        lemma_distinct_slots(h, i + 1, 0, c);
    }
    assert(q2@ =~= q@.drop_first());
}

/// Creates an empty queue with `CAPACITY` slots, together with its producer
/// and consumer handles. `CAPACITY` must be a power of two.
pub fn new<T, const CAPACITY: usize, A: Allocator>(options: Options<A>) -> (r: (
    Producer<T, CAPACITY>,
    Consumer<T, CAPACITY>,
    Queue<T, CAPACITY>,
))
    requires
        is_pow2(CAPACITY),
    ensures
        r.2.wf(),
        r.2.caches_ok(),
        r.2@ == Seq::<T>::empty(),
        r.0.paired(&r.2),
        r.1.paired(&r.2),
{
    let slots_allocation = A::allocate::<T>(CAPACITY, options.alloc);
    let q = Queue {
        producer_state: ProducerState { tail: 0, cached_head: 0 },
        consumer_state: ConsumerState { head: 0, cached_tail: 0 },
        slots_allocation,
    };
    proof {
        lemma_mask_is_mod(0, CAPACITY);
        assert forall|i: int| 0 <= i < CAPACITY implies ((#[trigger] q.slots_allocation@[q.slot_of(i)]) is Some
            <==> i < q.spec_len()) by {
            vstd::arithmetic::div_mod::lemma_small_mod(i as nat, CAPACITY as nat);
        }
        assert(q@ =~= Seq::<T>::empty());
    }
    let producer = Producer::new();
    let consumer = Consumer::new();
    (producer, consumer, q)
}

/// Creates an empty queue, as [`new`] does, requesting its slot buffer from
/// the hugepage allocator with options for 2 MiB pages locked in memory. The
/// slots it hands out are an ordinary buffer (see
/// [`HugepageAllocator`]); placing them in hugepages and locking them is left
/// to the embedding program.
pub fn new_hugepage_backed<T, const CAPACITY: usize>() -> (r: (
    Producer<T, CAPACITY>,
    Consumer<T, CAPACITY>,
    Queue<T, CAPACITY>,
))
    requires
        is_pow2(CAPACITY),
    ensures
        r.2.wf(),
        r.2.caches_ok(),
        r.2@ == Seq::<T>::empty(),
        r.0.paired(&r.2),
        r.1.paired(&r.2),
{
    let options = HugepageAllocatorOptions::new(true, HugepageSize::H2MB);
    new::<T, CAPACITY, HugepageAllocator>(Options::new(options))
}

impl<T, const CAPACITY: usize> Queue<T, CAPACITY> {
    /// The slot buffer itself, in physical order, for the embedding program
    /// to lock in memory or inspect.
    pub fn slot_buffer(&self) -> (r: &[Option<T>])
        ensures
            r@ == self.slots(),
    {
        self.slots_allocation.as_slice()
    }
}

impl<T, const CAPACITY: usize> Queue<T, CAPACITY> {
    /// Pops the oldest item, or returns `None` when the queue is empty.
    pub fn pop(&mut self) -> (r: Option<T>)
        requires
            old(self).wf(),
            old(self).caches_ok(),
        ensures
            final(self).wf(),
            final(self).caches_ok(),
            (final(self)@, r) == fifo_pop(old(self)@),
    {
        let head = self.consumer_state.head;
        if head == self.consumer_state.cached_tail {
            // it still may not be empty
            if self.pop_still_empty(head) {
                return None;
            }
        }
        let ghost q0 = *self;
        proof {
            lemma_mask_is_mod(head, CAPACITY);
            lemma_tail_slot(self);
        }
        let idx = head & (CAPACITY - 1);
        let item = self.slots_allocation[idx].take();
        self.consumer_state.head = head.wrapping_add(1);
        proof {
            lemma_remove_first(&q0, self);
            lemma_dist_succ(head, q0.consumer_state.cached_tail);
            lemma_dist_succ(head, q0.producer_state.tail);
            lemma_dist_succ(q0.consumer_state.cached_tail, q0.producer_state.tail);
            lemma_dist_succ(q0.producer_state.cached_head, head);
            lemma_dist_succ(head, q0.producer_state.cached_head);
        }
        item
    }

    fn pop_still_empty(&mut self, head: usize) -> (r: bool)
        requires
            old(self).wf(),
            old(self).caches_ok(),
            head == old(self).consumer_state.head,
        ensures
            final(self).wf(),
            final(self).caches_ok(),
            final(self)@ == old(self)@,
            final(self).consumer_state.head == old(self).consumer_state.head,
            final(self).producer_state.tail == old(self).producer_state.tail,
            final(self).slots_allocation@ == old(self).slots_allocation@,
            final(self).consumer_state.cached_tail == final(self).producer_state.tail,
            r == (old(self)@.len() == 0),
    {
        self.consumer_state.cached_tail = self.producer_state.tail;
        head == self.consumer_state.cached_tail
    }

    /// Pushes `item`; when the queue already holds `CAPACITY` items the item is
    /// handed back unchanged as `Some(item)`.
    pub fn push(&mut self, item: T) -> (r: Option<T>)
        requires
            old(self).wf(),
            old(self).caches_ok(),
        ensures
            final(self).wf(),
            final(self).caches_ok(),
            old(self)@.len() <= CAPACITY,
            (final(self)@, r) == fifo_push(old(self)@, CAPACITY as nat, item),
    {
        let tail = self.producer_state.tail;
        if tail.wrapping_sub(self.producer_state.cached_head) >= CAPACITY {
            // it still may not be full
            if self.push_still_full(tail) {
                return Some(item);
            }
        }
        let ghost q0 = *self;
        proof {
            lemma_mask_is_mod(tail, CAPACITY);
            lemma_tail_slot(self);
        }
        let idx = tail & (CAPACITY - 1);
        self.slots_allocation[idx] = Some(item);
        self.producer_state.tail = tail.wrapping_add(1);
        proof {
            lemma_append(&q0, self, item);
            lemma_dist_succ(tail, q0.producer_state.cached_head);
            lemma_dist_succ(tail, q0.consumer_state.cached_tail);
            lemma_dist_succ(tail, q0.consumer_state.head);
        }
        None
    }

    fn push_still_full(&mut self, tail: usize) -> (r: bool)
        requires
            old(self).wf(),
            old(self).caches_ok(),
            tail == old(self).producer_state.tail,
        ensures
            final(self).wf(),
            final(self).caches_ok(),
            final(self)@ == old(self)@,
            final(self).consumer_state.head == old(self).consumer_state.head,
            final(self).producer_state.tail == old(self).producer_state.tail,
            final(self).slots_allocation@ == old(self).slots_allocation@,
            final(self).producer_state.cached_head == final(self).consumer_state.head,
            r == (old(self)@.len() == CAPACITY),
    {
        self.producer_state.cached_head = self.consumer_state.head;
        tail.wrapping_sub(self.producer_state.cached_head) >= CAPACITY
    }
}

impl<T, const CAPACITY: usize> Producer<T, CAPACITY> {
    /// The producer's copy of the tail is the queue's tail, and its cached head
    /// is an earlier head of the queue.
    pub closed spec fn paired(&self, q: &Queue<T, CAPACITY>) -> bool {
        let h = q.consumer_state.head as int;
        let t = q.producer_state.tail as int;
        let ch = self.cached_head as int;
        &&& self.cached_tail == q.producer_state.tail
        &&& dist(ch, t) <= CAPACITY
        &&& dist(ch, h) + q.spec_len() == dist(ch, t)
    }

    fn new() -> (p: Self)
        ensures
            p.cached_head == 0,
            p.cached_tail == 0,
    {
        Producer { cached_head: 0, cached_tail: 0, _t: PhantomData }
    }

    /// Pushes `item` onto `queue`. Returns `None` on success; when the queue is
    /// full the item is handed back unchanged as `Some(item)`.
    pub fn push(&mut self, queue: &mut Queue<T, CAPACITY>, item: T) -> (r: Option<T>)
        requires
            old(queue).wf(),
            old(self).paired(old(queue)),
        ensures
            final(queue).wf(),
            final(self).paired(final(queue)),
            final(queue).head() == old(queue).head(),
            old(queue)@.len() <= CAPACITY,
            (final(queue)@, r) == fifo_push(old(queue)@, CAPACITY as nat, item),
            forall|c: Consumer<T, CAPACITY>| c.paired(old(queue)) ==> c.paired(final(queue)),
    {
        if self.cached_tail.wrapping_sub(self.cached_head) == CAPACITY {
            if self.still_full(queue) {
                return Some(item);
            }
        }
        let ghost q0 = *queue;
        let tail = self.cached_tail;
        proof {
            lemma_mask_is_mod(tail, CAPACITY);
            lemma_tail_slot(queue);
        }
        let idx = tail & (CAPACITY - 1);
        queue.slots_allocation[idx] = Some(item);
        self.cached_tail = tail.wrapping_add(1);
        queue.producer_state.tail = self.cached_tail;
        proof {
            lemma_append(&q0, queue, item);
            lemma_dist_succ(tail, self.cached_head);
            lemma_dist_succ(tail, q0.consumer_state.head);
        }
        None
    }

    fn still_full(&mut self, queue: &Queue<T, CAPACITY>) -> (r: bool)
        requires
            queue.wf(),
            old(self).paired(queue),
        ensures
            final(self).paired(queue),
            final(self).cached_tail == old(self).cached_tail,
            final(self).cached_head == queue.consumer_state.head,
            r == (queue@.len() == CAPACITY),
    {
        // the consumer may have moved the head
        self.cached_head = queue.consumer_state.head;
        if self.cached_tail.wrapping_sub(self.cached_head) == CAPACITY {
            return true;
        }
        false
    }
}

impl<T, const CAPACITY: usize> Consumer<T, CAPACITY> {
    /// The consumer's copy of the head is the queue's head, and its cached
    /// tail lies between the head and the queue's tail.
    pub closed spec fn paired(&self, q: &Queue<T, CAPACITY>) -> bool {
        let h = q.consumer_state.head as int;
        let t = q.producer_state.tail as int;
        let ct = self.cached_tail as int;
        &&& self.cached_head == q.consumer_state.head
        &&& dist(h, ct) + dist(ct, t) == q.spec_len()
    }

    fn new() -> (c: Self)
        ensures
            c.cached_head == 0,
            c.cached_tail == 0,
    {
        Consumer { cached_head: 0, cached_tail: 0, _t: PhantomData }
    }

    /// Pops the oldest item of `queue`, or returns `None` when it is empty.
    pub fn pop(&mut self, queue: &mut Queue<T, CAPACITY>) -> (r: Option<T>)
        requires
            old(queue).wf(),
            old(self).paired(old(queue)),
        ensures
            final(queue).wf(),
            final(self).paired(final(queue)),
            final(queue).tail() == old(queue).tail(),
            (final(queue)@, r) == fifo_pop(old(queue)@),
            forall|p: Producer<T, CAPACITY>| p.paired(old(queue)) ==> p.paired(final(queue)),
    {
        if self.cached_head == self.cached_tail {
            if self.still_empty(queue) {
                return None;
            }
        }
        let ghost q0 = *queue;
        let head = self.cached_head;
        proof {
            lemma_mask_is_mod(head, CAPACITY);
            lemma_tail_slot(queue);
        }
        let idx = head & (CAPACITY - 1);
        let item = queue.slots_allocation[idx].take();
        self.cached_head = head.wrapping_add(1);
        queue.consumer_state.head = self.cached_head;
        proof {
            lemma_remove_first(&q0, queue);
            lemma_dist_succ(head, self.cached_tail);
            lemma_dist_succ(head, q0.producer_state.tail);
        }
        item
    }

    fn still_empty(&mut self, queue: &Queue<T, CAPACITY>) -> (r: bool)
        requires
            queue.wf(),
            old(self).paired(queue),
        ensures
            final(self).paired(queue),
            final(self).cached_head == old(self).cached_head,
            final(self).cached_tail == queue.producer_state.tail,
            r == (queue@.len() == 0),
    {
        // the producer may have written something
        self.cached_tail = queue.producer_state.tail;
        self.cached_head == self.cached_tail
    }
}

} // verus!
