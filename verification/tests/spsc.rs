use std::cell::Cell;
use std::rc::Rc;

use low_latency_data_structures::mem::GlobalAllocator;
use low_latency_data_structures::spsc::{new, new_hugepage_backed, Options};

#[test]
fn handoff_one_value() {
    let (mut producer, mut consumer, mut queue) =
        new::<_, 2, GlobalAllocator>(Options::global_mlocked());
    assert_eq!(producer.push(&mut queue, 123), None);
    assert_eq!(consumer.pop(&mut queue), Some(123));
}

#[test]
fn drops_unread_items() {
    let counter = Rc::new(Cell::new(0));
    #[derive(Debug, PartialEq)]
    struct Droppable {
        counter: Rc<Cell<usize>>,
    }
    impl Drop for Droppable {
        fn drop(&mut self) {
            let cnt = self.counter.get();
            self.counter.set(cnt + 1);
        }
    }
    const CAPACITY: usize = 64;
    let (mut producer, mut consumer, mut queue) =
        new::<_, CAPACITY, GlobalAllocator>(Options::global_mlocked());
    for _ in 0..CAPACITY {
        let counter = counter.clone();
        assert_eq!(producer.push(&mut queue, Droppable { counter }), None);
    }
    let read = CAPACITY / 2;
    for _ in 0..read {
        assert!(matches!(consumer.pop(&mut queue), Some(_)));
    }
    assert_eq!(read, counter.get());
    drop(producer);
    drop(consumer);
    drop(queue);
    assert_eq!(CAPACITY, counter.get());
}

#[test]
fn empty_returns_none() {
    let (_, mut consumer, mut queue) = new::<i32, 4, GlobalAllocator>(Options::global_mlocked());
    assert_eq!(consumer.pop(&mut queue), None);
    assert_eq!(consumer.pop(&mut queue), None);
}

#[test]
fn full_returns_item_back() {
    let (mut producer, _, mut queue) = new::<i32, 2, GlobalAllocator>(Options::global_mlocked());
    assert_eq!(producer.push(&mut queue, 1), None);
    assert_eq!(producer.push(&mut queue, 2), None);
    // Full: item comes back untouched
    assert_eq!(producer.push(&mut queue, 3), Some(3));
    assert_eq!(producer.push(&mut queue, 4), Some(4));
}

#[test]
fn fifo_ordering() {
    let (mut producer, mut consumer, mut queue) =
        new::<_, 8, GlobalAllocator>(Options::global_mlocked());
    for i in 0..8 {
        assert_eq!(producer.push(&mut queue, i), None);
    }
    for i in 0..8 {
        assert_eq!(consumer.pop(&mut queue), Some(i));
    }
}

#[test]
fn wraparound_n_laps() {
    const CAPACITY: usize = 4;
    let laps = 100;
    let (mut producer, mut consumer, mut queue) =
        new::<_, CAPACITY, GlobalAllocator>(Options::global_mlocked());
    for lap in 0..laps {
        for i in 0..CAPACITY {
            let val = lap * CAPACITY + i;
            assert_eq!(producer.push(&mut queue, val), None, "push failed at lap {lap}, i {i}");
        }
        // Queue is full
        assert_eq!(producer.push(&mut queue, 9999), Some(9999));
        for i in 0..CAPACITY {
            let val = lap * CAPACITY + i;
            assert_eq!(consumer.pop(&mut queue), Some(val), "wrong value at lap {lap}, i {i}");
        }
        // Queue is empty
        assert_eq!(consumer.pop(&mut queue), None);
    }
}

#[test]
fn interleaved_push_pop() {
    let (mut producer, mut consumer, mut queue) =
        new::<_, 2, GlobalAllocator>(Options::global_mlocked());
    // Push 1, pop 1, repeat: tests wraparound with tiny queue
    for i in 0..1000 {
        assert_eq!(producer.push(&mut queue, i), None);
        assert_eq!(consumer.pop(&mut queue), Some(i));
    }
}

#[test]
fn capacity_one() {
    let (mut producer, mut consumer, mut queue) =
        new::<_, 1, GlobalAllocator>(Options::global_mlocked());
    assert_eq!(consumer.pop(&mut queue), None);
    assert_eq!(producer.push(&mut queue, 42), None);
    assert_eq!(producer.push(&mut queue, 43), Some(43)); // full
    assert_eq!(consumer.pop(&mut queue), Some(42));
    assert_eq!(consumer.pop(&mut queue), None); // empty again
}

#[test]
fn move_only_type() {
    // Verify non-Copy, non-Clone types work
    let (mut producer, mut consumer, mut queue) =
        new::<_, 4, GlobalAllocator>(Options::global_mlocked());
    let s = String::from("hello");
    assert_eq!(producer.push(&mut queue, s), None);
    let got = consumer.pop(&mut queue).unwrap();
    assert_eq!(got, "hello");
}

#[test]
fn queue_push_pop_without_handles() {
    let (_, _, mut queue) = new::<u32, 2, GlobalAllocator>(Options::global_mlocked());
    assert_eq!(queue.pop(), None);
    assert_eq!(queue.push(7), None);
    assert_eq!(queue.push(8), None);
    assert_eq!(queue.push(9), Some(9));
    assert_eq!(queue.pop(), Some(7));
    assert_eq!(queue.push(10), None);
    assert_eq!(queue.pop(), Some(8));
    assert_eq!(queue.pop(), Some(10));
    assert_eq!(queue.pop(), None);
}

#[test]
fn queue_wraps_many_laps_without_handles() {
    let (_, _, mut queue) = new::<usize, 4, GlobalAllocator>(Options::global_mlocked());
    for lap in 0..50 {
        for i in 0..4 {
            assert_eq!(queue.push(lap * 4 + i), None);
        }
        assert_eq!(queue.push(usize::MAX), Some(usize::MAX));
        for i in 0..4 {
            assert_eq!(queue.pop(), Some(lap * 4 + i));
        }
        assert_eq!(queue.pop(), None);
    }
}

#[test]
fn allows_queues_with_powers_of_two_capacity() {
    let _ = new::<u32, 1, GlobalAllocator>(Options::global_mlocked());
    let _ = new::<u32, 2, GlobalAllocator>(Options::global_mlocked());
    let _ = new::<u32, 4, GlobalAllocator>(Options::global_mlocked());
    let _ = new::<u32, 8, GlobalAllocator>(Options::global_mlocked());
    let _ = new::<u32, 16, GlobalAllocator>(Options::global_mlocked());
    let _ = new::<u32, 32, GlobalAllocator>(Options::global_mlocked());
    let _ = new::<u32, 64, GlobalAllocator>(Options::global_mlocked());
    let _ = new::<u32, 128, GlobalAllocator>(Options::global_mlocked());
    let _ = new::<u32, 256, GlobalAllocator>(Options::global_mlocked());
    let _ = new::<u32, 512, GlobalAllocator>(Options::global_mlocked());
    let _ = new::<u32, 1024, GlobalAllocator>(Options::global_mlocked());
    let _ = new::<u32, 2048, GlobalAllocator>(Options::global_mlocked());
    let _ = new::<u32, 4096, GlobalAllocator>(Options::global_mlocked());
    let _ = new::<u32, 8192, GlobalAllocator>(Options::global_mlocked());
    let _ = new::<u32, 16384, GlobalAllocator>(Options::global_mlocked());
    let _ = new::<u32, 32768, GlobalAllocator>(Options::global_mlocked());
    let _ = new::<u32, 65536, GlobalAllocator>(Options::global_mlocked());
    let _ = new::<u32, 131072, GlobalAllocator>(Options::global_mlocked());
    let _ = new::<u32, 262144, GlobalAllocator>(Options::global_mlocked());
    let _ = new::<u32, 524288, GlobalAllocator>(Options::global_mlocked());
}

#[test]
fn hugepage_backed_queue_is_a_fifo() {
    let (mut p, mut c, mut q) = new_hugepage_backed::<u32, 4>();
    assert_eq!(q.slot_buffer().len(), 4);
    for v in 0..4 {
        assert_eq!(p.push(&mut q, v), None);
    }
    assert_eq!(p.push(&mut q, 9), Some(9));
    for v in 0..4 {
        assert_eq!(c.pop(&mut q), Some(v));
    }
    assert_eq!(c.pop(&mut q), None);
}
