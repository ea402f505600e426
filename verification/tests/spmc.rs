use low_latency_data_structures::mem::GlobalAllocator;
use low_latency_data_structures::spmc::{new, Options, ReadResult};

#[test]
fn single_thread_multiple_consumers_read_messages() {
    const CAPACITY: usize = 128;
    const NCONSUMERS: usize = 3;
    let (producer, consumers, mut q) =
        new::<u64, CAPACITY, NCONSUMERS, GlobalAllocator>(Options::global_mlocked());
    let [mut c1, mut c2, mut c3] = consumers;
    assert_eq!(c1.try_read(&q), ReadResult::Empty);
    assert_eq!(c2.try_read(&q), ReadResult::Empty);
    assert_eq!(c3.try_read(&q), ReadResult::Empty);

    producer.publish(&mut q, 1);
    assert_eq!(c1.try_read(&q), ReadResult::Value(1));
    assert_eq!(c2.try_read(&q), ReadResult::Value(1));
    assert_eq!(c3.try_read(&q), ReadResult::Value(1));
    assert_eq!(c1.try_read(&q), ReadResult::Empty);
    assert_eq!(c2.try_read(&q), ReadResult::Empty);
    assert_eq!(c3.try_read(&q), ReadResult::Empty);

    producer.publish(&mut q, 2);
    assert_eq!(c1.try_read(&q), ReadResult::Value(2));
    assert_eq!(c2.try_read(&q), ReadResult::Value(2));
    assert_eq!(c1.try_read(&q), ReadResult::Empty);
    assert_eq!(c2.try_read(&q), ReadResult::Empty);

    producer.publish(&mut q, 3);
    assert_eq!(c1.try_read(&q), ReadResult::Value(3));
    assert_eq!(c1.try_read(&q), ReadResult::Empty);

    assert_eq!(c2.try_read(&q), ReadResult::Value(3));
    assert_eq!(c2.try_read(&q), ReadResult::Empty);

    assert_eq!(c3.try_read(&q), ReadResult::Value(2));
    assert_eq!(c3.try_read(&q), ReadResult::Value(3));
    assert_eq!(c3.try_read(&q), ReadResult::Empty);
}

#[test]
fn consumer_can_be_overlapped_by_writer() {
    const CAPACITY: usize = 8;
    const NCONSUMERS: usize = 1;
    let (producer, consumers, mut q) =
        new::<usize, CAPACITY, NCONSUMERS, GlobalAllocator>(Options::global_mlocked());
    let [mut c1] = consumers;
    assert_eq!(c1.try_read(&q), ReadResult::Empty);

    // After this loop write_cursor = 8. First try_read below loads it into
    // cached_write_cursor and returns the first item.
    for i in 0..CAPACITY {
        producer.publish(&mut q, i);
    }
    // read_cursor becomes 1.
    assert_eq!(c1.try_read(&q), ReadResult::Value(0));
    // Two more publishes lap the consumer. write_cursor = 10 after these.
    producer.publish(&mut q, CAPACITY + 1);
    producer.publish(&mut q, CAPACITY + 2);
    // The Lapped branch reloads cached_write_cursor (= 10) and jumps to
    // cached - 1 = 9. skipped = 9 - read_cursor = 9 - 1 = 8.
    assert_eq!(c1.try_read(&q), ReadResult::Lapped { skipped: 8 });
    // Slot 9 & 7 = slot 1, last written at w_pos = 9 with data = CAPACITY + 2.
    assert_eq!(c1.try_read(&q), ReadResult::Value(CAPACITY + 2));
}

#[test]
fn full_ring_is_read_without_lapping() {
    let (producer, consumers, mut q) =
        new::<u32, 4, 1, GlobalAllocator>(Options::global_mlocked());
    let [mut c] = consumers;
    for i in 0..4 {
        producer.publish(&mut q, i * 10);
    }
    for i in 0..4 {
        assert_eq!(c.try_read(&q), ReadResult::Value(i * 10));
    }
    assert_eq!(c.try_read(&q), ReadResult::Empty);
}

#[test]
fn lapped_consumer_reports_skipped_and_recovers() {
    let (producer, consumers, mut q) =
        new::<u32, 2, 2, GlobalAllocator>(Options::global_mlocked());
    let [mut slow, mut fast] = consumers;
    for i in 0..5 {
        producer.publish(&mut q, i);
        assert_eq!(fast.try_read(&q), ReadResult::Value(i));
    }
    // slow consumer is 5 behind a ring of 2: it jumps to position 4
    assert_eq!(slow.try_read(&q), ReadResult::Lapped { skipped: 4 });
    assert_eq!(slow.try_read(&q), ReadResult::Value(4));
    assert_eq!(slow.try_read(&q), ReadResult::Empty);
}

#[test]
fn reads_account_for_every_published_value() {
    // a consumer reading at irregular times: values read plus skipped
    // counts always equal the position of the next value it returns
    let (producer, [mut c], mut q) = new::<u64, 4, 1, GlobalAllocator>(Options::global_mlocked());
    let mut published = 0u64;
    let mut credit = 0u64;
    for round in 0..40u64 {
        for _ in 0..(round % 7) {
            producer.publish(&mut q, published);
            published += 1;
        }
        for _ in 0..(round % 3) {
            match c.try_read(&q) {
                ReadResult::Value(v) => {
                    assert_eq!(v, credit);
                    credit += 1;
                }
                ReadResult::Lapped { skipped } => credit += skipped as u64,
                ReadResult::Empty => assert_eq!(credit, published),
            }
            assert!(credit <= published);
        }
    }
    assert!(credit > 0);
}

#[test]
fn within_capacity_never_laps() {
    let (producer, [mut c], mut q) = new::<u64, 8, 1, GlobalAllocator>(Options::global_mlocked());
    for v in 0..8 {
        producer.publish(&mut q, v);
    }
    for v in 0..8 {
        assert_eq!(c.try_read(&q), ReadResult::Value(v));
    }
    assert_eq!(c.try_read(&q), ReadResult::Empty);
    assert_eq!(q.slot_buffer().len(), 8);
}
