use low_latency_data_structures::seqlock::new;

#[test]
fn first_read_returns_initial_value() {
    for init_value in [42, 1, 23] {
        let (_, reader, lock) = new(init_value);
        assert_eq!(reader.read(&lock), init_value);
    }
}

#[test]
fn single_thread_reads_what_it_has_written() {
    let (writer, reader, mut lock) = new(0);
    for value in [42, 1, 23] {
        writer.write(&mut lock, value);
        assert_eq!(reader.read(&lock), value);
    }
}

#[test]
fn cloned_readers_see_the_same_value() {
    let (writer, reader, mut lock) = new(5u64);
    let other = reader.clone();
    writer.write(&mut lock, 9);
    assert_eq!(reader.read(&lock), 9);
    assert_eq!(other.read(&lock), 9);
    assert_eq!(lock.read(), 9);
}
