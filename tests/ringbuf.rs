use ft60x::ringbuf::RingBuf;

#[test]
fn fifo_single_thread() {
    let (mut producer, mut consumer) = RingBuf::<u64>::create_channel(3);
    for i in 0..3u64 {
        assert_eq!(producer.with_next_buffer(|v| *v = i * 10), Ok(()));
    }
    assert_eq!(consumer.with_next_buffer(|v| *v), Ok(0));
    assert_eq!(producer.with_next_buffer(|v| *v = 30), Ok(()));
    for expected in [10, 20, 30] {
        assert_eq!(consumer.with_next_buffer(|v| *v), Ok(expected));
    }
}

#[test]
fn fifo_interleaved_for_several_capacities() {
    for capacity in 2..6usize {
        let (mut producer, mut consumer) = RingBuf::<u64>::create_channel(capacity);
        let mut next_written = 0u64;
        let mut next_read = 0u64;
        for round in 0..50u64 {
            let burst = 1 + (round as usize * 7) % capacity;
            let ahead = (next_written - next_read) as usize;
            for _ in 0..burst.min(capacity - ahead) {
                let value = next_written;
                producer.with_next_buffer(|v| *v = value).unwrap();
                next_written += 1;
            }
            let take = 1 + (round as usize * 3) % capacity;
            for _ in 0..take.min((next_written - next_read) as usize) {
                assert_eq!(consumer.with_next_buffer(|v| *v), Ok(next_read));
                next_read += 1;
            }
        }
    }
}

#[test]
fn default_value_fills_every_slot() {
    let (mut producer, mut consumer) = RingBuf::create_channel_with_default_value(2, vec![7u8; 3]);
    producer.with_next_buffer(|_| ()).unwrap();
    assert_eq!(consumer.with_next_buffer(|b| b.clone()), Ok(vec![7u8; 3]));
}

#[test]
fn buffers_are_recycled_not_copied() {
    let (mut producer, mut consumer) = RingBuf::<Vec<u8>>::create_channel(2);
    producer.with_next_buffer(|b| b.push(1)).unwrap();
    producer.with_next_buffer(|b| b.push(2)).unwrap();
    assert_eq!(consumer.with_next_buffer(|b| b.clone()), Ok(vec![1]));
    // the slot that held [1] comes back to the producer as it was left
    assert_eq!(producer.with_next_buffer(|b| b.clone()), Ok(vec![1]));
}

#[test]
fn cancelled_producer_fails_and_consumer_ends_after_the_data() {
    let (mut producer, mut consumer) = RingBuf::<u64>::create_channel(2);
    producer.with_next_buffer(|v| *v = 5).unwrap();
    producer.cancel();
    assert_eq!(producer.with_next_buffer(|v| *v = 6), Err(()));
    assert_eq!(consumer.with_next_buffer(|v| *v), Ok(5));
    assert_eq!(consumer.with_next_buffer(|v| *v), Err(()));
    assert_eq!(consumer.with_next_buffer(|v| *v), Err(()));
}

#[test]
fn cancelled_consumer_stops_the_producer() {
    let (mut producer, mut consumer) = RingBuf::<u64>::create_channel(4);
    consumer.cancel();
    assert_eq!(consumer.with_next_buffer(|v| *v), Err(()));
    assert_eq!(producer.with_next_buffer(|v| *v = 1), Err(()));
}

#[test]
fn dropped_consumer_releases_a_full_producer() {
    let (mut producer, consumer) = RingBuf::<u64>::create_channel(2);
    assert_eq!(producer.with_next_buffer(|v| *v = 0), Ok(()));
    assert_eq!(producer.with_next_buffer(|v| *v = 1), Ok(()));
    drop(consumer);
    // every slot is with the consumer: with the consumer alive this call would wait
    assert_eq!(producer.with_next_buffer(|v| *v = 2), Err(()));
}

#[test]
fn dropped_producer_releases_a_waiting_consumer() {
    let (mut producer, mut consumer) = RingBuf::<u64>::create_channel(2);
    producer.with_next_buffer(|v| *v = 4).unwrap();
    drop(producer);
    assert_eq!(consumer.with_next_buffer(|v| *v), Ok(4));
    // nothing is published: with the producer alive this call would wait
    assert_eq!(consumer.with_next_buffer(|v| *v), Err(()));
}

#[test]
fn long_interleaved_run_keeps_order() {
    let (mut producer, mut consumer) = RingBuf::<u64>::create_channel(4);
    let mut next_read = 0u64;
    for i in 0..10_000u64 {
        producer.with_next_buffer(|v| *v = i).unwrap();
        if i % 4 == 3 {
            for _ in 0..4 {
                assert_eq!(consumer.with_next_buffer(|v| *v), Ok(next_read));
                next_read += 1;
            }
        }
    }
    assert_eq!(next_read, 10_000);
}

#[test]
fn failed_fill_is_not_published() {
    let (mut producer, mut consumer) = RingBuf::<u64>::create_channel(2);
    assert_eq!(producer.fill_next_buffer(|v| -> Result<u64, ()> { *v = 1; Ok(10) }), Ok(Ok(10)));
    assert_eq!(producer.fill_next_buffer(|v| -> Result<(), &str> { *v = 2; Err("short") }), Ok(Err("short")));
    assert_eq!(producer.with_next_buffer(|v| *v = 3), Err(()));
    assert_eq!(consumer.with_next_buffer(|v| *v), Ok(1));
    // the half-written slot never reaches the consumer: the stream ends instead
    assert_eq!(consumer.with_next_buffer(|v| *v), Err(()));
}

#[test]
fn cancelling_twice_is_harmless() {
    let (mut producer, mut consumer) = RingBuf::<u64>::create_channel(2);
    producer.cancel();
    producer.cancel();
    assert_eq!(consumer.with_next_buffer(|v| *v), Err(()));
    consumer.cancel();
    consumer.cancel();
    assert_eq!(producer.with_next_buffer(|v| *v = 1), Err(()));
}

#[test]
fn callback_result_is_returned_and_its_buffer_published() {
    let (mut producer, mut consumer) = RingBuf::<Vec<u8>>::create_channel(3);
    assert_eq!(producer.with_next_buffer(|b| { b.extend_from_slice(&[1, 2, 3]); b.len() }), Ok(3));
    assert_eq!(consumer.with_next_buffer(|b| b.iter().map(|x| *x as u32).sum::<u32>()), Ok(6));
}
