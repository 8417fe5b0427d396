use ft60x::counter_check::count_counter_gaps;
use ft60x::bulk_reader::{FillState, FillStep, BLOCK_SIZE, MAX_IN_FLIGHT};
use ft60x::ft60x::{SessionEvent, SessionState};
use ft60x::ringbuf::RingBuf;
use ft60x::Error;
use std::collections::VecDeque;

const MIB: usize = 1024 * 1024;

/// A mocked bulk endpoint producing an endless little-endian u32 counter, one request at a
/// time in the order the requests were submitted.
struct CounterEndpoint {
    next: u32,
    open: VecDeque<(usize, usize)>,
}

impl CounterEndpoint {
    fn fill(&mut self, buf: &mut [u8]) -> Result<(), Error> {
        let mut state = FillState::for_buffer(buf.len());
        loop {
            match state.next_step() {
                FillStep::Submit { start, end } => {
                    self.open.push_back((start, end));
                    state.on_submitted();
                }
                FillStep::WaitAny => {
                    let (start, end) = self.open.pop_front().unwrap();
                    for word in buf[start..end].chunks_mut(4) {
                        word.copy_from_slice(&self.next.to_le_bytes());
                        self.next = self.next.wrapping_add(1);
                    }
                    state.on_completed(end - start, end - start)?;
                }
                FillStep::Done => return Ok(()),
            }
        }
    }
}

#[test]
fn ten_mib_of_counter_data_arrive_intact() {
    let (mut producer, mut consumer) =
        RingBuf::create_channel_with_default_value(4, vec![0u8; MIB]);
    let mut session = SessionState::Idle;
    if session.needs_mode_switch() {
        session = session.next(SessionEvent::ModeSwitched);
    }
    session = session.next(SessionEvent::WorkerStarted);
    let mut endpoint = CounterEndpoint { next: 0, open: VecDeque::new() };
    let mut received: Vec<u8> = Vec::with_capacity(10 * MIB);
    for round in 0..10 {
        assert!(session.may_fill());
        let filled = producer.with_next_buffer(|buf| endpoint.fill(buf)).unwrap();
        assert_eq!(filled, Ok(()));
        session = session.next(SessionEvent::BufferPublished);
        if round % 3 == 2 {
            for _ in 0..3 {
                consumer.with_next_buffer(|buf| received.extend_from_slice(buf)).unwrap();
            }
        }
    }
    drop(producer);
    while let Ok(()) = consumer.with_next_buffer(|buf| received.extend_from_slice(buf)) {}
    assert_eq!(MIB / BLOCK_SIZE, 32);
    assert!(MIB / BLOCK_SIZE <= MAX_IN_FLIGHT);
    assert_eq!(received.len(), 10 * MIB);
    for (i, word) in received.chunks(4).enumerate() {
        assert_eq!(u32::from_le_bytes([word[0], word[1], word[2], word[3]]), i as u32);
    }
    assert_eq!(count_counter_gaps(&received, u32::MAX), (0, (10 * MIB / 4 - 1) as u32));
}
