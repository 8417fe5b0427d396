use ft60x::bulk_reader::{FillState, FillStep, BLOCK_SIZE, MAX_IN_FLIGHT};
use ft60x::{Error, UsbError};
use std::collections::VecDeque;

/// A synthetic bulk endpoint: it records the requests, counts how many are open at once and
/// completes them in an order of its choosing, with the lengths it is told to deliver.
struct Backend {
    open: VecDeque<(usize, usize)>,
    max_open: usize,
    requests: usize,
    short_request: Option<usize>,
    newest_first: bool,
}

impl Backend {
    fn new(short_request: Option<usize>, newest_first: bool) -> Self {
        Backend { open: VecDeque::new(), max_open: 0, requests: 0, short_request, newest_first }
    }

    fn submit(&mut self, start: usize, end: usize) {
        self.open.push_back((start, end));
        self.requests += 1;
        self.max_open = self.max_open.max(self.open.len());
    }

    /// (requested, actual) of one completion, or `None` when nothing is open.
    fn wait_any(&mut self) -> Option<(usize, usize)> {
        let (start, end) =
            if self.newest_first { self.open.pop_back()? } else { self.open.pop_front()? };
        let requested = end - start;
        let short = self.short_request == Some(start / BLOCK_SIZE);
        Some((requested, if short { requested - 1 } else { requested }))
    }
}

fn run(len: usize, window: usize, backend: &mut Backend) -> Result<FillState, Error> {
    let mut state = FillState::new(len, BLOCK_SIZE, window);
    loop {
        match state.next_step() {
            FillStep::Submit { start, end } => {
                backend.submit(start, end);
                state.on_submitted();
            }
            FillStep::WaitAny => match backend.wait_any() {
                Some((requested, actual)) => state.on_completed(requested, actual)?,
                None => return Err(state.on_wait_failed(UsbError::NotFound)),
            },
            FillStep::Done => return Ok(state),
        }
    }
}

#[test]
fn exact_multiple_issues_one_request_per_block() {
    let mut backend = Backend::new(None, false);
    let state = run(12 * BLOCK_SIZE, MAX_IN_FLIGHT, &mut backend).unwrap();
    assert_eq!(backend.requests, 12);
    assert_eq!(state.chunks(), 12);
    assert_eq!(state.completed(), 12);
}

#[test]
fn short_completion_fails_the_fill() {
    for k in 0..5 {
        let mut backend = Backend::new(Some(k), false);
        let r = run(5 * BLOCK_SIZE, MAX_IN_FLIGHT, &mut backend);
        assert_eq!(
            r.unwrap_err(),
            Error::ShortTransfer { requested: BLOCK_SIZE, actual: BLOCK_SIZE - 1 }
        );
    }
}

#[test]
fn window_bound_is_respected() {
    for newest_first in [false, true] {
        let mut backend = Backend::new(None, newest_first);
        let state = run(40 * BLOCK_SIZE, 3, &mut backend).unwrap();
        assert_eq!(backend.requests, 40);
        assert_eq!(backend.max_open, 3);
        assert_eq!(state.completed(), 40);
    }
}

#[test]
fn default_window_is_never_exceeded() {
    let mut backend = Backend::new(None, false);
    run(600 * BLOCK_SIZE, MAX_IN_FLIGHT, &mut backend).unwrap();
    assert_eq!(backend.requests, 600);
    assert_eq!(backend.max_open, MAX_IN_FLIGHT);
}

#[test]
fn last_chunk_may_be_short_of_a_block() {
    let mut state = FillState::new(2 * BLOCK_SIZE + 100, BLOCK_SIZE, 8);
    assert_eq!(state.chunks(), 3);
    let mut ranges = Vec::new();
    while let FillStep::Submit { start, end } = state.next_step() {
        ranges.push((start, end));
        state.on_submitted();
    }
    assert_eq!(
        ranges,
        vec![(0, BLOCK_SIZE), (BLOCK_SIZE, 2 * BLOCK_SIZE), (2 * BLOCK_SIZE, 2 * BLOCK_SIZE + 100)]
    );
    assert_eq!(state.next_step(), FillStep::WaitAny);
    assert_eq!(
        state.on_completed(100, 99).unwrap_err(),
        Error::ShortTransfer { requested: 100, actual: 99 }
    );
}

#[test]
fn empty_buffer_is_done_at_once() {
    let state = FillState::for_buffer(0);
    assert_eq!(state.chunks(), 0);
    assert_eq!(state.next_step(), FillStep::Done);
}

#[test]
fn vanished_request_is_an_incomplete_drain() {
    let mut state = FillState::new(3 * BLOCK_SIZE, BLOCK_SIZE, 8);
    for _ in 0..3 {
        state.on_submitted();
    }
    state.on_completed(BLOCK_SIZE, BLOCK_SIZE).unwrap();
    assert_eq!(
        state.on_wait_failed(UsbError::Timeout),
        Error::IncompleteDrain { submitted: 3, completed: 1 }
    );
}

#[test]
fn wait_failure_before_all_submitted_is_a_usb_error() {
    let mut state = FillState::new(3 * BLOCK_SIZE, BLOCK_SIZE, 1);
    state.on_submitted();
    assert_eq!(state.next_step(), FillStep::WaitAny);
    assert_eq!(state.on_wait_failed(UsbError::Pipe), Error::Usb(UsbError::Pipe));
}
