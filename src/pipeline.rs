//! Several buffers filled at once under one in-flight window, handed on full and in order.

use crate::bulk_reader::{chunk_count, FillState, FillStep};
use crate::{Error, UsbError};
use vstd::prelude::*;

verus! {

/// Requests outstanding over a run of fills.
pub open spec fn total_outstanding(fills: Seq<FillState>) -> nat
    decreases fills.len(),
{
    if fills.len() == 0 {
        0
    } else {
        total_outstanding(fills.drop_last()) + fills.last().outstanding()
    }
}

/// The fill is over: every chunk went out and came back.
pub open spec fn fill_done(f: FillState) -> bool {
    f.submitted == f.chunks && f.completed == f.chunks
}

/// What the streaming worker does next.
#[derive(Debug, Clone, Copy, PartialEq, Eq, Structural)]
pub enum StreamStep {
    /// Submit a read of bytes `start..end` of buffer number `buffer`.
    Submit { buffer: u64, start: usize, end: usize },
    /// Wait for a request of buffer number `buffer` to complete.
    WaitAny { buffer: u64 },
    /// Buffer number `buffer`, the oldest in flight, is full: hand it downstream.
    Publish { buffer: u64 },
    /// The newest buffer has all its requests out: take the next empty buffer.
    NeedBuffer,
    /// No empty buffer will come and every buffer was handed downstream.
    Finished,
}

/// The buffers being filled at once, oldest first, numbered in the order they arrived. A
/// new buffer starts before the older ones have drained, but the requests of all of them
/// together stay within one window, and buffers leave in the order they came.
pub struct StreamPipeline {
    block: usize,
    window: usize,
    outstanding: usize,
    first: u64,
    closing: bool,
    fills: Vec<FillState>,
}

/// The pipeline as plain values.
pub struct PipelineView {
    pub block: nat,
    pub window: nat,
    pub outstanding: nat,
    pub first: nat,
    pub closing: bool,
    pub fills: Seq<FillState>,
}

impl View for StreamPipeline {
    type V = PipelineView;

    closed spec fn view(&self) -> PipelineView {
        PipelineView {
            block: self.block as nat,
            window: self.window as nat,
            outstanding: self.outstanding as nat,
            first: self.first as nat,
            closing: self.closing,
            fills: self.fills@,
        }
    }
}

/// Index of the oldest fill with a request outstanding.
pub open spec fn oldest_waiting(fills: Seq<FillState>) -> int {
    choose|i: int|
        0 <= i < fills.len() && fills[i].outstanding() > 0 && forall|j: int|
            0 <= j < i ==> fills[j].outstanding() == 0
}

impl PipelineView {
    /// Every fill is sound and shares the pipeline's chunk size and window, the count of
    /// outstanding requests is theirs together and within the window, and only the newest
    /// fill may still have chunks to submit.
    pub open spec fn wf(self) -> bool {
        &&& self.block > 0
        &&& self.window > 0
        &&& forall|i: int|
            0 <= i < self.fills.len() ==> {
                &&& (#[trigger] self.fills[i]).wf()
                &&& self.fills[i].block == self.block
                &&& self.fills[i].window == self.window
            }
        &&& forall|i: int|
            0 <= i < self.fills.len() - 1 ==> #[trigger] self.fills[i].submitted
                == self.fills[i].chunks
        &&& self.outstanding == total_outstanding(self.fills)
        &&& self.outstanding <= self.window
        &&& self.first + self.fills.len() <= u64::MAX
    }

    /// The step that the pipeline calls for: hand the oldest buffer on once it is full; feed
    /// the newest one while the window has room; take a new buffer once the newest has all its
    /// requests out and the window has room; else wait on the oldest buffer with a request
    /// outstanding; else stop, as no buffer will come.
    pub open spec fn step_spec(self) -> StreamStep {
        let n = self.fills.len();
        if n > 0 && fill_done(self.fills[0]) {
            StreamStep::Publish { buffer: self.first as u64 }
        } else if n > 0 && self.fills[n - 1].submitted < self.fills[n - 1].chunks
            && self.outstanding < self.window {
            match self.fills[n - 1].step_spec() {
                FillStep::Submit { start, end } => StreamStep::Submit {
                    buffer: (self.first + n - 1) as u64,
                    start,
                    end,
                },
                _ => StreamStep::NeedBuffer,
            }
        } else if (n == 0 || self.fills[n - 1].submitted == self.fills[n - 1].chunks)
            && !self.closing && self.outstanding < self.window {
            StreamStep::NeedBuffer
        } else if self.outstanding > 0 {
            StreamStep::WaitAny { buffer: (self.first + oldest_waiting(self.fills)) as u64 }
        } else {
            StreamStep::Finished
        }
    }
}

proof fn lemma_total_update(fills: Seq<FillState>, i: int, f: FillState)
    requires
        0 <= i < fills.len(),
    ensures
        total_outstanding(fills.update(i, f)) + fills[i].outstanding() == total_outstanding(fills)
            + f.outstanding(),
    decreases fills.len(),
{
    let g = fills.update(i, f);
    if i == fills.len() - 1 {
        assert(g.drop_last() =~= fills.drop_last());
    } else {
        assert(g.drop_last() =~= fills.drop_last().update(i, f));
        lemma_total_update(fills.drop_last(), i, f);
    }
}

proof fn lemma_total_push(fills: Seq<FillState>, f: FillState)
    ensures
        total_outstanding(fills.push(f)) == total_outstanding(fills) + f.outstanding(),
{
    assert(fills.push(f).drop_last() =~= fills);
}

proof fn lemma_total_drop_first(fills: Seq<FillState>)
    requires
        fills.len() > 0,
        fills[0].outstanding() == 0,
    ensures
        total_outstanding(fills.subrange(1, fills.len() as int)) == total_outstanding(fills),
    decreases fills.len(),
{
    let rest = fills.subrange(1, fills.len() as int);
    if fills.len() > 1 {
        assert(rest.drop_last() =~= fills.drop_last().subrange(1, fills.len() - 1));
        assert(rest.last() == fills.last());
        assert(fills.drop_last()[0] == fills[0]);
        lemma_total_drop_first(fills.drop_last());
        assert(total_outstanding(rest) == total_outstanding(rest.drop_last()) + rest.last().outstanding());
    } else {
        assert(rest.len() == 0);
        assert(fills.drop_last().len() == 0);
        assert(total_outstanding(fills.drop_last()) == 0);
        assert(total_outstanding(rest) == 0);
    }
}

/// Some fill has a request outstanding when their total is positive; the oldest one is found.
proof fn lemma_oldest_waiting(fills: Seq<FillState>)
    requires
        total_outstanding(fills) > 0,
    ensures
        0 <= oldest_waiting(fills) < fills.len(),
        fills[oldest_waiting(fills)].outstanding() > 0,
        forall|j: int| 0 <= j < oldest_waiting(fills) ==> fills[j].outstanding() == 0,
{
    let i = first_waiting_index(fills);
    assert(0 <= i < fills.len() && fills[i].outstanding() > 0 && forall|j: int|
        0 <= j < i ==> fills[j].outstanding() == 0);
}

proof fn first_waiting_index(fills: Seq<FillState>) -> (i: int)
    requires
        total_outstanding(fills) > 0,
    ensures
        0 <= i < fills.len(),
        fills[i].outstanding() > 0,
        forall|j: int| 0 <= j < i ==> fills[j].outstanding() == 0,
    decreases fills.len(),
{
    let d = fills.drop_last();
    if total_outstanding(d) > 0 {
        let i = first_waiting_index(d);
        assert forall|j: int| 0 <= j < i implies fills[j].outstanding() == 0 by {
            assert(fills[j] == d[j]);
        }
        i
    } else {
        assert forall|j: int| 0 <= j < fills.len() - 1 implies fills[j].outstanding() == 0 by {
            lemma_zero_total(d, j);
        }
        (fills.len() - 1) as int
    }
}

proof fn lemma_zero_total(fills: Seq<FillState>, j: int)
    requires
        total_outstanding(fills) == 0,
        0 <= j < fills.len(),
    ensures
        fills[j].outstanding() == 0,
    decreases fills.len(),
{
    if j < fills.len() - 1 {
        lemma_zero_total(fills.drop_last(), j);
    }
}

/// One fill's requests outstanding never exceed those of all fills together.
proof fn lemma_part_of_total(fills: Seq<FillState>, i: int)
    requires
        0 <= i < fills.len(),
    ensures
        fills[i].outstanding() <= total_outstanding(fills),
    decreases fills.len(),
{
    if i < fills.len() - 1 {
        lemma_part_of_total(fills.drop_last(), i);
    }
}

/// However the steps are taken, the requests outstanding over all buffers in flight never
/// exceed the window, and neither do those of any one buffer.
pub proof fn lemma_pipeline_window(p: PipelineView)
    requires
        p.wf(),
    ensures
        p.outstanding <= p.window,
        forall|i: int| 0 <= i < p.fills.len() ==> #[trigger] p.fills[i].outstanding() <= p.window,
{
    assert forall|i: int| 0 <= i < p.fills.len() implies #[trigger] p.fills[i].outstanding()
        <= p.window by {
        lemma_part_of_total(p.fills, i);
    }
}

/// A buffer leaves only when it is the oldest in flight and every one of its chunks came back
/// in full, so buffers leave full and in the order they arrived.
pub proof fn lemma_publish_in_order(p: PipelineView)
    requires
        p.wf(),
        p.step_spec() is Publish,
    ensures
        p.fills.len() > 0,
        fill_done(p.fills[0]),
        p.step_spec() == (StreamStep::Publish { buffer: p.first as u64 }),
{
}

impl StreamPipeline {
    /// An empty pipeline reading chunks of `block` bytes, at most `window` of them at once.
    pub fn new(block: usize, window: usize) -> (r: StreamPipeline)
        requires
            block > 0,
            window > 0,
        ensures
            r@.wf(),
            r@ == (PipelineView {
                block: block as nat,
                window: window as nat,
                outstanding: 0,
                first: 0,
                closing: false,
                fills: Seq::empty(),
            }),
    {
        StreamPipeline { block, window, outstanding: 0, first: 0, closing: false, fills: Vec::new() }
    }

    /// Requests outstanding over all buffers in flight.
    pub fn outstanding(&self) -> (r: usize)
        ensures
            r == self@.outstanding,
    {
        self.outstanding
    }

    /// Buffers in flight.
    pub fn in_flight(&self) -> (r: usize)
        ensures
            r == self@.fills.len(),
    {
        self.fills.len()
    }

    /// Index of the oldest buffer with a request outstanding.
    fn oldest_waiting_index(&self) -> (i: usize)
        requires
            self@.wf(),
            self@.outstanding > 0,
        ensures
            i == oldest_waiting(self@.fills),
            i < self@.fills.len(),
            self@.fills[i as int].outstanding() > 0,
    {
        proof {
            lemma_oldest_waiting(self.fills@);
        }
        let n = self.fills.len();
        let mut i: usize = 0;
        while self.fills[i].submitted == self.fills[i].completed
            invariant
                self@.wf(),
                n == self.fills@.len(),
                0 <= oldest_waiting(self.fills@) < self.fills@.len(),
                self.fills@[oldest_waiting(self.fills@)].outstanding() > 0,
                forall|j: int|
                    0 <= j < oldest_waiting(self.fills@) ==> self.fills@[j].outstanding() == 0,
                i <= oldest_waiting(self.fills@),
            decreases oldest_waiting(self.fills@) - i,
        {
            proof {
                assert(self.fills@[i as int].outstanding() == 0);
            }
            i = i + 1;
        }
        i
    }

    pub fn next_step(&self) -> (r: StreamStep)
        requires
            self@.wf(),
        ensures
            r == self@.step_spec(),
    {
        let n = self.fills.len();
        if n > 0 && self.fills[0].submitted == self.fills[0].chunks && self.fills[0].completed
            == self.fills[0].chunks {
            return StreamStep::Publish { buffer: self.first };
        }
        if n > 0 && self.fills[n - 1].submitted < self.fills[n - 1].chunks && self.outstanding
            < self.window {
            proof {
                lemma_part_of_total(self.fills@, n - 1);
            }
            return match self.fills[n - 1].next_step() {
                FillStep::Submit { start, end } => StreamStep::Submit {
                    buffer: self.first + (n - 1) as u64,
                    start,
                    end,
                },
                _ => StreamStep::NeedBuffer,
            };
        }
        if (n == 0 || self.fills[n - 1].submitted == self.fills[n - 1].chunks) && !self.closing
            && self.outstanding < self.window {
            return StreamStep::NeedBuffer;
        }
        if self.outstanding > 0 {
            let i = self.oldest_waiting_index();
            return StreamStep::WaitAny { buffer: self.first + i as u64 };
        }
        StreamStep::Finished
    }

    /// Takes on a new empty buffer of `len` bytes, as number `first + in_flight`.
    pub fn on_buffer(&mut self, len: usize) -> (r: Result<(), Error>)
        requires
            old(self)@.wf(),
            old(self)@.step_spec() is NeedBuffer,
        ensures
            final(self)@.wf(),
            r is Ok <==> old(self)@.first + old(self)@.fills.len() < u64::MAX,
            r is Ok ==> final(self)@ == (PipelineView {
                fills: old(self)@.fills.push(
                    FillState {
                        len,
                        block: old(self)@.block as usize,
                        window: old(self)@.window as usize,
                        chunks: chunk_count(len as nat, old(self)@.block) as usize,
                        submitted: 0,
                        completed: 0,
                    },
                ),
                ..old(self)@
            }),
            r is Err ==> r == Err::<(), Error>(Error::Cancelled) && final(self)@ == old(self)@,
    {
        if self.first >= u64::MAX - self.fills.len() as u64 {
            return Err(Error::Cancelled);
        }
        let f = FillState::new(len, self.block, self.window);
        proof {
            lemma_total_push(self.fills@, f);
        }
        self.fills.push(f);
        Ok(())
    }

    /// The request that `next_step` asked for went out.
    pub fn on_submitted(&mut self)
        requires
            old(self)@.wf(),
            old(self)@.step_spec() is Submit,
        ensures
            final(self)@.wf(),
            final(self)@ == (PipelineView {
                outstanding: old(self)@.outstanding + 1,
                fills: old(self)@.fills.update(
                    old(self)@.fills.len() - 1,
                    FillState {
                        submitted: (old(self)@.fills.last().submitted + 1) as usize,
                        ..old(self)@.fills.last()
                    },
                ),
                ..old(self)@
            }),
            final(self)@.outstanding <= final(self)@.window,
    {
        let n = self.fills.len();
        let mut f = self.fills[n - 1];
        proof {
            lemma_part_of_total(self.fills@, n - 1);
        }
        f.on_submitted();
        proof {
            lemma_total_update(self.fills@, n - 1, f);
        }
        self.fills.set(n - 1, f);
        self.outstanding = self.outstanding + 1;
        proof {
            assert forall|i: int| 0 <= i < self.fills@.len() - 1 implies #[trigger] self.fills@[i].submitted
                == self.fills@[i].chunks by {
                assert(self.fills@[i] == old(self).fills@[i]);
            }
        }
    }

    /// A request of the buffer that `next_step` waits on completed with `actual` of its
    /// `requested` bytes; a short read ends the stream.
    pub fn on_completed(&mut self, requested: usize, actual: usize) -> (r: Result<(), Error>)
        requires
            old(self)@.wf(),
            old(self)@.step_spec() is WaitAny,
        ensures
            final(self)@.wf(),
            r is Ok <==> actual == requested,
            r is Ok ==> final(self)@ == (PipelineView {
                outstanding: (old(self)@.outstanding - 1) as nat,
                fills: old(self)@.fills.update(
                    oldest_waiting(old(self)@.fills),
                    FillState {
                        completed: (old(self)@.fills[oldest_waiting(old(self)@.fills)].completed
                            + 1) as usize,
                        ..old(self)@.fills[oldest_waiting(old(self)@.fills)]
                    },
                ),
                ..old(self)@
            }),
            r is Err ==> r == Err::<(), Error>(Error::ShortTransfer { requested, actual })
                && final(self)@ == old(self)@,
            final(self)@.fills.len() == old(self)@.fills.len(),
            final(self)@.first == old(self)@.first,
    {
        let i = self.oldest_waiting_index();
        let mut f = self.fills[i];
        match f.on_completed(requested, actual) {
            Ok(()) => {},
            Err(e) => return Err(e),
        }
        proof {
            lemma_total_update(self.fills@, i as int, f);
        }
        self.fills.set(i, f);
        self.outstanding = self.outstanding - 1;
        proof {
            assert forall|j: int| 0 <= j < self.fills@.len() - 1 implies #[trigger] self.fills@[j].submitted
                == self.fills@[j].chunks by {
                assert(self.fills@[j].submitted == old(self).fills@[j].submitted);
            }
        }
        Ok(())
    }

    /// Waiting on the buffer that `next_step` named failed with `e`. Once that buffer has all
    /// its requests out this means one of them vanished, which is reported as such; before
    /// that, the USB failure is.
    pub fn on_wait_failed(&self, e: UsbError) -> (r: Error)
        requires
            self@.wf(),
            self@.step_spec() is WaitAny,
        ensures
            ({
                let f = self@.fills[oldest_waiting(self@.fills)];
                &&& f.submitted == f.chunks ==> r == (Error::IncompleteDrain {
                    submitted: f.chunks,
                    completed: f.completed,
                })
                &&& f.submitted < f.chunks ==> r == Error::Usb(e)
            }),
    {
        let i = self.oldest_waiting_index();
        self.fills[i].on_wait_failed(e)
    }

    /// The oldest buffer, full, was handed downstream.
    pub fn on_published(&mut self)
        requires
            old(self)@.wf(),
            old(self)@.step_spec() is Publish,
        ensures
            final(self)@.wf(),
            final(self)@ == (PipelineView {
                first: old(self)@.first + 1,
                fills: old(self)@.fills.subrange(1, old(self)@.fills.len() as int),
                ..old(self)@
            }),
    {
        proof {
            lemma_total_drop_first(self.fills@);
        }
        self.fills.remove(0);
        self.first = self.first + 1;
        proof {
            assert forall|i: int| 0 <= i < self.fills@.len() - 1 implies #[trigger] self.fills@[i].submitted
                == self.fills@[i].chunks by {
                assert(self.fills@[i] == old(self).fills@[i + 1]);
            }
        }
    }

    /// No more empty buffers will come: the pipeline drains what it holds and then finishes.
    pub fn on_no_more_buffers(&mut self)
        requires
            old(self)@.wf(),
        ensures
            final(self)@.wf(),
            final(self)@ == (PipelineView { closing: true, ..old(self)@ }),
    {
        self.closing = true;
    }
}

} // verus!
