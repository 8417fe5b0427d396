//! Filling one buffer from the bulk endpoint: chunking, the in-flight window and the checks
//! on every completion, as a state machine that the reading loop asks what to do next.

use crate::{Error, UsbError};
use vstd::arithmetic::div_mod::{
    lemma_div_is_ordered_by_denominator, lemma_div_multiples_vanish, lemma_fundamental_div_mod,
    lemma_mod_multiples_basic,
};
use vstd::prelude::*;

verus! {

/// Size of one chunk request: large enough to amortise the cost of a request, small enough
/// to keep latency and memory bounded.
pub const BLOCK_SIZE: usize = 32 * 1024;

/// How many chunk requests the device tolerates outstanding at once.
pub const MAX_IN_FLIGHT: usize = 500;

/// Number of chunks of at most `block` bytes that cover `len` bytes.
pub open spec fn chunk_count(len: nat, block: nat) -> nat
    recommends
        block > 0,
{
    if len % block == 0 {
        len / block
    } else {
        len / block + 1
    }
}

/// First byte of chunk `i`.
pub open spec fn chunk_start(i: nat, block: nat) -> nat {
    i * block
}

/// One past the last byte of chunk `i`: a full block, or what is left of the buffer.
pub open spec fn chunk_end(i: nat, len: nat, block: nat) -> nat {
    if (i + 1) * block <= len {
        (i + 1) * block
    } else {
        len
    }
}

/// What the reading loop does next while it fills one buffer.
#[derive(Debug, Clone, Copy, PartialEq, Eq, Structural)]
pub enum FillStep {
    /// Submit a read request for bytes `start..end` of the buffer.
    Submit { start: usize, end: usize },
    /// Wait until any one outstanding request completes.
    WaitAny,
    /// Every chunk has been read in full.
    Done,
}

/// Progress of one fill: how the buffer is cut into chunks, how many chunk requests went
/// out and how many came back complete.
#[derive(Debug, Clone, Copy, PartialEq, Eq, Structural)]
pub struct FillState {
    pub len: usize,
    pub block: usize,
    pub window: usize,
    pub chunks: usize,
    pub submitted: usize,
    pub completed: usize,
}

impl FillState {
    pub open spec fn spec_len(&self) -> nat {
        self.len as nat
    }

    pub open spec fn spec_block(&self) -> nat {
        self.block as nat
    }

    pub open spec fn spec_window(&self) -> nat {
        self.window as nat
    }

    pub open spec fn spec_chunks(&self) -> nat {
        self.chunks as nat
    }

    pub open spec fn spec_submitted(&self) -> nat {
        self.submitted as nat
    }

    pub open spec fn spec_completed(&self) -> nat {
        self.completed as nat
    }

    /// Requests submitted and not yet completed.
    pub open spec fn outstanding(&self) -> nat {
        (self.submitted - self.completed) as nat
    }

    /// The chunks cover the buffer, no more chunks go out than there are, no more come back
    /// than went out, and at most `window` are outstanding.
    pub open spec fn wf(&self) -> bool {
        &&& self.block > 0
        &&& self.window > 0
        &&& self.chunks as nat == chunk_count(self.len as nat, self.block as nat)
        &&& self.completed <= self.submitted <= self.chunks
        &&& self.submitted - self.completed <= self.window
    }

    /// The step that the state calls for.
    pub open spec fn step_spec(&self) -> FillStep {
        if self.submitted < self.chunks && self.submitted - self.completed < self.window {
            FillStep::Submit {
                start: chunk_start(self.submitted as nat, self.block as nat) as usize,
                end: chunk_end(self.submitted as nat, self.len as nat, self.block as nat) as usize,
            }
        } else if self.submitted > self.completed {
            FillStep::WaitAny
        } else {
            FillStep::Done
        }
    }

    /// A fill of `len` bytes in chunks of `block` bytes, with at most `window` requests
    /// outstanding.
    pub fn new(len: usize, block: usize, window: usize) -> (r: FillState)
        requires
            block > 0,
            window > 0,
        ensures
            r.wf(),
            r.spec_len() == len,
            r.spec_block() == block,
            r.spec_window() == window,
            r.spec_chunks() == chunk_count(len as nat, block as nat),
            r.spec_submitted() == 0,
            r.spec_completed() == 0,
    {
        let chunks = if len % block == 0 {
            len / block
        } else {
            proof {
                lemma_div_is_ordered_by_denominator(len as int, 1, block as int);
                lemma_div_is_ordered_by_denominator(len as int, 2, block as int);
            }
            len / block + 1
        };
        FillState { len, block, window, chunks, submitted: 0, completed: 0 }
    }

    /// A fill of `len` bytes with the device's chunk size and in-flight bound.
    pub fn for_buffer(len: usize) -> (r: FillState)
        ensures
            r.wf(),
            r.spec_len() == len,
            r.spec_block() == BLOCK_SIZE,
            r.spec_window() == MAX_IN_FLIGHT,
            r.spec_chunks() == chunk_count(len as nat, BLOCK_SIZE as nat),
            r.spec_submitted() == 0,
            r.spec_completed() == 0,
    {
        FillState::new(len, BLOCK_SIZE, MAX_IN_FLIGHT)
    }

    pub fn chunks(&self) -> (r: usize)
        ensures
            r == self.spec_chunks(),
    {
        self.chunks
    }

    pub fn submitted(&self) -> (r: usize)
        ensures
            r == self.spec_submitted(),
    {
        self.submitted
    }

    pub fn completed(&self) -> (r: usize)
        ensures
            r == self.spec_completed(),
    {
        self.completed
    }

    /// Submit the next chunk while there is one and the window has room; else wait for a
    /// completion while any is outstanding; else the fill is done.
    pub fn next_step(&self) -> (r: FillStep)
        requires
            self.wf(),
        ensures
            r == self.step_spec(),
            r is Done <==> self.spec_submitted() == self.spec_chunks() && self.spec_completed()
                == self.spec_chunks(),
            r matches FillStep::Submit { start, end } ==> start < end <= self.spec_len() && end
                - start <= self.spec_block(),
    {
        if self.submitted < self.chunks && self.submitted - self.completed < self.window {
            proof {
                lemma_chunk_bounds(self.submitted as nat, self.len as nat, self.block as nat);
            }
            let start = self.submitted * self.block;
            let end = if self.block <= self.len - start {
                start + self.block
            } else {
                self.len
            };
            proof {
                assert((self.submitted + 1) * self.block == self.submitted * self.block
                    + self.block) by (nonlinear_arith);
            }
            FillStep::Submit { start, end }
        } else if self.submitted > self.completed {
            FillStep::WaitAny
        } else {
            FillStep::Done
        }
    }

    /// The request that `next_step` asked for went out.
    pub fn on_submitted(&mut self)
        requires
            old(self).wf(),
            old(self).step_spec() is Submit,
        ensures
            final(self).wf(),
            *final(self) == (FillState { submitted: (old(self).submitted + 1) as usize, ..*old(self) }),
            final(self).outstanding() == old(self).outstanding() + 1,
            final(self).outstanding() <= final(self).spec_window(),
    {
        self.submitted = self.submitted + 1;
    }

    /// A request of `requested` bytes completed with `actual` bytes: anything short of what
    /// was asked for ends the fill.
    pub fn on_completed(&mut self, requested: usize, actual: usize) -> (r: Result<(), Error>)
        requires
            old(self).wf(),
            old(self).outstanding() > 0,
        ensures
            final(self).wf(),
            r is Ok <==> actual == requested,
            r is Ok ==> *final(self) == (FillState {
                completed: (old(self).completed + 1) as usize,
                ..*old(self)
            }),
            r is Err ==> r == Err::<(), Error>(Error::ShortTransfer { requested, actual })
                && *final(self) == *old(self),
    {
        if actual != requested {
            return Err(Error::ShortTransfer { requested, actual });
        }
        self.completed = self.completed + 1;
        Ok(())
    }

    /// Waiting for a completion failed with `e`. Once every chunk went out this means a request
    /// vanished without completing, which is reported as such; before that, the USB failure is.
    pub fn on_wait_failed(&self, e: UsbError) -> (r: Error)
        requires
            self.wf(),
        ensures
            self.spec_submitted() == self.spec_chunks() ==> r == (Error::IncompleteDrain {
                submitted: self.chunks,
                completed: self.completed,
            }),
            self.spec_submitted() < self.spec_chunks() ==> r == Error::Usb(e),
    {
        if self.submitted == self.chunks {
            Error::IncompleteDrain { submitted: self.chunks, completed: self.completed }
        } else {
            Error::Usb(e)
        }
    }
}

/// A buffer of exactly `k` blocks is cut into exactly `k` chunks, each a full block.
pub proof fn lemma_exact_multiple(k: nat, block: nat)
    requires
        block > 0,
    ensures
        chunk_count(k * block, block) == k,
        forall|i: nat|
            i < k ==> chunk_end(i, k * block, block) - chunk_start(i, block) == block as int,
{
    lemma_mod_multiples_basic(k as int, block as int);
    assert((k * block) / block == k) by {
        lemma_div_multiples_vanish(k as int, block as int);
        assert(block * k == k * block) by (nonlinear_arith);
    }
    assert forall|i: nat| i < k implies chunk_end(i, k * block, block) - chunk_start(i, block)
        == block as int by {
        assert((i + 1) * block <= k * block) by (nonlinear_arith)
            requires
                i < k,
                block > 0,
        ;
        assert((i + 1) * block == i * block + block) by (nonlinear_arith);
    }
}

/// Runs a fill of whole blocks to its end, taking its steps as `step_spec` says and changing
/// the state as `on_submitted` and `on_completed` do: a submission goes out, and each wait is
/// answered by the next entry of `actuals`, the byte count of whichever one-block request
/// completed. The result is the final state, or the error that
/// ended the fill.
pub open spec fn run_fill(s: FillState, actuals: Seq<usize>) -> Result<FillState, Error>
    decreases 2 * (s.chunks - s.submitted) + (s.submitted - s.completed), actuals.len(),
{
    if !s.wf() {
        Err(Error::Cancelled)
    } else {
        match s.step_spec() {
            FillStep::Submit { .. } => run_fill(
                FillState { submitted: (s.submitted + 1) as usize, ..s },
                actuals,
            ),
            FillStep::WaitAny => if actuals.len() == 0 {
                Err(Error::IncompleteDrain { submitted: s.chunks, completed: s.completed })
            } else if actuals[0] != s.block {
                Err(Error::ShortTransfer { requested: s.block, actual: actuals[0] })
            } else {
                run_fill(
                    FillState { completed: (s.completed + 1) as usize, ..s },
                    actuals.drop_first(),
                )
            },
            FillStep::Done => Ok(s),
        }
    }
}

proof fn lemma_run_fill(s: FillState, actuals: Seq<usize>)
    requires
        s.wf(),
        actuals.len() == s.chunks - s.completed,
    ensures
        run_fill(s, actuals) is Ok <==> forall|i: int|
            0 <= i < actuals.len() ==> #[trigger] actuals[i] == s.block,
        run_fill(s, actuals) matches Ok(f) ==> f.submitted == s.chunks && f.completed
            == s.chunks,
    decreases 2 * (s.chunks - s.submitted) + (s.submitted - s.completed), actuals.len(),
{
    match s.step_spec() {
        FillStep::Submit { .. } => {
            let t = FillState { submitted: (s.submitted + 1) as usize, ..s };
            lemma_run_fill(t, actuals);
        },
        FillStep::WaitAny => {
            if actuals[0] != s.block {
                assert(!(forall|i: int| 0 <= i < actuals.len() ==> #[trigger] actuals[i] == s.block));
            } else {
                let t = FillState { completed: (s.completed + 1) as usize, ..s };
                let rest = actuals.drop_first();
                lemma_run_fill(t, rest);
                if forall|i: int| 0 <= i < rest.len() ==> #[trigger] rest[i] == s.block {
                    assert forall|i: int| 0 <= i < actuals.len() implies #[trigger] actuals[i]
                        == s.block by {
                        if i > 0 {
                            assert(actuals[i] == rest[i - 1]);
                        }
                    }
                } else {
                    let j = choose|j: int| 0 <= j < rest.len() && rest[j] != s.block;
                    assert(actuals[j + 1] == rest[j]);
                }
            }
        },
        FillStep::Done => {},
    }
}

/// A fill of exactly `k` blocks issues exactly `k` chunk requests and succeeds exactly when
/// every one of the `k` completions reports a full block; one short completion fails it.
pub proof fn lemma_fill_whole_blocks(k: nat, block: usize, window: usize, actuals: Seq<usize>)
    requires
        block > 0,
        window > 0,
        k * block <= usize::MAX,
        actuals.len() == k,
    ensures
        ({
            let s = FillState {
                len: (k * block) as usize,
                block,
                window,
                chunks: k as usize,
                submitted: 0,
                completed: 0,
            };
            &&& s.wf()
            &&& chunk_count((k * block) as nat, block as nat) == k
            &&& run_fill(s, actuals) is Ok <==> forall|i: int|
                0 <= i < k ==> #[trigger] actuals[i] == block
            &&& run_fill(s, actuals) matches Ok(f) ==> f.submitted == k && f.completed == k
        }),
{
    lemma_exact_multiple(k, block as nat);
    assert(k <= k * block) by (nonlinear_arith)
        requires
            block > 0,
    ;
    let s = FillState {
        len: (k * block) as usize,
        block,
        window,
        chunks: k as usize,
        submitted: 0,
        completed: 0,
    };
    lemma_run_fill(s, actuals);
}

/// However the steps are taken, no more than `window` chunk requests are ever outstanding:
/// every state that the fill goes through is well formed, and well-formedness bounds them.
pub proof fn lemma_window_bound(s: FillState)
    requires
        s.wf(),
    ensures
        s.outstanding() <= s.spec_window(),
        s.step_spec() is Submit ==> s.outstanding() + 1 <= s.spec_window(),
{
}

/// Chunk `i` of a buffer starts inside it and ends no later than its end.
proof fn lemma_chunk_bounds(i: nat, len: nat, block: nat)
    requires
        block > 0,
        i < chunk_count(len, block),
    ensures
        i * block < len,
        chunk_start(i, block) < chunk_end(i, len, block) <= len,
{
    lemma_fundamental_div_mod(len as int, block as int);
    assert(i * block < len) by (nonlinear_arith)
        requires
            block > 0,
            i < (if len % block == 0 { len / block } else { len / block + 1 }),
            len == block * (len / block) + len % block,
            len % block < block,
    {
        if len % block == 0 {
            assert(i <= len / block - 1);
            assert(i * block <= (len / block - 1) * block);
        } else {
            assert(i <= len / block);
            assert(i * block <= (len / block) * block);
        }
    }
    assert((i + 1) * block == i * block + block) by (nonlinear_arith);
}

} // verus!
