//! A bounded single-producer, single-consumer channel of reusable buffers. Buffers travel
//! with position stamps over two feeds, so each one is owned by exactly one side at a time.

use std::collections::VecDeque;
use std::sync::mpsc::{Receiver, Sender, TryRecvError};
use vstd::prelude::*;

verus! {

/// A message on one of the two position feeds: the buffer of a position changes hands, or
/// the sending side shut the channel.
enum Feed<T> {
    Slot(u64, T),
    Closed,
}

/// What a non-blocking look at a feed found.
enum Polled<M> {
    Message(M),
    Empty,
    Disconnected,
}

#[verifier::external_type_specification]
#[verifier::external_body]
#[verifier::reject_recursive_types(T)]
pub struct ExSender<T>(Sender<T>);

#[verifier::external_type_specification]
#[verifier::external_body]
#[verifier::reject_recursive_types(T)]
pub struct ExReceiver<T>(Receiver<T>);

/// Relies on `std::sync::mpsc::channel`: a new unbounded FIFO feed and its two ends.
#[verifier::external_body]
fn feed_channel<T>() -> (Sender<Feed<T>>, Receiver<Feed<T>>) {
    std::sync::mpsc::channel()
}

/// Relies on `Sender::send`: when the receiving end is gone the message is not sent and comes
/// back inside the error.
#[verifier::external_body]
fn feed_send<T>(sink: &Sender<Feed<T>>, message: Feed<T>) -> (r: Option<Feed<T>>)
    ensures
        r matches Some(back) ==> back == message,
{
    match sink.send(message) {
        Ok(()) => None,
        Err(e) => Some(e.0),
    }
}

/// Relies on `Receiver::recv`: blocks until a message arrives, or returns `None` once every
/// sending end is gone and the feed is empty.
#[verifier::external_body]
fn feed_recv<T>(source: &Receiver<Feed<T>>) -> Option<Feed<T>> {
    source.recv().ok()
}

/// Relies on `Receiver::try_recv`: the next message if one is waiting, without blocking.
#[verifier::external_body]
fn feed_try_recv<T>(source: &Receiver<Feed<T>>) -> Polled<Feed<T>> {
    match source.try_recv() {
        Ok(m) => Polled::Message(m),
        Err(TryRecvError::Empty) => Polled::Empty,
        Err(TryRecvError::Disconnected) => Polled::Disconnected,
    }
}

/// The `capacity` buffers of a ring channel that are at the producer's disposal, in the order
/// of the positions they will be written at.
#[verifier::reject_recursive_types(T)]
pub struct RingBuf<T> {
    buffer: VecDeque<T>,
    capacity: usize,
}

impl<T> RingBuf<T> {
    pub closed spec fn spec_capacity(&self) -> nat {
        self.capacity as nat
    }

    /// The buffers at hand, in the order they will be written.
    pub closed spec fn spec_slots(&self) -> Seq<T> {
        self.buffer@
    }
}

impl<T: Default + Clone> RingBuf<T> {
    /// `capacity` copies of `default`. A ring of one slot makes no sense (one shared value
    /// wants a lock, not a ring), so the capacity is at least two.
    pub fn new(capacity: usize, default: T) -> (r: RingBuf<T>)
        requires
            capacity >= 2,
        ensures
            r.spec_capacity() == capacity,
            r.spec_slots().len() == capacity,
            forall|i: int| 0 <= i < capacity ==> cloned(default, #[trigger] r.spec_slots()[i]),
    {
        let mut buffer: VecDeque<T> = VecDeque::new();
        let mut i: usize = 0;
        while i < capacity
            invariant
                i <= capacity,
                buffer@.len() == i,
                forall|j: int| 0 <= j < i ==> cloned(default, #[trigger] buffer@[j]),
            decreases capacity - i,
        {
            buffer.push_back(default.clone());
            i = i + 1;
        }
        RingBuf { buffer, capacity }
    }

    /// The two ends of a channel of `capacity` slots, each holding a copy of `default`.
    pub fn create_channel_with_default_value(capacity: usize, default: T) -> (r: (
        RingBufProducer<T>,
        RingBufConsumer<T>,
    ))
        requires
            capacity >= 2,
        ensures
            r.0.wf(),
            r.1.wf(),
            r.0@.capacity == capacity,
            r.0@.written == 0,
            r.0@.acked == 0,
            !r.0@.cancelled,
            !r.0@.closed,
            r.0@.published == Seq::<(nat, T)>::empty(),
            r.0@.free.len() == capacity,
            forall|i: int| 0 <= i < capacity ==> cloned(default, #[trigger] r.0@.free[i]),
            r.1@ == ConsumerView::<T>::start(),
    {
        let ringbuf = RingBuf::new(capacity, default);
        let (next_write_pos_sink, next_write_pos_receiver) = feed_channel();
        let (last_read_pos_sender, last_read_pos_receiver) = feed_channel();
        let producer = RingBufProducer::new(ringbuf, next_write_pos_sink, last_read_pos_receiver);
        let consumer = RingBufConsumer::new(next_write_pos_receiver, last_read_pos_sender);
        (producer, consumer)
    }

    /// The two ends of a channel of `capacity` slots, each holding `T::default()`.
    pub fn create_channel(capacity: usize) -> (r: (RingBufProducer<T>, RingBufConsumer<T>))
        requires
            capacity >= 2,
        ensures
            r.0.wf(),
            r.1.wf(),
            r.0@.capacity == capacity,
            r.0@.written == 0,
            r.0@.acked == 0,
            !r.0@.cancelled,
            !r.0@.closed,
            r.0@.published == Seq::<(nat, T)>::empty(),
            r.0@.free.len() == capacity,
            r.1@ == ConsumerView::<T>::start(),
    {
        Self::create_channel_with_default_value(capacity, T::default())
    }
}

/// The producer's knowledge of the channel.
pub struct ProducerView<T> {
    pub capacity: nat,
    /// Positions written and published.
    pub written: nat,
    /// Positions the consumer is known to have read and handed back.
    pub acked: nat,
    pub cancelled: bool,
    /// The message that shuts the channel went to the consumer.
    pub closed: bool,
    /// Every buffer published so far, with the position it was stamped with.
    pub published: Seq<(nat, T)>,
    /// The buffers at hand, in the order they will be written.
    pub free: Seq<T>,
}

/// The consumer's knowledge of the channel.
pub struct ConsumerView<T> {
    /// Positions read.
    pub read: nat,
    pub cancelled: bool,
    /// The message that shuts the channel went to the producer.
    pub closed: bool,
    /// Every buffer handed to a callback so far, with the position it was stamped with.
    pub received: Seq<(nat, T)>,
    /// Every buffer handed back to the producer, with its position.
    pub handed_back: Seq<(nat, T)>,
}

impl<T> ConsumerView<T> {
    /// A consumer that has read nothing yet.
    pub open spec fn start() -> ConsumerView<T> {
        ConsumerView {
            read: 0,
            cancelled: false,
            closed: false,
            received: Seq::empty(),
            handed_back: Seq::empty(),
        }
    }
}

/// Entry `k` of a log carries position `k`: positions are consecutive from zero.
pub open spec fn stamped_in_order<T>(log: Seq<(nat, T)>) -> bool {
    forall|k: int| 0 <= k < log.len() ==> #[trigger] log[k].0 == k
}

/// The consumer gets the buffers in the order they were published, none twice and none
/// that was not published: as long as every stamped buffer it accepted came from the
/// producer, whatever the feed between them did to the order, what it received is the start
/// of what was published.
pub proof fn lemma_fifo<T>(published: Seq<(nat, T)>, received: Seq<(nat, T)>)
    requires
        stamped_in_order(published),
        stamped_in_order(received),
        forall|k: int|
            0 <= k < received.len() ==> exists|j: int|
                0 <= j < published.len() && published[j] == #[trigger] received[k],
    ensures
        received.len() <= published.len(),
        received == published.subrange(0, received.len() as int),
{
    assert forall|k: int| 0 <= k < received.len() implies k < published.len() && published[k]
        == received[k] by {
        let j = choose|j: int| 0 <= j < published.len() && published[j] == received[k];
        assert(published[j].0 == j);
        assert(received[k].0 == k);
    }
    if received.len() > 0 {
        let k = received.len() - 1;
        assert(published[k] == received[k]);
    }
    assert(received =~= published.subrange(0, received.len() as int));
}

/// The writing end of a ring channel.
#[verifier::reject_recursive_types(T)]
pub struct RingBufProducer<T> {
    ringbuf: RingBuf<T>,
    next_write_pos_sink: Sender<Feed<T>>,
    last_read_pos: Receiver<Feed<T>>,
    next_write_pos: u64,
    lastknown_last_read_pos: u64,
    cancelled: bool,
    closed: bool,
    published: Ghost<Seq<(nat, T)>>,
}

impl<T> View for RingBufProducer<T> {
    type V = ProducerView<T>;

    closed spec fn view(&self) -> ProducerView<T> {
        ProducerView {
            capacity: self.ringbuf.capacity as nat,
            written: self.next_write_pos as nat,
            acked: self.lastknown_last_read_pos as nat,
            cancelled: self.cancelled,
            closed: self.closed,
            published: self.published@,
            free: self.ringbuf.buffer@,
        }
    }
}

/// The producer's positions and buffers agree: positions are never read before they are
/// written, nor written more than a ring ahead of what was read; the buffers at hand are those
/// of the slots the consumer gave back; the log holds one entry per position written.
pub open spec fn producer_wf<T>(v: ProducerView<T>) -> bool {
    &&& v.capacity >= 2
    &&& v.acked <= v.written <= v.acked + v.capacity
    &&& v.written <= u64::MAX
    &&& v.free.len() == v.capacity - (v.written - v.acked)
    &&& v.published.len() == v.written
    &&& stamped_in_order(v.published)
}

impl<T> RingBufProducer<T> {
    pub open spec fn wf(&self) -> bool {
        producer_wf(self@)
    }

    fn new(
        ringbuf: RingBuf<T>,
        next_write_pos_sink: Sender<Feed<T>>,
        last_read_pos: Receiver<Feed<T>>,
    ) -> (r: Self)
        requires
            ringbuf.spec_capacity() >= 2,
            ringbuf.spec_slots().len() == ringbuf.spec_capacity(),
        ensures
            r.wf(),
            r@ == (ProducerView::<T> {
                capacity: ringbuf.spec_capacity(),
                written: 0,
                acked: 0,
                cancelled: false,
                closed: false,
                published: Seq::empty(),
                free: ringbuf.spec_slots(),
            }),
    {
        RingBufProducer {
            ringbuf,
            next_write_pos_sink,
            last_read_pos,
            next_write_pos: 0,
            lastknown_last_read_pos: 0,
            cancelled: false,
            closed: false,
            published: Ghost(Seq::empty()),
        }
    }

    /// Shuts the channel: this end stops, and the message that says so goes to the consumer,
    /// which sees it after the buffers already published. Calling it again changes nothing
    /// more.
    pub fn cancel(&mut self)
        requires
            old(self).wf(),
        ensures
            final(self).wf(),
            final(self)@ == (ProducerView { cancelled: true, closed: true, ..old(self)@ }),
    {
        self.cancelled = true;
        if !self.closed {
            let _ = feed_send(&self.next_write_pos_sink, Feed::Closed);
            self.closed = true;
        }
    }

    /// Takes a buffer the consumer handed back if it is the one of the oldest position not yet
    /// handed back; any other message, or none, ends the channel.
    fn take_back(&mut self, message: Option<Feed<T>>) -> (ok: bool)
        requires
            old(self).wf(),
            !old(self)@.cancelled,
        ensures
            final(self).wf(),
            ok <==> (message matches Some(Feed::Slot(p, _)) && p == old(self)@.acked && p
                < old(self)@.written),
            ok ==> (message matches Some(Feed::Slot(_, b)) && final(self)@ == (ProducerView {
                acked: old(self)@.acked + 1,
                free: old(self)@.free.push(b),
                ..old(self)@
            })),
            !ok ==> final(self)@ == (ProducerView { cancelled: true, ..old(self)@ }),
    {
        match message {
            Some(Feed::Slot(pos, buf)) => {
                if pos == self.lastknown_last_read_pos && pos < self.next_write_pos {
                    self.ringbuf.buffer.push_back(buf);
                    self.lastknown_last_read_pos = pos + 1;
                    true
                } else {
                    self.cancelled = true;
                    false
                }
            },
            _ => {
                self.cancelled = true;
                false
            },
        }
    }

    /// Waits until a slot is free and takes its buffer: from what the consumer already handed
    /// back, or else from the next slot it hands back. `None` once the channel is cancelled or
    /// the consumer is gone.
    fn acquire(&mut self) -> (r: Option<T>)
        requires
            old(self).wf(),
            !old(self)@.cancelled,
        ensures
            final(self)@.capacity == old(self)@.capacity,
            final(self)@.written == old(self)@.written,
            final(self)@.published == old(self)@.published,
            final(self)@.closed == old(self)@.closed,
            old(self)@.acked <= final(self)@.acked,
            r matches Some(b) ==> !final(self)@.cancelled && final(self)@.written < u64::MAX
                && producer_wf(ProducerView { free: seq![b] + final(self)@.free, ..final(self)@ })
                && final(self)@.written < final(self)@.acked + final(self)@.capacity,
            r is None ==> final(self).wf() && final(self)@.cancelled,
    {
        // Collect what the consumer already gave back, without waiting.
        loop
            invariant
                self.wf(),
                !self.cancelled,
                self@.capacity == old(self)@.capacity,
                self@.written == old(self)@.written,
                self@.published == old(self)@.published,
                self@.closed == old(self)@.closed,
                old(self)@.acked <= self@.acked,
            decreases self.next_write_pos - self.lastknown_last_read_pos,
        {
            match feed_try_recv(&self.last_read_pos) {
                Polled::Empty => break,
                Polled::Message(m) => {
                    if !self.take_back(Some(m)) {
                        return None;
                    }
                },
                Polled::Disconnected => {
                    self.cancelled = true;
                    return None;
                },
            }
        }
        // Every slot is still with the consumer: wait until it hands the oldest one back.
        if self.ringbuf.buffer.len() == 0 {
            let m = feed_recv(&self.last_read_pos);
            if !self.take_back(m) {
                return None;
            }
        }
        if self.next_write_pos == u64::MAX {
            self.cancelled = true;
            return None;
        }
        let ghost before = self.ringbuf.buffer@;
        match self.ringbuf.buffer.pop_front() {
            Some(b) => {
                assert(before =~= seq![b] + self.ringbuf.buffer@);
                Some(b)
            },
            None => {
                self.cancelled = true;
                None
            },
        }
    }

    /// Publishes `buf` as the buffer of position `written`. If the consumer is gone, nothing is
    /// published: the buffer goes back to the front of those at hand and the channel is
    /// cancelled.
    fn publish(&mut self, buf: T) -> (ok: bool)
        requires
            !old(self)@.cancelled,
            old(self)@.written < u64::MAX,
            old(self)@.written < old(self)@.acked + old(self)@.capacity,
            producer_wf(ProducerView { free: seq![buf] + old(self)@.free, ..old(self)@ }),
        ensures
            final(self).wf(),
            ok ==> final(self)@ == (ProducerView {
                written: old(self)@.written + 1,
                published: old(self)@.published.push((old(self)@.written, buf)),
                ..old(self)@
            }),
            !ok ==> final(self)@ == (ProducerView {
                cancelled: true,
                free: seq![buf] + old(self)@.free,
                ..old(self)@
            }),
    {
        let pos = self.next_write_pos;
        match feed_send(&self.next_write_pos_sink, Feed::Slot(pos, buf)) {
            None => {
                self.next_write_pos = pos + 1;
                proof {
                    self.published@ = self.published@.push((pos as nat, buf));
                }
                true
            },
            Some(back) => {
                let buf = match back {
                    Feed::Slot(_, b) => b,
                    Feed::Closed => {
                        proof {
                            assert(false);
                        }
                        return false;
                    },
                };
                let ghost old_free = self.ringbuf.buffer@;
                self.ringbuf.buffer.push_front(buf);
                assert(self.ringbuf.buffer@ =~= seq![buf] + old_free);
                self.cancelled = true;
                false
            },
        }
    }

    /// Waits for a free slot, lets `func` write its buffer, and publishes that buffer as
    /// position `written`; the result is what `func` returned. Fails once the channel is
    /// cancelled or the consumer is gone, and then nothing is published.
    pub fn with_next_buffer<F: FnMut(&mut T) -> R, R>(&mut self, mut func: F) -> (r: Result<
        R,
        (),
    >)
        requires
            old(self).wf(),
            forall|b: &mut T| #[trigger] func.requires((b,)),
        ensures
            final(self).wf(),
            final(self)@.capacity == old(self)@.capacity,
            final(self)@.closed == old(self)@.closed,
            old(self)@.cancelled ==> r is Err && final(self)@ == old(self)@,
            r is Err ==> final(self)@.cancelled && final(self)@.written == old(self)@.written
                && final(self)@.published == old(self)@.published,
            r is Ok ==> !final(self)@.cancelled && final(self)@.written == old(self)@.written + 1
                && old(self)@.acked <= final(self)@.acked,
            r is Ok ==> final(self)@.published.drop_last() == old(self)@.published
                && final(self)@.published.last().0 == old(self)@.written,
            r matches Ok(v) ==> exists|b: &mut T|
                func.ensures((b,), v) && *final(b) == final(self)@.published.last().1,
            // The slot written was free: the position a ring earlier had been read and
            // handed back.
            r is Ok ==> old(self)@.written < final(self)@.acked + final(self)@.capacity,
    {
        if self.cancelled {
            return Err(());
        }
        let ghost f0 = func;
        let mut buf = match self.acquire() {
            Some(b) => b,
            None => return Err(()),
        };
        let bref = &mut buf;
        let ghost fin = after_borrow(buf);
        let ret = func(bref);
        let ghost b0 = choose|b: &mut T| f0.ensures((b,), ret) && *final(b) == fin;
        proof {
            assert(exists|b: &mut T| f0.ensures((b,), ret) && *final(b) == fin);
        }
        assert(buf == fin);
        if !self.publish(buf) {
            return Err(());
        }
        assert(f0.ensures((b0,), ret) && *final(b0) == self@.published.last().1);
        assert(f0 == func);
        Ok(ret)
    }

    /// Like `with_next_buffer`, for a `func` that can fail: its buffer is published only when
    /// it succeeds. On a failure nothing is published, the buffer stays at hand, the channel
    /// is shut, so the consumer learns that the stream is over, and the error is handed back.
    pub fn fill_next_buffer<F: FnMut(&mut T) -> Result<R, E>, R, E>(&mut self, mut func: F) -> (r:
        Result<Result<R, E>, ()>)
        requires
            old(self).wf(),
            forall|b: &mut T| #[trigger] func.requires((b,)),
        ensures
            final(self).wf(),
            final(self)@.capacity == old(self)@.capacity,
            old(self)@.cancelled ==> r is Err && final(self)@ == old(self)@,
            r is Err ==> final(self)@.cancelled && final(self)@.written == old(self)@.written
                && final(self)@.published == old(self)@.published,
            r matches Ok(Ok(v)) ==> {
                &&& !final(self)@.cancelled
                &&& final(self)@.written == old(self)@.written + 1
                &&& old(self)@.written < final(self)@.acked + final(self)@.capacity
                &&& final(self)@.published.drop_last() == old(self)@.published
                &&& final(self)@.published.last().0 == old(self)@.written
                &&& exists|b: &mut T|
                    #[trigger] func.ensures((b,), Ok::<R, E>(v)) && *final(b)
                        == final(self)@.published.last().1
            },
            r matches Ok(Err(e)) ==> {
                &&& final(self)@.cancelled
                &&& final(self)@.closed
                &&& final(self)@.written == old(self)@.written
                &&& final(self)@.published == old(self)@.published
                &&& exists|b: &mut T| #[trigger] func.ensures((b,), Err::<R, E>(e))
            },
    {
        if self.cancelled {
            return Err(());
        }
        let ghost f0 = func;
        let mut buf = match self.acquire() {
            Some(b) => b,
            None => return Err(()),
        };
        let bref = &mut buf;
        let ghost fin = after_borrow(buf);
        let ret = func(bref);
        let ghost b0 = choose|b: &mut T| f0.ensures((b,), ret) && *final(b) == fin;
        proof {
            assert(exists|b: &mut T| f0.ensures((b,), ret) && *final(b) == fin);
        }
        assert(buf == fin);
        match ret {
            Ok(v) => {
                if !self.publish(buf) {
                    return Err(());
                }
                assert(f0.ensures((b0,), Ok::<R, E>(v)) && *final(b0)
                    == self@.published.last().1);
                Ok(Ok(v))
            },
            Err(e) => {
                let ghost old_free = self.ringbuf.buffer@;
                self.ringbuf.buffer.push_front(buf);
                assert(self.ringbuf.buffer@ =~= seq![buf] + old_free);
                self.cancel();
                assert(f0.ensures((b0,), Err::<R, E>(e)));
                Ok(Err(e))
            },
        }
    }
}

/// The reading end of a ring channel.
#[verifier::reject_recursive_types(T)]
pub struct RingBufConsumer<T> {
    next_write_pos: Receiver<Feed<T>>,
    last_read_pos: Sender<Feed<T>>,
    next_read_pos: u64,
    cancelled: bool,
    closed: bool,
    received: Ghost<Seq<(nat, T)>>,
    handed_back: Ghost<Seq<(nat, T)>>,
}

impl<T> View for RingBufConsumer<T> {
    type V = ConsumerView<T>;

    closed spec fn view(&self) -> ConsumerView<T> {
        ConsumerView {
            read: self.next_read_pos as nat,
            cancelled: self.cancelled,
            closed: self.closed,
            received: self.received@,
            handed_back: self.handed_back@,
        }
    }
}

impl<T> RingBufConsumer<T> {
    /// One log entry per position read, stamped in order; every buffer read went back.
    pub open spec fn wf(&self) -> bool {
        &&& self@.received.len() == self@.read
        &&& stamped_in_order(self@.received)
        &&& self@.handed_back == self@.received
    }

    fn new(next_write_pos: Receiver<Feed<T>>, last_read_pos: Sender<Feed<T>>) -> (r: Self)
        ensures
            r.wf(),
            r@ == ConsumerView::<T>::start(),
    {
        RingBufConsumer {
            next_write_pos,
            last_read_pos,
            next_read_pos: 0,
            cancelled: false,
            closed: false,
            received: Ghost(Seq::empty()),
            handed_back: Ghost(Seq::empty()),
        }
    }

    /// Shuts the channel: this end stops, and the message that says so goes to the producer,
    /// so that a producer waiting for a free slot wakes up and fails. Calling it again changes
    /// nothing more.
    pub fn cancel(&mut self)
        requires
            old(self).wf(),
        ensures
            final(self).wf(),
            final(self)@ == (ConsumerView { cancelled: true, closed: true, ..old(self)@ }),
    {
        self.cancelled = true;
        if !self.closed {
            let _ = feed_send(&self.last_read_pos, Feed::Closed);
            self.closed = true;
        }
    }

    /// Decides on a message from the producer: the buffer of position `read` is taken;
    /// anything else (a buffer stamped with another position, the producer's shut message, or
    /// no message because the producer is gone) ends the channel.
    fn accept(&mut self, m: Option<Feed<T>>) -> (r: Option<T>)
        ensures
            r is Some <==> (m matches Some(Feed::Slot(p, _)) && p == old(self)@.read && p
                < u64::MAX),
            r matches Some(b) ==> m == Some(Feed::Slot(old(self)@.read as u64, b)),
            r is Some ==> final(self)@ == old(self)@,
            r is None ==> final(self)@ == (ConsumerView { cancelled: true, ..old(self)@ }),
    {
        match m {
            Some(Feed::Slot(pos, buf)) => {
                if pos == self.next_read_pos && pos < u64::MAX {
                    Some(buf)
                } else {
                    self.cancelled = true;
                    None
                }
            },
            _ => {
                self.cancelled = true;
                None
            },
        }
    }

    /// Waits for the buffer of position `read`, lets `func` read it, and hands it back to the
    /// producer with its position; the result is what `func` returned. Buffers come in the
    /// order they were published: what `accept` refuses ends the channel instead.
    pub fn with_next_buffer<F: FnMut(&T) -> R, R>(&mut self, mut func: F) -> (r: Result<R, ()>)
        requires
            old(self).wf(),
            forall|b: &T| #[trigger] func.requires((b,)),
        ensures
            final(self).wf(),
            old(self)@.cancelled ==> r is Err && final(self)@ == old(self)@,
            r is Err ==> final(self)@ == (ConsumerView { cancelled: true, ..old(self)@ }),
            r matches Ok(v) ==> {
                &&& final(self)@.read == old(self)@.read + 1
                &&& !final(self)@.cancelled
                &&& final(self)@.closed == old(self)@.closed
                &&& final(self)@.received.len() == old(self)@.received.len() + 1
                &&& final(self)@.received.drop_last() == old(self)@.received
                &&& final(self)@.received.last().0 == old(self)@.read
                &&& final(self)@.handed_back == old(self)@.handed_back.push(
                    final(self)@.received.last(),
                )
                &&& func.ensures((&final(self)@.received.last().1,), v)
            },
    {
        if self.cancelled {
            return Err(());
        }
        let m = feed_recv(&self.next_write_pos);
        let buf = match self.accept(m) {
            Some(b) => b,
            None => return Err(()),
        };
        let pos = self.next_read_pos;
        let ret = func(&buf);
        proof {
            self.received@ = self.received@.push((pos as nat, buf));
            self.handed_back@ = self.handed_back@.push((pos as nat, buf));
        }
        let _ = feed_send(&self.last_read_pos, Feed::Slot(pos, buf));
        self.next_read_pos = pos + 1;
        proof {
            assert(self.received@.drop_last() =~= old(self).received@);
        }
        Ok(ret)
    }
}

} // verus!
