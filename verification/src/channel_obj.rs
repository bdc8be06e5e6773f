//! Channels.
use vstd::prelude::*;

use crate::heap::{Heap, HeapState, QueueState};
use crate::value::GosValue;

verus! {

/// What is in a channel, whether more can be sent, and how many receivers wait.
#[derive(Clone, Debug)]
pub struct ChannelQueue {
    pub cap: usize,
    pub queue: Vec<GosValue>,
    pub closed: bool,
    pub waiting: usize,
}

/// A channel. Copies share the queue.
#[derive(Clone, Copy, Debug)]
pub struct ChannelObj {
    pub recv_zero: GosValue,
    pub chan: usize,
}

/// What came of trying to send.
#[derive(Clone, Copy, Debug)]
pub enum SendStep {
    Sent,
    /// There is no room now: try again later.
    Full,
    Closed,
}

/// What came of trying to receive.
#[derive(Clone, Copy, Debug)]
pub enum RecvStep {
    Received(GosValue),
    /// There is nothing now: try again later.
    Empty,
    /// There is nothing and there will be nothing.
    Closed,
}

impl QueueState {
    /// Whether there is room for one more value: below the capacity, or in a channel
    /// without capacity, as long as a receiver waits for it.
    pub open spec fn has_room(self) -> bool {
        if self.cap > 0 {
            self.queue.len() < self.cap
        } else {
            self.queue.len() < self.waiting
        }
    }

    /// The queue after trying to send `v`.
    pub open spec fn sent(self, v: GosValue) -> (QueueState, SendStep) {
        if self.closed {
            (self, SendStep::Closed)
        } else if self.has_room() {
            (QueueState { queue: self.queue.push(v), ..self }, SendStep::Sent)
        } else {
            (self, SendStep::Full)
        }
    }

    /// The queue after trying to receive.
    pub open spec fn received(self) -> (QueueState, RecvStep) {
        if self.queue.len() > 0 {
            (
                QueueState { queue: self.queue.remove(0), ..self },
                RecvStep::Received(self.queue[0]),
            )
        } else if self.closed {
            (self, RecvStep::Closed)
        } else {
            (self, RecvStep::Empty)
        }
    }
}

impl ChannelObj {
    /// The queue of the channel.
    pub open spec fn state(self, h: HeapState) -> QueueState {
        h.queues[self.chan as int]
    }

    /// A channel with a new queue.
    pub fn new(cap: usize, recv_zero: GosValue, heap: &mut Heap) -> (channel: ChannelObj)
        ensures
            channel.recv_zero == recv_zero,
            channel.chan == old(heap)@.queues.len(),
            final(heap)@ == old(heap)@.plus_queue(
                (QueueState { cap, queue: Seq::empty(), closed: false, waiting: 0 }),
            ),
    {
        let queue = ChannelQueue { cap, queue: Vec::new(), closed: false, waiting: 0 };
        assert(queue.state() =~= QueueState {
            cap,
            queue: Seq::empty(),
            closed: false,
            waiting: 0,
        });
        ChannelObj { chan: heap.alloc_queue(queue), recv_zero }
    }

    /// A channel on an existing queue.
    pub fn with_chan(chan: usize, recv_zero: GosValue) -> (channel: ChannelObj)
        ensures
            channel == (ChannelObj { recv_zero, chan }),
    {
        ChannelObj { chan, recv_zero }
    }

    /// The number of values in the channel.
    pub fn len(&self, heap: &Heap) -> (len: usize)
        requires
            self.chan < heap@.queues.len(),
        ensures
            len == self.state(heap@).queue.len(),
    {
        heap.queues[self.chan].queue.len()
    }

    pub fn cap(&self, heap: &Heap) -> (cap: usize)
        requires
            self.chan < heap@.queues.len(),
        ensures
            cap == self.state(heap@).cap,
    {
        heap.queues[self.chan].cap
    }

    /// Closes the channel: nothing more can be sent.
    pub fn close(&self, heap: &mut Heap)
        requires
            self.chan < old(heap)@.queues.len(),
        ensures
            final(heap)@ == old(heap)@.with_queue(
                self.chan,
                (QueueState { closed: true, ..self.state(old(heap)@) }),
            ),
    {
        let queue: &mut ChannelQueue = heap.queue_mut(self.chan);
        queue.closed = true;
    }

    /// Tries to send a value.
    pub fn send(&self, v: &GosValue, heap: &mut Heap) -> (step: SendStep)
        requires
            self.chan < old(heap)@.queues.len(),
        ensures
            step == self.state(old(heap)@).sent(*v).1,
            final(heap)@ == old(heap)@.with_queue(self.chan, self.state(old(heap)@).sent(*v).0),
    {
        let queue: &mut ChannelQueue = heap.queue_mut(self.chan);
        let room = if queue.cap > 0 {
            queue.queue.len() < queue.cap
        } else {
            queue.queue.len() < queue.waiting
        };
        if queue.closed {
            SendStep::Closed
        } else if room {
            queue.queue.push(*v);
            SendStep::Sent
        } else {
            SendStep::Full
        }
    }

    /// Tries to receive a value.
    pub fn recv(&self, heap: &mut Heap) -> (step: RecvStep)
        requires
            self.chan < old(heap)@.queues.len(),
        ensures
            step == self.state(old(heap)@).received().1,
            final(heap)@ == old(heap)@.with_queue(self.chan, self.state(old(heap)@).received().0),
    {
        let queue: &mut ChannelQueue = heap.queue_mut(self.chan);
        if queue.queue.len() > 0 {
            RecvStep::Received(queue.queue.remove(0))
        } else if queue.closed {
            RecvStep::Closed
        } else {
            RecvStep::Empty
        }
    }

    /// Notes that one more receiver waits.
    pub fn begin_wait(&self, heap: &mut Heap)
        requires
            self.chan < old(heap)@.queues.len(),
            self.state(old(heap)@).waiting < usize::MAX,
        ensures
            final(heap)@ == old(heap)@.with_queue(
                self.chan,
                (QueueState {
                    waiting: (self.state(old(heap)@).waiting + 1) as usize,
                    ..self.state(old(heap)@)
                }),
            ),
    {
        let queue: &mut ChannelQueue = heap.queue_mut(self.chan);
        queue.waiting = queue.waiting + 1;
    }

    /// Notes that one receiver waits no longer.
    pub fn end_wait(&self, heap: &mut Heap)
        requires
            self.chan < old(heap)@.queues.len(),
            self.state(old(heap)@).waiting > 0,
        ensures
            final(heap)@ == old(heap)@.with_queue(
                self.chan,
                (QueueState {
                    waiting: (self.state(old(heap)@).waiting - 1) as usize,
                    ..self.state(old(heap)@)
                }),
            ),
    {
        let queue: &mut ChannelQueue = heap.queue_mut(self.chan);
        queue.waiting = queue.waiting - 1;
    }
}

/// Values come out in the order in which they went in: what was sent into a channel
/// is received after all that was in it.
pub proof fn law_channels_keep_the_order(q: QueueState, v: GosValue)
    requires
        q.sent(v).1 is Sent,
    ensures
        q.sent(v).0.queue == q.queue.push(v),
        q.queue.len() == 0 ==> q.sent(v).0.received() == (q, RecvStep::Received(v)),
        q.queue.len() > 0 ==> q.sent(v).0.received().1 == q.received().1,
        q.queue.len() > 0 ==> q.sent(v).0.received().0 == q.received().0.sent_past(v),
{
    if q.queue.len() == 0 {
        assert(q.queue.push(v).remove(0) =~= q.queue);
    } else {
        assert(q.queue.push(v).remove(0) =~= q.queue.remove(0).push(v));
    }
}

impl QueueState {
    /// The queue with `v` behind what is in it.
    pub open spec fn sent_past(self, v: GosValue) -> QueueState {
        QueueState { queue: self.queue.push(v), ..self }
    }
}

/// Nothing can be sent into a closed channel, but what is in it can still be received,
/// and only then the receiver learns that the channel is closed.
pub proof fn law_closed_channels_run_dry(q: QueueState, v: GosValue)
    requires
        q.closed,
    ensures
        q.sent(v) == (q, SendStep::Closed),
        q.queue.len() > 0 ==> q.received().1 == RecvStep::Received(q.queue[0]),
        q.received().1 is Closed <==> q.queue.len() == 0,
        q.received().0.closed,
{
}

/// A channel with capacity never holds more than that.
pub proof fn law_channels_stay_within_capacity(q: QueueState, v: GosValue)
    requires
        q.cap > 0,
        q.queue.len() <= q.cap,
    ensures
        q.sent(v).0.queue.len() <= q.cap,
        q.received().0.queue.len() <= q.cap,
{
}

/// What comes of sending. A closed channel takes nothing. A channel with capacity takes a value
/// exactly if it holds fewer than that, one without exactly if more receivers wait than values are
/// in it. A value that is taken goes behind the others, and else nothing changes.
pub proof fn law_what_comes_of_sending(q: QueueState, v: GosValue)
    ensures
        ({
            let (after, step) = q.sent(v);
            &&& step is Closed <==> q.closed
            &&& !q.closed && q.cap > 0 ==> (step is Sent <==> q.queue.len() < q.cap)
            &&& !q.closed && q.cap == 0 ==> (step is Sent <==> q.queue.len() < q.waiting)
            &&& !(step is Sent) ==> after == q
            &&& step is Sent ==> {
                &&& after.queue.len() == q.queue.len() + 1
                &&& after.queue.last() == v
                &&& after.queue.drop_last() == q.queue
                &&& after.cap == q.cap && after.closed == q.closed && after.waiting == q.waiting
            }
        }),
{
    assert(q.queue.push(v).drop_last() =~= q.queue);
}

/// What comes of receiving. The first value comes out if there is one, and the others move up.
/// Where there is none, nothing changes, and the receiver learns whether the channel is closed.
pub proof fn law_what_comes_of_receiving(q: QueueState)
    ensures
        ({
            let (after, step) = q.received();
            &&& q.queue.len() > 0 ==> {
                &&& step == RecvStep::Received(q.queue[0])
                &&& after.queue.len() == q.queue.len() - 1
                &&& forall|i: int|
                    0 <= i < after.queue.len() ==> #[trigger] after.queue[i] == q.queue[i + 1]
                &&& after.cap == q.cap && after.closed == q.closed && after.waiting == q.waiting
            }
            &&& q.queue.len() == 0 ==> after == q
            &&& q.queue.len() == 0 && q.closed ==> step == RecvStep::Closed
            &&& q.queue.len() == 0 && !q.closed ==> step == RecvStep::Empty
        }),
{
}

} // verus!
