use vstd::prelude::*;

verus! {

/// The largest capacity a channel is opened with. tokio's bounded channel
/// accepts up to its semaphore's permit limit, `usize::MAX >> 3`, which is at
/// least this on every target.
pub const MAX_CAPACITY: usize = 0x1FFF_FFFF;

/// Both handles of one tokio bounded channel of message indices.
///
/// tokio hands a channel out as a sender and a receiver; the buffer they share
/// is what this type stands for, so the two are held together and never given
/// away.
#[verifier::external_body]
pub struct MessageQueue {
    tx: tokio::sync::mpsc::Sender<u64>,
    rx: tokio::sync::mpsc::Receiver<u64>,
}

/// The messages buffered in the queue, oldest first.
pub uninterp spec fn queued(q: MessageQueue) -> Seq<u64>;

/// The capacity the queue was opened with.
pub uninterp spec fn bound(q: MessageQueue) -> nat;

/// Whether the receiving side has been closed.
pub uninterp spec fn shut(q: MessageQueue) -> bool;

/// What an attempt to send found.
#[derive(PartialEq, Eq, Structural, Clone, Copy, Debug)]
pub enum SendAttempt {
    /// The message was buffered.
    Sent,
    /// Every slot was taken; nothing changed.
    Full,
    /// The channel is closed; the message was refused.
    Closed,
}

/// What an attempt to receive found.
#[derive(PartialEq, Eq, Structural, Clone, Copy, Debug)]
pub enum RecvAttempt {
    /// The oldest buffered message, now taken out.
    Item(u64),
    /// Nothing is buffered yet, and the channel is still open.
    Empty,
    /// The channel is closed and drained: the stream has ended.
    Ended,
}

/// Relies on tokio::sync::mpsc::channel: a new channel is open, empty, and has
/// the given capacity. It panics on 0 and above the semaphore's permit limit.
#[verifier::external_body]
fn open_queue(capacity: usize) -> (q: MessageQueue)
    requires
        1 <= capacity <= MAX_CAPACITY,
    ensures
        queued(q) == Seq::<u64>::empty(),
        bound(q) == capacity as nat,
        !shut(q),
{
    let (tx, rx) = tokio::sync::mpsc::channel(capacity);
    MessageQueue { tx, rx }
}

/// Relies on tokio::sync::mpsc::Sender::try_send: it fails with `Closed` once
/// the receiver is closed, with `Full` when no permit is left, and otherwise
/// appends the message. A permit is taken per buffered message and given back
/// when the receiver takes one out, and no other handle exists.
#[verifier::external_body]
fn queue_try_send(q: &mut MessageQueue, m: u64) -> (r: SendAttempt)
    ensures
        bound(*final(q)) == bound(*old(q)),
        shut(*final(q)) == shut(*old(q)),
        shut(*old(q)) ==> r == SendAttempt::Closed && queued(*final(q)) == queued(*old(q)),
        !shut(*old(q)) && queued(*old(q)).len() < bound(*old(q)) ==> r == SendAttempt::Sent
            && queued(*final(q)) == queued(*old(q)).push(m),
        !shut(*old(q)) && queued(*old(q)).len() >= bound(*old(q)) ==> r == SendAttempt::Full
            && queued(*final(q)) == queued(*old(q)),
{
    match q.tx.try_send(m) {
        Ok(()) => SendAttempt::Sent,
        Err(tokio::sync::mpsc::error::TrySendError::Full(_)) => SendAttempt::Full,
        Err(tokio::sync::mpsc::error::TrySendError::Closed(_)) => SendAttempt::Closed,
    }
}

/// Relies on tokio::sync::mpsc::Receiver::try_recv: it takes out the oldest
/// message; on an empty buffer it reports `Disconnected` once the receiver is
/// closed and `Empty` before. The sender is held here, so the channel is never
/// disconnected from the sending side.
#[verifier::external_body]
fn queue_try_recv(q: &mut MessageQueue) -> (r: RecvAttempt)
    ensures
        bound(*final(q)) == bound(*old(q)),
        shut(*final(q)) == shut(*old(q)),
        queued(*old(q)).len() > 0 ==> r == RecvAttempt::Item(queued(*old(q))[0])
            && queued(*final(q)) == queued(*old(q)).drop_first(),
        queued(*old(q)).len() == 0 && shut(*old(q)) ==> r == RecvAttempt::Ended
            && queued(*final(q)) == queued(*old(q)),
        queued(*old(q)).len() == 0 && !shut(*old(q)) ==> r == RecvAttempt::Empty
            && queued(*final(q)) == queued(*old(q)),
{
    match q.rx.try_recv() {
        Ok(m) => RecvAttempt::Item(m),
        Err(tokio::sync::mpsc::error::TryRecvError::Empty) => RecvAttempt::Empty,
        Err(tokio::sync::mpsc::error::TryRecvError::Disconnected) => RecvAttempt::Ended,
    }
}

/// Relies on tokio::sync::mpsc::Receiver::close: it closes the channel for
/// senders and keeps the buffered messages for the receiver. Closing twice does
/// nothing more.
#[verifier::external_body]
fn queue_close(q: &mut MessageQueue)
    ensures
        shut(*final(q)),
        queued(*final(q)) == queued(*old(q)),
        bound(*final(q)) == bound(*old(q)),
{
    q.rx.close();
}

/// The abstract state of a bounded channel.
pub struct ChannelView {
    /// Buffered messages, oldest first.
    pub buffer: Seq<u64>,
    /// Fixed at creation.
    pub capacity: nat,
    /// Once set, never cleared.
    pub closed: bool,
}

/// A state that a channel can be in: a positive capacity that the buffer never
/// exceeds.
pub open spec fn valid(v: ChannelView) -> bool {
    1 <= v.capacity && v.buffer.len() <= v.capacity
}

/// Sending: refused when closed, refused without change when full, else
/// appended.
pub open spec fn send_step(v: ChannelView, m: u64) -> (ChannelView, SendAttempt) {
    if v.closed {
        (v, SendAttempt::Closed)
    } else if v.buffer.len() < v.capacity {
        (ChannelView { buffer: v.buffer.push(m), ..v }, SendAttempt::Sent)
    } else {
        (v, SendAttempt::Full)
    }
}

/// Receiving: the oldest buffered message if any; else the end of the stream
/// when closed, or nothing yet when open.
pub open spec fn recv_step(v: ChannelView) -> (ChannelView, RecvAttempt) {
    if v.buffer.len() > 0 {
        (ChannelView { buffer: v.buffer.drop_first(), ..v }, RecvAttempt::Item(v.buffer[0]))
    } else if v.closed {
        (v, RecvAttempt::Ended)
    } else {
        (v, RecvAttempt::Empty)
    }
}

/// Closing keeps the buffer.
pub open spec fn close_step(v: ChannelView) -> ChannelView {
    ChannelView { closed: true, ..v }
}

/// A fixed-capacity FIFO channel of message indices between a producing
/// handler and the consuming host.
pub struct BoundedChannel {
    queue: MessageQueue,
    capacity: usize,
    occupancy: usize,
    closed: bool,
}

impl View for BoundedChannel {
    type V = ChannelView;

    closed spec fn view(&self) -> ChannelView {
        ChannelView {
            buffer: queued(self.queue),
            capacity: bound(self.queue),
            closed: shut(self.queue),
        }
    }
}

impl BoundedChannel {
    /// The channel's bookkeeping agrees with the queue it holds.
    pub closed spec fn wf(&self) -> bool {
        &&& valid(self@)
        &&& self.capacity as nat == bound(self.queue)
        &&& self.occupancy as nat == queued(self.queue).len()
        &&& self.closed == shut(self.queue)
    }

    /// A well-formed channel is in a valid state.
    pub proof fn lemma_wf_valid(&self)
        requires
            self.wf(),
        ensures
            valid(self@),
    {
    }

    /// An open, empty channel of the given capacity.
    pub fn new(capacity: usize) -> (r: Self)
        requires
            1 <= capacity <= MAX_CAPACITY,
        ensures
            r.wf(),
            r@.buffer == Seq::<u64>::empty(),
            r@.capacity == capacity as nat,
            !r@.closed,
    {
        let queue = open_queue(capacity);
        BoundedChannel { queue, capacity, occupancy: 0, closed: false }
    }

    /// Offers a message without waiting; `Full` is where an asynchronous
    /// sender would suspend.
    pub fn try_send(&mut self, m: u64) -> (r: SendAttempt)
        requires
            old(self).wf(),
        ensures
            final(self).wf(),
            (final(self)@, r) == send_step(old(self)@, m),
    {
        let r = queue_try_send(&mut self.queue, m);
        if r == SendAttempt::Sent {
            self.occupancy = self.occupancy + 1;
        }
        r
    }

    /// Takes the oldest message without waiting; `Empty` is where an
    /// asynchronous receiver would suspend.
    pub fn try_receive(&mut self) -> (r: RecvAttempt)
        requires
            old(self).wf(),
        ensures
            final(self).wf(),
            (final(self)@, r) == recv_step(old(self)@),
    {
        let r = queue_try_recv(&mut self.queue);
        if let RecvAttempt::Item(_) = r {
            self.occupancy = self.occupancy - 1;
        }
        r
    }

    /// Closes the channel from either end; idempotent.
    pub fn close(&mut self)
        requires
            old(self).wf(),
        ensures
            final(self).wf(),
            final(self)@ == close_step(old(self)@),
    {
        queue_close(&mut self.queue);
        self.closed = true;
    }

    /// The number of buffered messages.
    pub fn len(&self) -> (r: usize)
        requires
            self.wf(),
        ensures
            r as nat == self@.buffer.len(),
    {
        self.occupancy
    }

    /// The capacity fixed at creation.
    pub fn capacity(&self) -> (r: usize)
        requires
            self.wf(),
        ensures
            r as nat == self@.capacity,
    {
        self.capacity
    }

    /// Whether the channel has been closed.
    pub fn is_closed(&self) -> (r: bool)
        requires
            self.wf(),
        ensures
            r == self@.closed,
    {
        self.closed
    }
}

/// One operation on a channel, as either end may perform it.
pub enum ChannelOp {
    Send(u64),
    Receive,
    Close,
}

/// The state after one operation.
pub open spec fn apply(v: ChannelView, op: ChannelOp) -> ChannelView {
    match op {
        ChannelOp::Send(m) => send_step(v, m).0,
        ChannelOp::Receive => recv_step(v).0,
        ChannelOp::Close => close_step(v),
    }
}

/// The state after a sequence of operations, in order.
pub open spec fn run(v: ChannelView, ops: Seq<ChannelOp>) -> ChannelView
    decreases ops.len(),
{
    if ops.len() == 0 {
        v
    } else {
        apply(run(v, ops.drop_last()), ops.last())
    }
}

/// The messages whose sends were accepted, in order.
pub open spec fn accepted(v: ChannelView, ops: Seq<ChannelOp>) -> Seq<u64>
    decreases ops.len(),
{
    if ops.len() == 0 {
        Seq::empty()
    } else {
        let before = accepted(v, ops.drop_last());
        match ops.last() {
            ChannelOp::Send(m) => if send_step(run(v, ops.drop_last()), m).1 == SendAttempt::Sent {
                before.push(m)
            } else {
                before
            },
            _ => before,
        }
    }
}

/// The messages handed to receivers, in order.
pub open spec fn delivered(v: ChannelView, ops: Seq<ChannelOp>) -> Seq<u64>
    decreases ops.len(),
{
    if ops.len() == 0 {
        Seq::empty()
    } else {
        let before = delivered(v, ops.drop_last());
        match (ops.last(), recv_step(run(v, ops.drop_last())).1) {
            (ChannelOp::Receive, RecvAttempt::Item(m)) => before.push(m),
            _ => before,
        }
    }
}

/// `n` receives in a row.
pub open spec fn receives(n: nat) -> Seq<ChannelOp> {
    Seq::new(n, |i: int| ChannelOp::Receive)
}

/// Occupancy law: whatever operations are performed, in whatever order, a
/// channel of capacity at least one never buffers more messages than its
/// capacity.
pub proof fn lemma_occupancy_bounded(v: ChannelView, ops: Seq<ChannelOp>)
    requires
        valid(v),
    ensures
        valid(run(v, ops)),
        run(v, ops).capacity == v.capacity,
    decreases ops.len(),
{
    if ops.len() > 0 {
        lemma_occupancy_bounded(v, ops.drop_last());
    }
}

/// FIFO law: what was buffered and then accepted is exactly what was delivered
/// followed by what is still buffered, in the same order; nothing is lost,
/// duplicated or reordered.
pub proof fn lemma_fifo(v: ChannelView, ops: Seq<ChannelOp>)
    ensures
        v.buffer + accepted(v, ops) == delivered(v, ops) + run(v, ops).buffer,
    decreases ops.len(),
{
    if ops.len() == 0 {
        assert(v.buffer + Seq::<u64>::empty() =~= Seq::<u64>::empty() + v.buffer);
    } else {
        let pre = ops.drop_last();
        lemma_fifo(v, pre);
        let w = run(v, pre);
        let acc = accepted(v, pre);
        let del = delivered(v, pre);
        match ops.last() {
            ChannelOp::Send(m) => {
                if send_step(w, m).1 == SendAttempt::Sent {
                    assert(v.buffer + acc.push(m) =~= (v.buffer + acc).push(m));
                    assert(del + w.buffer.push(m) =~= (del + w.buffer).push(m));
                }
            },
            ChannelOp::Receive => {
                if w.buffer.len() > 0 {
                    assert(del.push(w.buffer[0]) + w.buffer.drop_first() =~= del + w.buffer);
                }
            },
            ChannelOp::Close => {},
        }
    }
}

/// Once closed, a channel stays closed and accepts no further message.
pub proof fn lemma_closed_accepts_nothing(v: ChannelView, ops: Seq<ChannelOp>)
    requires
        v.closed,
    ensures
        run(v, ops).closed,
        accepted(v, ops) == Seq::<u64>::empty(),
    decreases ops.len(),
{
    if ops.len() > 0 {
        lemma_closed_accepts_nothing(v, ops.drop_last());
    }
}

/// Draining law: closing a channel that buffers `n` messages, then receiving
/// `n` times, yields exactly those messages in order, after which a receive
/// reports the end of the stream; and however operations continue after the
/// close, what is delivered followed by what remains is exactly what was
/// buffered at the close.
pub proof fn lemma_close_drains(v: ChannelView, ops: Seq<ChannelOp>)
    ensures
        delivered(close_step(v), receives(v.buffer.len())) == v.buffer,
        run(close_step(v), receives(v.buffer.len())).buffer.len() == 0,
        recv_step(run(close_step(v), receives(v.buffer.len()))).1 == RecvAttempt::Ended,
        delivered(close_step(v), ops) + run(close_step(v), ops).buffer == v.buffer,
{
    let c = close_step(v);
    lemma_closed_accepts_nothing(c, ops);
    lemma_fifo(c, ops);
    assert(c.buffer + Seq::<u64>::empty() =~= c.buffer);
    lemma_receives_drain(c, v.buffer.len());
    lemma_closed_accepts_nothing(c, receives(v.buffer.len()));
    lemma_fifo(c, receives(v.buffer.len()));
    assert(c.buffer + Seq::<u64>::empty() =~= c.buffer);
    let d = delivered(c, receives(v.buffer.len()));
    assert(d + Seq::<u64>::empty() =~= d);
}

/// Each of `k` receives on a buffer of at least `k` messages takes one out.
proof fn lemma_receives_drain(v: ChannelView, k: nat)
    requires
        k <= v.buffer.len(),
    ensures
        run(v, receives(k)).buffer.len() == v.buffer.len() - k,
        run(v, receives(k)).closed == v.closed,
    decreases k,
{
    if k > 0 {
        assert(receives(k).drop_last() =~= receives((k - 1) as nat));
        lemma_receives_drain(v, (k - 1) as nat);
    }
}

/// Unblocking law: a send that finds an open channel full succeeds right after
/// one receive, and is refused with `Closed` right after a close; it is never
/// left waiting in either case.
pub proof fn lemma_send_unblocks(v: ChannelView, m: u64)
    requires
        valid(v),
        !v.closed,
        v.buffer.len() == v.capacity,
    ensures
        send_step(v, m).1 == SendAttempt::Full,
        send_step(recv_step(v).0, m).1 == SendAttempt::Sent,
        send_step(close_step(v), m).1 == SendAttempt::Closed,
{
}

} // verus!
