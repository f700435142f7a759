use vstd::prelude::*;
use crate::channel::{BoundedChannel, RecvAttempt, SendAttempt, MAX_CAPACITY};

verus! {

/// The decimal digit `d` (below ten) as a character.
pub open spec fn digit_char(d: nat) -> char {
    seq!['0', '1', '2', '3', '4', '5', '6', '7', '8', '9'][d as int]
}

/// `n` written in base ten, without sign or leading zeros.
pub open spec fn decimal(n: nat) -> Seq<char>
    decreases n,
{
    if n < 10 {
        seq![digit_char(n)]
    } else {
        decimal(n / 10).push(digit_char(n % 10))
    }
}

/// Relies on the `Display` impl of `u64` (through `to_string`): base ten, no
/// sign, no leading zeros.
#[verifier::external_body]
fn decimal_string(n: u64) -> (r: String)
    ensures
        r@ == decimal(n as nat),
{
    n.to_string()
}

// ------------------- Payments -------------------

/// A payment request. The handler accepts every request, so it reads none of
/// its contents.
#[derive(Clone, Copy, Debug, PartialEq, Eq, Structural)]
pub struct PaymentRequest {}

/// The answer to a payment request.
#[derive(Clone, Copy, Debug, PartialEq, Eq, Structural)]
pub struct PaymentResponse {
    pub success: bool,
}

/// The unary payment service.
#[derive(Clone, Copy, Debug, PartialEq, Eq, Structural)]
pub struct MyPaymentService {}

impl Default for MyPaymentService {
    fn default() -> (r: Self)
        ensures
            r == (MyPaymentService {}),
    {
        MyPaymentService {}
    }
}

impl MyPaymentService {
    pub fn new() -> (r: Self)
        ensures
            r == (MyPaymentService {}),
    {
        MyPaymentService {}
    }

    /// Authorises the payment: every request succeeds.
    pub fn process_payment(&self, request: &PaymentRequest) -> (r: PaymentResponse)
        ensures
            r.success,
    {
        PaymentResponse { success: true }
    }
}

// ------------------- Transaction history -------------------

/// How many records a history stream carries.
pub const HISTORY_LENGTH: u64 = 30;

/// After each batch of this many records the producer pauses.
pub const HISTORY_BATCH: u64 = 10;

/// Capacity of a history stream's outbound channel.
pub const HISTORY_CAPACITY: usize = 4;

/// Status of every record in a history.
pub const RECORD_STATUS: &'static str = "Completed";

/// Time stamp of every record in a history.
pub const RECORD_TIMESTAMP: &'static str = "2022-01-01T12:00:00Z";

/// Amount of every record in a history, in hundredths.
pub const RECORD_AMOUNT_CENTS: u64 = 10000;

/// Prefix of a record's identifier, before its position in the stream.
pub const RECORD_ID_PREFIX: &'static str = "trans_";

/// One record of a transaction history.
#[derive(Clone, Debug)]
pub struct TransactionRecord {
    pub transaction_id: String,
    pub status: String,
    pub amount_cents: u64,
    pub timestamp: String,
}

/// Where a producer pass over the history stopped.
#[derive(Clone, Copy, Debug, PartialEq, Eq, Structural)]
pub enum HistoryProgress {
    /// Every record has been handed to the channel.
    Finished,
    /// A batch is complete; resume at this position after the pause.
    Paused(u64),
    /// The channel is full; resume at this position once there is room.
    Blocked(u64),
    /// The channel is closed; the record at this position was refused and the
    /// producer stops.
    Cancelled(u64),
}

/// The end of the batch that position `next` belongs to.
pub open spec fn batch_end(next: nat) -> nat {
    let e = (next - next % (HISTORY_BATCH as nat) + HISTORY_BATCH as nat) as nat;
    if e < HISTORY_LENGTH as nat { e } else { HISTORY_LENGTH as nat }
}

/// The positions from `a` up to, not including, `b`.
pub open spec fn span(a: nat, b: nat) -> Seq<u64> {
    Seq::new((b - a) as nat, |j: int| (a + j) as u64)
}

/// Where a producer pass that starts at `next` on an open channel with `free`
/// empty slots stops.
pub open spec fn pass_end(next: nat, free: nat) -> nat {
    if next + free < batch_end(next) { next + free } else { batch_end(next) }
}

/// The server-streaming transaction history service.
#[derive(Clone, Copy, Debug, PartialEq, Eq, Structural)]
pub struct MyTransactionService {}

impl Default for MyTransactionService {
    fn default() -> (r: Self)
        ensures
            r == (MyTransactionService {}),
    {
        MyTransactionService {}
    }
}

impl MyTransactionService {
    pub fn new() -> (r: Self)
        ensures
            r == (MyTransactionService {}),
    {
        MyTransactionService {}
    }

    /// Accepts a history call: the outbound channel that its records go
    /// through, open and empty.
    pub fn get_transaction_history(&self) -> (r: BoundedChannel)
        ensures
            r.wf(),
            r@.buffer == Seq::<u64>::empty(),
            r@.capacity == HISTORY_CAPACITY as nat,
            !r@.closed,
    {
        BoundedChannel::new(HISTORY_CAPACITY)
    }

    /// The record at position `i` of the stream.
    pub fn record(&self, i: u64) -> (r: TransactionRecord)
        ensures
            r.transaction_id@ == RECORD_ID_PREFIX@ + decimal(i as nat),
            r.status@ == RECORD_STATUS@,
            r.amount_cents == RECORD_AMOUNT_CENTS,
            r.timestamp@ == RECORD_TIMESTAMP@,
    {
        let mut transaction_id = String::from_str(RECORD_ID_PREFIX);
        let digits = decimal_string(i);
        transaction_id.append(digits.as_str());
        TransactionRecord {
            transaction_id,
            status: String::from_str(RECORD_STATUS),
            amount_cents: RECORD_AMOUNT_CENTS,
            timestamp: String::from_str(RECORD_TIMESTAMP),
        }
    }

    /// One pass of the producer from position `next`: hands positions to the
    /// channel in order until the batch ends, the history ends, the channel is
    /// full, or the channel turns out to be closed.
    pub fn pump_history(&self, next: u64, chan: &mut BoundedChannel) -> (r: HistoryProgress)
        requires
            old(chan).wf(),
            next <= HISTORY_LENGTH,
        ensures
            final(chan).wf(),
            final(chan)@.capacity == old(chan)@.capacity,
            final(chan)@.closed == old(chan)@.closed,
            next == HISTORY_LENGTH ==> r == HistoryProgress::Finished && final(chan)@ == old(chan)@,
            next < HISTORY_LENGTH && old(chan)@.closed ==> r == HistoryProgress::Cancelled(next)
                && final(chan)@ == old(chan)@,
            next < HISTORY_LENGTH && !old(chan)@.closed ==> ({
                let k = pass_end(next as nat, (old(chan)@.capacity - old(chan)@.buffer.len()) as nat);
                &&& final(chan)@.buffer == old(chan)@.buffer + span(next as nat, k)
                &&& r == if k == HISTORY_LENGTH {
                    HistoryProgress::Finished
                } else if k == batch_end(next as nat) {
                    HistoryProgress::Paused(k as u64)
                } else {
                    HistoryProgress::Blocked(k as u64)
                }
            }),
    {
        if next == HISTORY_LENGTH {
            return HistoryProgress::Finished;
        }
        let ghost start = chan@;
        let ghost end = batch_end(next as nat);
        let mut i: u64 = next;
        assert(start.buffer + span(next as nat, next as nat) =~= start.buffer);
        loop
            invariant
                chan.wf(),
                next <= i < end,
                end == batch_end(next as nat),
                next < HISTORY_LENGTH,
                start == old(chan)@,
                chan@.capacity == start.capacity,
                chan@.closed == start.closed,
                chan@.buffer == start.buffer + span(next as nat, i as nat),
                start.closed ==> i == next,
            decreases end - i,
        {
            let ghost before = chan@;
            proof {
                chan.lemma_wf_valid();
            }
            match chan.try_send(i) {
                SendAttempt::Sent => {
                    assert(span(next as nat, i as nat).push(i) =~= span(next as nat, (i + 1) as nat));
                    assert(before.buffer.push(i) =~= start.buffer + span(next as nat, (i + 1) as nat));
                    i = i + 1;
                    if i == HISTORY_LENGTH {
                        return HistoryProgress::Finished;
                    }
                    if i % HISTORY_BATCH == 0 {
                        return HistoryProgress::Paused(i);
                    }
                },
                SendAttempt::Full => {
                    assert(span(next as nat, i as nat).len() == i - next);
                    assert(i == pass_end(next as nat, (start.capacity - start.buffer.len()) as nat));
                    return HistoryProgress::Blocked(i);
                },
                SendAttempt::Closed => {
                    return HistoryProgress::Cancelled(i);
                },
            }
        }
    }
}

// ------------------- Chat -------------------

/// Capacity of a chat call's outbound channel.
pub const CHAT_CAPACITY: usize = 10;

/// Sender name on every reply.
pub const SERVER_USER: &'static str = "server";

/// Text of every reply, before the inbound message's own text.
pub const REPLY_PREFIX: &'static str = "Terima kasih telah melakukan chat kepada CS virtual, Pesan anda akan dibalas pada jam kerja. pesan anda : ";

/// A chat message in either direction.
#[derive(Clone, Debug)]
pub struct ChatMessage {
    pub user_id: String,
    pub message: String,
}

/// Whether `out` is the reply the chat service gives to `inbound`.
pub open spec fn is_reply(out: ChatMessage, inbound: ChatMessage) -> bool {
    &&& out.user_id@ == SERVER_USER@
    &&& out.message@ == REPLY_PREFIX@ + inbound.message@
}

/// The bidirectional-streaming chat service.
#[derive(Clone, Copy, Debug, PartialEq, Eq, Structural)]
pub struct MyChatService {}

impl Default for MyChatService {
    fn default() -> (r: Self)
        ensures
            r == (MyChatService {}),
    {
        MyChatService {}
    }
}

impl MyChatService {
    pub fn new() -> (r: Self)
        ensures
            r == (MyChatService {}),
    {
        MyChatService {}
    }

    /// The acknowledgement that answers one inbound message.
    pub fn reply(&self, inbound: &ChatMessage) -> (r: ChatMessage)
        ensures
            is_reply(r, *inbound),
    {
        let mut message = String::from_str(REPLY_PREFIX);
        message.append(inbound.message.as_str());
        ChatMessage { user_id: String::from_str(SERVER_USER), message }
    }

    /// Runs a chat call over a finite inbound stream: each inbound message is
    /// answered by one reply through the call's bounded outbound channel, which
    /// the host drains whenever it is full and once more after the handler
    /// closes it. The replies come out one per inbound message, in order.
    pub fn chat(&self, inbound: &Vec<ChatMessage>) -> (r: Vec<ChatMessage>)
        ensures
            r.len() == inbound.len(),
            forall|j: int| 0 <= j < inbound.len() ==> is_reply(#[trigger] r[j], inbound[j]),
    {
        let mut chan = BoundedChannel::new(CHAT_CAPACITY);
        let mut out: Vec<ChatMessage> = Vec::new();
        let mut k: usize = 0;
        while k < inbound.len()
            invariant
                chan.wf(),
                chan@.capacity == CHAT_CAPACITY as nat,
                !chan@.closed,
                k <= inbound.len(),
                out.len() <= k,
                chan@.buffer == span(out.len() as nat, k as nat),
                forall|j: int| 0 <= j < out.len() ==> is_reply(#[trigger] out[j], inbound[j]),
            decreases inbound.len() - k, chan@.buffer.len(),
        {
            match chan.try_send(k as u64) {
                SendAttempt::Sent => {
                    assert(span(out.len() as nat, k as nat).push(k as u64) =~= span(out.len() as nat, (k + 1) as nat));
                    k = k + 1;
                },
                _ => {
                    // Full: the host takes the oldest reply out.
                    let ghost before = chan@;
                    if let RecvAttempt::Item(idx) = chan.try_receive() {
                        assert(idx == out.len());
                        assert(before.buffer.drop_first() =~= span((out.len() + 1) as nat, k as nat));
                        let m = self.reply(&inbound[idx as usize]);
                        out.push(m);
                    }
                },
            }
        }
        chan.close();
        loop
            invariant
                chan.wf(),
                chan@.closed,
                k == inbound.len(),
                out.len() <= k,
                chan@.buffer == span(out.len() as nat, k as nat),
                forall|j: int| 0 <= j < out.len() ==> is_reply(#[trigger] out[j], inbound[j]),
            decreases k - out.len(),
        {
            let ghost before = chan@;
            match chan.try_receive() {
                RecvAttempt::Item(idx) => {
                    assert(before.buffer.drop_first() =~= span((out.len() + 1) as nat, k as nat));
                    let m = self.reply(&inbound[idx as usize]);
                    out.push(m);
                },
                _ => {
                    return out;
                },
            }
        }
    }
}

} // verus!
