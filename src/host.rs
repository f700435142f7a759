use vstd::prelude::*;
use crate::call::{next_state, terminal, CallEvent, CallState};
use crate::registry::{has_key, keys_unique, CallShape, EntryView, Handler, HandlerDescriptor, ServiceRegistry};
use crate::services::{MyPaymentService, PaymentRequest, PaymentResponse};

verus! {

/// Service name of the payment service.
pub const PAYMENT_SERVICE: &'static str = "services.PaymentService";

/// Method name of a payment.
pub const PAYMENT_METHOD: &'static str = "ProcessPayment";

/// Service name of the transaction history service.
pub const TRANSACTION_SERVICE: &'static str = "services.TransactionService";

/// Method name of a history request.
pub const TRANSACTION_METHOD: &'static str = "GetTransactionHistory";

/// Service name of the chat service.
pub const CHAT_SERVICE: &'static str = "services.ChatService";

/// Method name of a chat.
pub const CHAT_METHOD: &'static str = "Chat";

/// Why the host turned a call away.
#[derive(PartialEq, Eq, Structural, Clone, Copy, Debug)]
pub enum HostError {
    /// No method is registered under the pair.
    UnknownMethod,
    /// The method is registered, but not as a call of the shape asked for.
    WrongShape,
    /// Every call identifier has been handed out.
    IdsExhausted,
}

/// A call that has been accepted and has not finished.
#[derive(PartialEq, Eq, Structural, Clone, Copy, Debug)]
pub struct ActiveCall {
    pub id: u64,
    pub state: CallState,
}

/// The three services of this host, each under its own pair.
pub open spec fn standard_entries() -> Seq<EntryView> {
    seq![
        (PAYMENT_SERVICE@, PAYMENT_METHOD@, HandlerDescriptor { shape: CallShape::Unary, handler: Handler::Payment }),
        (TRANSACTION_SERVICE@, TRANSACTION_METHOD@, HandlerDescriptor { shape: CallShape::ServerStream, handler: Handler::TransactionHistory }),
        (CHAT_SERVICE@, CHAT_METHOD@, HandlerDescriptor { shape: CallShape::BidiStream, handler: Handler::Chat }),
    ]
}

/// A registry holding the three services of this host.
pub fn standard_registry() -> (r: ServiceRegistry)
    ensures
        r.wf(),
        r@ == standard_entries(),
{
    proof {
        reveal_strlit("ProcessPayment");
        reveal_strlit("GetTransactionHistory");
        reveal_strlit("Chat");
    }
    let mut r = ServiceRegistry::new();
    let ghost e = standard_entries();
    assert(PAYMENT_METHOD@.len() == 14 && TRANSACTION_METHOD@.len() == 21 && CHAT_METHOD@.len() == 4);
    assert(!has_key(Seq::<EntryView>::empty(), PAYMENT_SERVICE@, PAYMENT_METHOD@));
    let _ = r.register(PAYMENT_SERVICE, PAYMENT_METHOD, CallShape::Unary, Handler::Payment);
    assert(r@ =~= e.take(1));
    assert(!has_key(e.take(1), TRANSACTION_SERVICE@, TRANSACTION_METHOD@)) by {
        assert(e.take(1)[0].1.len() == 14);
    }
    let _ = r.register(TRANSACTION_SERVICE, TRANSACTION_METHOD, CallShape::ServerStream, Handler::TransactionHistory);
    assert(r@ =~= e.take(2));
    assert(!has_key(e.take(2), CHAT_SERVICE@, CHAT_METHOD@)) by {
        assert(e.take(2)[0].1.len() == 14);
        assert(e.take(2)[1].1.len() == 21);
    }
    let _ = r.register(CHAT_SERVICE, CHAT_METHOD, CallShape::BidiStream, Handler::Chat);
    assert(r@ =~= standard_entries());
    r
}

/// Ids are unique, below the next one to hand out, and no call in the table
/// has finished.
pub open spec fn table_ok(calls: Seq<ActiveCall>, next_id: u64) -> bool {
    &&& forall|i: int, j: int| 0 <= i < j < calls.len() ==> (#[trigger] calls[i]).id != (#[trigger] calls[j]).id
    &&& forall|i: int| 0 <= i < calls.len() ==> (#[trigger] calls[i]).id < next_id && !terminal(calls[i].state)
}

/// Whether a call with this id is in the table.
pub open spec fn has_call(calls: Seq<ActiveCall>, id: u64) -> bool {
    exists|i: int| 0 <= i < calls.len() && (#[trigger] calls[i]).id == id
}

/// Accepts calls, resolves them through its registry and keeps the table of
/// active streaming calls, from which a shutdown cancels them all.
pub struct ServiceHost {
    registry: ServiceRegistry,
    calls: Vec<ActiveCall>,
    next_id: u64,
}

impl ServiceHost {
    pub closed spec fn registry_view(&self) -> Seq<EntryView> {
        self.registry@
    }

    pub closed spec fn calls_view(&self) -> Seq<ActiveCall> {
        self.calls@
    }

    pub closed spec fn next_id_view(&self) -> u64 {
        self.next_id
    }

    pub open spec fn wf(&self) -> bool {
        &&& keys_unique(self.registry_view())
        &&& table_ok(self.calls_view(), self.next_id_view())
    }

    /// A host over a registry that start-up has filled; no call is active.
    pub fn new(registry: ServiceRegistry) -> (r: Self)
        requires
            registry.wf(),
        ensures
            r.wf(),
            r.registry_view() == registry@,
            r.calls_view() == Seq::<ActiveCall>::empty(),
            r.next_id_view() == 0,
    {
        ServiceHost { registry, calls: Vec::new(), next_id: 0 }
    }

    /// The calls that are active, in the order they were accepted.
    pub fn active_calls(&self) -> (r: Vec<ActiveCall>)
        ensures
            r@ == self.calls_view(),
    {
        self.calls.clone()
    }

    /// Runs a unary call: resolves the pair and hands the request to the
    /// handler, whose single response is the result. Nothing is kept once it
    /// returns.
    pub fn invoke_unary(&self, service: &String, method: &String, request: &PaymentRequest) -> (r: Result<PaymentResponse, HostError>)
        requires
            self.wf(),
        ensures
            !has_key(self.registry_view(), service@, method@) ==> r == Err::<PaymentResponse, HostError>(HostError::UnknownMethod),
            has_key(self.registry_view(), service@, method@) ==> (r == Ok::<PaymentResponse, HostError>(PaymentResponse { success: true })
                <==> exists|i: int| 0 <= i < self.registry_view().len() && #[trigger] self.registry_view()[i] == (service@, method@,
                    HandlerDescriptor { shape: CallShape::Unary, handler: Handler::Payment })),
            has_key(self.registry_view(), service@, method@) && r is Err ==> r == Err::<PaymentResponse, HostError>(HostError::WrongShape),
    {
        match self.registry.resolve(service, method) {
            None => Err(HostError::UnknownMethod),
            Some(d) => {
                if d.shape == CallShape::Unary && d.handler == Handler::Payment {
                    let handler = MyPaymentService::new();
                    Ok(handler.process_payment(request))
                } else {
                    Err(HostError::WrongShape)
                }
            },
        }
    }

    /// Accepts a streaming call: resolves the pair, gives the call the next
    /// id, and records it as running.
    pub fn accept(&mut self, service: &String, method: &String) -> (r: Result<(u64, HandlerDescriptor), HostError>)
        requires
            old(self).wf(),
        ensures
            final(self).wf(),
            final(self).registry_view() == old(self).registry_view(),
            !has_key(old(self).registry_view(), service@, method@) ==> r == Err::<(u64, HandlerDescriptor), HostError>(HostError::UnknownMethod),
            has_key(old(self).registry_view(), service@, method@) && old(self).next_id_view() == u64::MAX
                ==> r == Err::<(u64, HandlerDescriptor), HostError>(HostError::IdsExhausted),
            r is Err ==> final(self).calls_view() == old(self).calls_view() && final(self).next_id_view() == old(self).next_id_view(),
            has_key(old(self).registry_view(), service@, method@) && old(self).next_id_view() < u64::MAX ==> r is Ok,
            r matches Ok((id, d)) ==> {
                &&& id == old(self).next_id_view()
                &&& final(self).next_id_view() == id + 1
                &&& final(self).calls_view() == old(self).calls_view().push(ActiveCall { id, state: next_state(CallState::Accepted, CallEvent::Start) })
                &&& exists|i: int| 0 <= i < old(self).registry_view().len() && #[trigger] old(self).registry_view()[i] == (service@, method@, d)
            },
    {
        match self.registry.resolve(service, method) {
            None => Err(HostError::UnknownMethod),
            Some(d) => {
                if self.next_id == u64::MAX {
                    return Err(HostError::IdsExhausted);
                }
                let id = self.next_id;
                let state = CallState::Accepted.step(CallEvent::Start);
                self.calls.push(ActiveCall { id, state });
                self.next_id = id + 1;
                Ok((id, d))
            },
        }
    }

    /// Position of the active call with this id.
    fn find(&self, id: u64) -> (r: Option<usize>)
        ensures
            r is None <==> !has_call(self.calls@, id),
            r matches Some(i) ==> i < self.calls@.len() && self.calls@[i as int].id == id,
    {
        let mut i: usize = 0;
        while i < self.calls.len()
            invariant
                i <= self.calls@.len(),
                forall|j: int| 0 <= j < i ==> (#[trigger] self.calls@[j]).id != id,
            decreases self.calls.len() - i,
        {
            if self.calls[i].id == id {
                return Some(i);
            }
            i = i + 1;
        }
        None
    }

    /// Hands an event to the active call `id`. It returns the call's new state;
    /// a call that has finished leaves the table. An id that is not active gets
    /// `None`, and nothing changes.
    pub fn observe(&mut self, id: u64, e: CallEvent) -> (r: Option<CallState>)
        requires
            old(self).wf(),
        ensures
            final(self).wf(),
            final(self).registry_view() == old(self).registry_view(),
            final(self).next_id_view() == old(self).next_id_view(),
            r is None <==> !has_call(old(self).calls_view(), id),
            r is None ==> final(self).calls_view() == old(self).calls_view(),
            r matches Some(s) ==> exists|i: int| {
                &&& 0 <= i < old(self).calls_view().len()
                &&& #[trigger] old(self).calls_view()[i].id == id
                &&& s == next_state(old(self).calls_view()[i].state, e)
                &&& final(self).calls_view() == if terminal(s) {
                    old(self).calls_view().remove(i)
                } else {
                    old(self).calls_view().update(i, ActiveCall { id, state: s })
                }
            },
    {
        match self.find(id) {
            None => None,
            Some(i) => {
                let ghost old_calls = self.calls@;
                let s = self.calls[i].state.step(e);
                if s.is_terminal() {
                    self.calls.remove(i);
                    assert forall|a: int, b: int| 0 <= a < b < self.calls@.len() implies (#[trigger] self.calls@[a]).id
                        != (#[trigger] self.calls@[b]).id by {
                        if a < i {
                            if b < i {
                                assert(self.calls@[b] == old_calls[b]);
                            } else {
                                assert(self.calls@[b] == old_calls[b + 1]);
                            }
                            assert(self.calls@[a] == old_calls[a]);
                        } else {
                            assert(self.calls@[a] == old_calls[a + 1]);
                            assert(self.calls@[b] == old_calls[b + 1]);
                        }
                    }
                    assert forall|a: int| 0 <= a < self.calls@.len() implies (#[trigger] self.calls@[a]).id < self.next_id
                        && !terminal(self.calls@[a].state) by {
                        if a < i {
                            assert(self.calls@[a] == old_calls[a]);
                        } else {
                            assert(self.calls@[a] == old_calls[a + 1]);
                        }
                    }
                } else {
                    self.calls.set(i, ActiveCall { id, state: s });
                }
                Some(s)
            },
        }
    }

    /// Shutdown sweep: every active call is cancelled and leaves the table. The
    /// ids of those calls, whose outbound channels the caller closes, come back
    /// in table order.
    pub fn shutdown(&mut self) -> (r: Vec<u64>)
        requires
            old(self).wf(),
        ensures
            final(self).wf(),
            final(self).registry_view() == old(self).registry_view(),
            final(self).next_id_view() == old(self).next_id_view(),
            final(self).calls_view() == Seq::<ActiveCall>::empty(),
            r@ == old(self).calls_view().map_values(|c: ActiveCall| c.id),
            forall|i: int| 0 <= i < old(self).calls_view().len() ==> next_state(
                #[trigger] old(self).calls_view()[i].state,
                CallEvent::ChannelClosed,
            ) == CallState::Cancelled,
    {
        let mut ids: Vec<u64> = Vec::new();
        let mut i: usize = 0;
        while i < self.calls.len()
            invariant
                i <= self.calls@.len(),
                ids@ == self.calls@.subrange(0, i as int).map_values(|c: ActiveCall| c.id),
            decreases self.calls.len() - i,
        {
            ids.push(self.calls[i].id);
            assert(self.calls@.subrange(0, i + 1).map_values(|c: ActiveCall| c.id) =~= self.calls@.subrange(0, i as int).map_values(|c: ActiveCall| c.id).push(self.calls@[i as int].id));
            i = i + 1;
        }
        assert(self.calls@.subrange(0, i as int) =~= self.calls@);
        self.calls = Vec::new();
        ids
    }
}

} // verus!
