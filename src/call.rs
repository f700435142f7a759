use vstd::prelude::*;

verus! {

/// The status a failed or cancelled call is reported with.
#[derive(PartialEq, Eq, Structural, Clone, Copy, Debug)]
pub enum StatusCode {
    /// The handler returned a domain error.
    HandlerError,
    /// The core failed unexpectedly (an inbound stream could not be read).
    InternalFault,
    /// The peer went away or the host shut down.
    Cancelled,
}

/// Where a call task is in its life.
#[derive(PartialEq, Eq, Structural, Clone, Copy, Debug)]
pub enum CallState {
    Accepted,
    Running,
    Completed,
    Failed(StatusCode),
    Cancelled,
}

/// What a call task can observe.
#[derive(PartialEq, Eq, Structural, Clone, Copy, Debug)]
pub enum CallEvent {
    /// The handler is invoked.
    Start,
    /// The handler returned normally (for streams: it closed its sender).
    Returned,
    /// The handler returned a domain error.
    HandlerFailed,
    /// An unexpected fault in the core, such as a failed inbound read.
    Fault,
    /// The outbound channel was closed from outside (disconnect, shutdown).
    ChannelClosed,
    /// The inbound stream ended before the handler was done with it.
    InboundLost,
}

/// Whether a call has finished, whichever way.
pub open spec fn terminal(s: CallState) -> bool {
    match s {
        CallState::Completed | CallState::Failed(_) | CallState::Cancelled => true,
        _ => false,
    }
}

/// The transition table of a call task. A task is started once; a running task
/// ends by completion, failure or cancellation; a closed channel cancels a task
/// that has not started; a finished task stays finished; any other event leaves
/// the state as it is.
pub open spec fn next_state(s: CallState, e: CallEvent) -> CallState {
    match (s, e) {
        (CallState::Accepted, CallEvent::Start) => CallState::Running,
        (CallState::Accepted, CallEvent::ChannelClosed) => CallState::Cancelled,
        (CallState::Running, CallEvent::Returned) => CallState::Completed,
        (CallState::Running, CallEvent::HandlerFailed) => CallState::Failed(StatusCode::HandlerError),
        (CallState::Running, CallEvent::Fault) => CallState::Failed(StatusCode::InternalFault),
        (CallState::Running, CallEvent::ChannelClosed) => CallState::Cancelled,
        (CallState::Running, CallEvent::InboundLost) => CallState::Cancelled,
        _ => s,
    }
}

impl CallState {
    /// Whether the call has finished.
    pub fn is_terminal(&self) -> (r: bool)
        ensures
            r == terminal(*self),
    {
        match self {
            CallState::Completed | CallState::Failed(_) | CallState::Cancelled => true,
            _ => false,
        }
    }

    /// The state after `e`.
    pub fn step(&self, e: CallEvent) -> (r: CallState)
        ensures
            r == next_state(*self, e),
    {
        match (*self, e) {
            (CallState::Accepted, CallEvent::Start) => CallState::Running,
            (CallState::Accepted, CallEvent::ChannelClosed) => CallState::Cancelled,
            (CallState::Running, CallEvent::Returned) => CallState::Completed,
            (CallState::Running, CallEvent::HandlerFailed) => CallState::Failed(StatusCode::HandlerError),
            (CallState::Running, CallEvent::Fault) => CallState::Failed(StatusCode::InternalFault),
            (CallState::Running, CallEvent::ChannelClosed) => CallState::Cancelled,
            (CallState::Running, CallEvent::InboundLost) => CallState::Cancelled,
            _ => *self,
        }
    }

    /// The status the transport reports for a finished call: none for a
    /// completed one, which carries its own response or end of stream.
    pub fn status(&self) -> (r: Option<StatusCode>)
        ensures
            r == match *self {
                CallState::Failed(c) => Some(c),
                CallState::Cancelled => Some(StatusCode::Cancelled),
                _ => None::<StatusCode>,
            },
    {
        match self {
            CallState::Failed(c) => Some(*c),
            CallState::Cancelled => Some(StatusCode::Cancelled),
            _ => None,
        }
    }
}

/// A finished call stays finished, with the same outcome, whatever it observes
/// afterwards.
pub proof fn lemma_terminal_absorbing(s: CallState, e: CallEvent)
    requires
        terminal(s),
    ensures
        next_state(s, e) == s,
{
}

/// A running call that observes a closed channel is cancelled: closing the
/// channel is how a call is cancelled.
pub proof fn lemma_closure_cancels(s: CallState)
    requires
        !terminal(s),
    ensures
        next_state(s, CallEvent::ChannelClosed) == CallState::Cancelled,
{
}

} // verus!
