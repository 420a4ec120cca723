//! The accept loop of one forwarding rule.
//!
//! A listener binds once, then hands every accepted connection on and
//! accepts again, until the forwarder is cancelled. It performs no I/O: a
//! driver binds and accepts, and reports what happened.

use crate::config::{Config, ForwardInfo};
use vstd::prelude::*;

verus! {

/// Where a listener stands between two reports of its driver.
#[derive(Clone, Copy, Debug, PartialEq, Eq, Structural)]
pub enum ListenerState {
    /// The local address is being bound.
    Binding,
    /// Bound, and waiting for a connection or for the cancellation.
    Accepting,
    /// Cancelled: the listener accepts nothing more.
    Stopped,
    /// The local address could not be bound.
    Failed,
}

/// What a driver reports to a listener.
#[derive(Clone, Copy, Debug, PartialEq, Eq, Structural)]
pub enum ListenerEvent {
    Bound,
    BindFailed,
    /// A connection was accepted.
    Accepted,
    /// The forwarder as a whole is shutting down.
    Cancelled,
}

/// What a listener asks of its driver.
#[derive(Clone, Copy, Debug, PartialEq, Eq, Structural)]
pub enum ListenerAction {
    /// Bind the rule's local address.
    Bind,
    /// Wait for the next connection, or for the cancellation, whichever
    /// comes first.
    Accept,
    /// Start a flow of its own for the connection just accepted, without
    /// waiting for it, then wait as for `Accept`.
    Dispatch,
    /// Leave the accept loop.
    Stop,
    /// Give up: the rule cannot be served.
    Abort,
}

impl ListenerState {
    /// What the driver of a listener in this state is busy with.
    pub open spec fn pending(self) -> ListenerAction {
        match self {
            ListenerState::Binding => ListenerAction::Bind,
            ListenerState::Accepting => ListenerAction::Accept,
            ListenerState::Stopped => ListenerAction::Stop,
            ListenerState::Failed => ListenerAction::Abort,
        }
    }

    /// The listener takes no further connection.
    pub open spec fn halted(self) -> bool {
        self == ListenerState::Stopped || self == ListenerState::Failed
    }

    /// The transition function: the state after `event`, and what the driver
    /// is to do next.
    ///
    /// The cancellation stops a listener wherever it stands. A report that
    /// does not answer what the listener is waiting for changes nothing and
    /// repeats the pending request.
    pub open spec fn next(self, event: ListenerEvent) -> (ListenerState, ListenerAction) {
        match (self, event) {
            (ListenerState::Binding, ListenerEvent::Bound) => (
                ListenerState::Accepting,
                ListenerAction::Accept,
            ),
            (ListenerState::Binding, ListenerEvent::BindFailed) => (
                ListenerState::Failed,
                ListenerAction::Abort,
            ),
            (ListenerState::Binding, ListenerEvent::Cancelled) => (
                ListenerState::Stopped,
                ListenerAction::Stop,
            ),
            (ListenerState::Accepting, ListenerEvent::Accepted) => (
                ListenerState::Accepting,
                ListenerAction::Dispatch,
            ),
            (ListenerState::Accepting, ListenerEvent::Cancelled) => (
                ListenerState::Stopped,
                ListenerAction::Stop,
            ),
            _ => (self, self.pending()),
        }
    }
}

/// The listener of one rule.
#[derive(Debug)]
pub struct ListenerService {
    info: ForwardInfo,
    state: ListenerState,
}

impl ListenerService {
    /// The rule that this listener serves.
    pub closed spec fn rule(&self) -> ForwardInfo {
        self.info
    }

    /// Where this listener stands.
    pub closed spec fn position(&self) -> ListenerState {
        self.state
    }

    /// A listener for `info` that has yet to bind: its driver starts with
    /// [`ListenerAction::Bind`].
    pub fn new(info: ForwardInfo) -> (listener: ListenerService)
        ensures
            listener.rule() == info,
            listener.position() == ListenerState::Binding,
    {
        ListenerService { info, state: ListenerState::Binding }
    }

    /// The rule that this listener serves.
    pub fn info(&self) -> (info: &ForwardInfo)
        ensures
            *info == self.rule(),
    {
        &self.info
    }

    /// Where this listener stands.
    pub fn state(&self) -> (state: ListenerState)
        ensures
            state == self.position(),
    {
        self.state
    }

    /// Takes one report of the driver and says what to do next.
    pub fn step(&mut self, event: ListenerEvent) -> (action: ListenerAction)
        ensures
            (final(self).position(), action) == old(self).position().next(event),
            final(self).rule() == old(self).rule(),
    {
        match self.state {
            ListenerState::Binding => match event {
                ListenerEvent::Bound => {
                    self.state = ListenerState::Accepting;
                    ListenerAction::Accept
                },
                ListenerEvent::BindFailed => {
                    self.state = ListenerState::Failed;
                    ListenerAction::Abort
                },
                ListenerEvent::Cancelled => {
                    self.state = ListenerState::Stopped;
                    ListenerAction::Stop
                },
                ListenerEvent::Accepted => ListenerAction::Bind,
            },
            ListenerState::Accepting => match event {
                ListenerEvent::Accepted => ListenerAction::Dispatch,
                ListenerEvent::Cancelled => {
                    self.state = ListenerState::Stopped;
                    ListenerAction::Stop
                },
                ListenerEvent::Bound | ListenerEvent::BindFailed => ListenerAction::Accept,
            },
            ListenerState::Stopped => ListenerAction::Stop,
            ListenerState::Failed => ListenerAction::Abort,
        }
    }
}

/// One listener for each rule of `cfg`, in the order of the rules, each yet
/// to bind.
pub fn start_listeners(cfg: &Config) -> (listeners: Vec<ListenerService>)
    ensures
        listeners@.len() == cfg@.len(),
        forall|i: int|
            0 <= i < listeners@.len() ==> (#[trigger] listeners@[i]).rule()@ == cfg@[i]
                && listeners@[i].position() == ListenerState::Binding,
{
    let mut listeners: Vec<ListenerService> = Vec::new();
    let mut i: usize = 0;
    while i < cfg.forward_info.len()
        invariant
            i <= cfg.forward_info.len(),
            listeners@.len() == i,
            forall|k: int|
                0 <= k < i ==> (#[trigger] listeners@[k]).rule()@ == cfg@[k]
                    && listeners@[k].position() == ListenerState::Binding,
        decreases cfg.forward_info.len() - i,
    {
        listeners.push(ListenerService::new(cfg.forward_info[i].clone()));
        i = i + 1;
    }
    listeners
}

impl ListenerState {
    /// The state after `events`, taken first to last.
    pub open spec fn run(self, events: Seq<ListenerEvent>) -> ListenerState
        decreases events.len(),
    {
        if events.len() == 0 {
            self
        } else {
            self.run(events.drop_last()).next(events.last()).0
        }
    }

    /// What the driver is told in answer to the event at index `k` of
    /// `events`.
    pub open spec fn action_at(self, events: Seq<ListenerEvent>, k: int) -> ListenerAction {
        self.run(events.take(k)).next(events[k]).1
    }
}

/// A listener that has stopped or failed stays as it is, whatever is
/// reported to it.
pub proof fn lemma_halted_listener_stays(state: ListenerState, events: Seq<ListenerEvent>)
    requires
        state.halted(),
    ensures
        state.run(events) == state,
    decreases events.len(),
{
    if events.len() > 0 {
        lemma_halted_listener_stays(state, events.drop_last());
    }
}

/// The cancellation halts a listener, wherever it stands.
pub proof fn lemma_cancellation_halts(state: ListenerState)
    ensures
        state.next(ListenerEvent::Cancelled).0.halted(),
        state.next(ListenerEvent::Cancelled).1 != ListenerAction::Dispatch,
{
}

/// Once a listener has been told of the cancellation, it hands on no
/// further connection: no later report, not even an accepted connection, is
/// answered with a dispatch.
pub proof fn lemma_no_dispatch_after_cancellation(
    start: ListenerState,
    events: Seq<ListenerEvent>,
    i: int,
    j: int,
)
    requires
        0 <= i < j < events.len(),
        events[i] == ListenerEvent::Cancelled,
    ensures
        start.run(events.take(j)).halted(),
        start.action_at(events, j) != ListenerAction::Dispatch,
{
    let cancelled = start.run(events.take(i + 1));
    assert(events.take(i + 1).drop_last() =~= events.take(i));
    assert(cancelled.halted());
    lemma_listener_run_grows(start, events, i + 1, j);
}

/// A listener that is halted after a prefix of `events` is in the same
/// state after every longer prefix.
proof fn lemma_listener_run_grows(start: ListenerState, events: Seq<ListenerEvent>, i: int, j: int)
    requires
        0 <= i <= j <= events.len(),
        start.run(events.take(i)).halted(),
    ensures
        start.run(events.take(j)) == start.run(events.take(i)),
    decreases j - i,
{
    if i < j {
        lemma_listener_run_grows(start, events, i, j - 1);
        assert(events.take(j).drop_last() =~= events.take(j - 1));
    }
}

} // verus!
