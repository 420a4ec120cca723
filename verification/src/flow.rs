//! One accepted connection from admission to its end: the whitelist check,
//! the registration, the two relays under one local cancellation, and the
//! closing of the record.

use crate::config::{ForwardInfo, RuleView};
use crate::connections::{Connections, ReadDirection, RegistryView};
use crate::relay::{RelayAction, RelayEvent, RelayFlow, RelayState};
use crate::token::{cancel, new_token, share};
use tokio_util::sync::CancellationToken;
use vstd::prelude::*;

verus! {

/// The address of the peer that connected, in the two forms that a flow
/// reads.
#[derive(Debug, PartialEq, Eq)]
pub struct RemoteAddr {
    /// The IP address alone, as the whitelist spells it.
    pub ip: String,
    /// The address with its port, as the record shows it.
    pub full: String,
}

/// Whether `cfg` lets the peer at `remote_addr` in: its whitelist is empty
/// or lists the peer's IP address.
pub fn is_whitelisted(cfg: &ForwardInfo, remote_addr: &RemoteAddr) -> (allowed: bool)
    ensures
        allowed == cfg@.admits(remote_addr.ip@),
{
    if cfg.whitelist.len() == 0 {
        return true;
    }
    let mut i: usize = 0;
    while i < cfg.whitelist.len()
        invariant
            i <= cfg.whitelist.len(),
            forall|k: int| 0 <= k < i ==> cfg@.whitelist[k] != remote_addr.ip@,
        decreases cfg.whitelist.len() - i,
    {
        if cfg.whitelist[i] == remote_addr.ip {
            assert(cfg@.whitelist[i as int] == remote_addr.ip@);
            return true;
        }
        i = i + 1;
    }
    false
}

/// What became of the attempt to reach the forward target.
#[derive(Debug, PartialEq, Eq)]
pub enum Dial {
    /// The target could not be reached.
    Failed,
    /// The target was reached, and the accepted socket's peer is
    /// `remote_addr`.
    Connected { remote_addr: RemoteAddr },
}

/// Why an accepted connection was dropped before it was registered.
#[derive(Clone, Copy, Debug, PartialEq, Eq, Structural)]
pub enum Refusal {
    DialFailed,
    NotWhitelisted,
}

impl Dial {
    /// Why a connection with this dial outcome is dropped under `rule`, if
    /// it is: the target was not reached, or it was and the rule does not
    /// let the peer in.
    pub open spec fn refusal(self, rule: RuleView) -> Option<Refusal> {
        match self {
            Dial::Failed => Some(Refusal::DialFailed),
            Dial::Connected { remote_addr } => if rule.admits(remote_addr.ip@) {
                None
            } else {
                Some(Refusal::NotWhitelisted)
            },
        }
    }
}

/// The registry after a connection with dial outcome `dial` came in under
/// `rule`: an admitted one is registered with the peer's address and the
/// rule's target, a dropped one leaves the registry as it was.
pub open spec fn admitted(registry: RegistryView, rule: RuleView, dial: Dial) -> RegistryView {
    match dial {
        Dial::Connected { remote_addr } if dial.refusal(rule) is None => registry.register(
            remote_addr.full@,
            rule.forward_to,
        ),
        _ => registry,
    }
}

/// The mathematical content of a [`ConnectionFlow`].
pub struct FlowView {
    pub id: u64,
    /// The relay that reads the forward target and writes to the remote peer.
    pub toward_remote: RelayState,
    /// The relay that reads the remote peer and writes to the forward target.
    pub toward_target: RelayState,
    /// Whether either relay has seen its stream end.
    pub local_cancelled: bool,
}

impl FlowView {
    /// The flow of a connection that was just registered under `id`.
    pub open spec fn fresh(id: u64) -> FlowView {
        FlowView {
            id,
            toward_remote: RelayState::Waiting,
            toward_target: RelayState::Waiting,
            local_cancelled: false,
        }
    }

    /// The state of the relay that reads in `direction`.
    pub open spec fn relay(self, direction: ReadDirection) -> RelayState {
        match direction {
            ReadDirection::ReadForward => self.toward_remote,
            ReadDirection::ReadRemote => self.toward_target,
        }
    }

    /// Both relays have ended.
    pub open spec fn finished(self) -> bool {
        self.toward_remote == RelayState::Closed && self.toward_target == RelayState::Closed
    }

    /// What the relay that reads in `direction` is made to see of `event`.
    ///
    /// Once the local cancellation is set, it wins over whatever a waiting
    /// relay's read brought: the relay sees the cancellation instead.
    pub open spec fn observed(self, direction: ReadDirection, event: RelayEvent) -> RelayEvent {
        let input = event is Read || event is ReadFailed;
        if self.local_cancelled && self.relay(direction) == RelayState::Waiting && input {
            RelayEvent::LocalCancelled
        } else {
            event
        }
    }

    /// The transition function: the flow after the relay that reads in
    /// `direction` took `event`, and what that relay's driver is to do next.
    pub open spec fn next(self, direction: ReadDirection, event: RelayEvent) -> (
        FlowView,
        RelayAction,
    ) {
        let (state, action) = self.relay(direction).next(self.observed(direction, event));
        let local_cancelled = self.local_cancelled || action == RelayAction::CancelSibling;
        let flow = FlowView { local_cancelled, ..self };
        match direction {
            ReadDirection::ReadForward => (FlowView { toward_remote: state, ..flow }, action),
            ReadDirection::ReadRemote => (FlowView { toward_target: state, ..flow }, action),
        }
    }

    /// The bytes that the step on `event` adds to the counter of `direction`.
    pub open spec fn credit(self, direction: ReadDirection, event: RelayEvent) -> nat {
        self.relay(direction).credit(self.observed(direction, event))
    }

    /// Whether the step on `event` is the one that ends the connection: the
    /// last relay closes with it.
    pub open spec fn ends_with(self, direction: ReadDirection, event: RelayEvent) -> bool {
        !self.finished() && self.next(direction, event).0.finished()
    }

    /// The registry after the step on `event`: a completed write is counted,
    /// and the record is marked inactive if the connection ends with this
    /// step.
    pub open spec fn settle(
        self,
        direction: ReadDirection,
        event: RelayEvent,
        registry: RegistryView,
    ) -> RegistryView {
        let counted = registry.credit(self.id, direction, self.credit(direction, event));
        if self.ends_with(direction, event) {
            counted.deactivate(self.id)
        } else {
            counted
        }
    }
}

/// One registered connection: its identifier, its two relays, and the local
/// cancellation that ties them together.
#[derive(Debug)]
pub struct ConnectionFlow {
    id: u64,
    toward_remote: RelayFlow,
    toward_target: RelayFlow,
    /// Whether `local_token` has been cancelled by this flow.
    local_cancelled: bool,
    /// The token on which the drivers of both relays wait.
    local_token: CancellationToken,
}

impl View for ConnectionFlow {
    type V = FlowView;

    closed spec fn view(&self) -> FlowView {
        FlowView {
            id: self.id,
            toward_remote: self.toward_remote.state,
            toward_target: self.toward_target.state,
            local_cancelled: self.local_cancelled,
        }
    }
}

impl ConnectionFlow {
    /// Each relay belongs to this connection and reads its own side.
    pub closed spec fn wf(&self) -> bool {
        &&& self.toward_remote.id == self.id
        &&& self.toward_remote.direction == ReadDirection::ReadForward
        &&& self.toward_target.id == self.id
        &&& self.toward_target.direction == ReadDirection::ReadRemote
    }

    /// Whether `connections` can take what the step on `event` would write
    /// to it.
    pub open spec fn fits(
        &self,
        direction: ReadDirection,
        event: RelayEvent,
        connections: Connections,
    ) -> bool {
        &&& connections@.contains(self@.id)
        &&& connections@.records[self@.id].counter(direction) + self@.credit(direction, event)
            <= usize::MAX
    }

    /// Admits or drops an accepted connection.
    ///
    /// A connection whose target could not be reached, or whose peer the
    /// rule does not let in, leaves the registry as it was. An admitted one
    /// is registered under the next identifier, with the peer's address and
    /// the rule's target, and gets a flow whose relays wait for data.
    pub fn open(dial: &Dial, cfg: &ForwardInfo, connections: &mut Connections) -> (outcome: Result<
        ConnectionFlow,
        Refusal,
    >)
        requires
            old(connections).wf(),
            dial.refusal(cfg@) is None ==> old(connections)@.issued < u64::MAX,
        ensures
            final(connections).wf(),
            final(connections)@ == admitted(old(connections)@, cfg@, *dial),
            match outcome {
                Ok(flow) => {
                    &&& dial.refusal(cfg@) is None
                    &&& flow.wf()
                    &&& flow@ == FlowView::fresh(old(connections)@.next_id())
                },
                Err(why) => dial.refusal(cfg@) == Some(why),
            },
    {
        match dial {
            Dial::Failed => Err(Refusal::DialFailed),
            Dial::Connected { remote_addr } => {
                if !is_whitelisted(cfg, remote_addr) {
                    return Err(Refusal::NotWhitelisted);
                }
                let conn = connections.add();
                conn.remote_ip = remote_addr.full.clone();
                conn.connected_to = cfg.forward_to.clone();
                let id = conn.conn_id;
                Ok(
                    ConnectionFlow {
                        id,
                        toward_remote: RelayFlow::new(id, ReadDirection::ReadForward),
                        toward_target: RelayFlow::new(id, ReadDirection::ReadRemote),
                        local_cancelled: false,
                        local_token: new_token(),
                    },
                )
            },
        }
    }

    /// The identifier under which this connection is registered.
    pub fn id(&self) -> (id: u64)
        ensures
            id == self@.id,
    {
        self.id
    }

    /// Where the relay that reads in `direction` stands.
    pub fn relay_state(&self, direction: ReadDirection) -> (state: RelayState)
        ensures
            state == self@.relay(direction),
    {
        match direction {
            ReadDirection::ReadForward => self.toward_remote.state,
            ReadDirection::ReadRemote => self.toward_target.state,
        }
    }

    /// Whether either relay has seen its stream end.
    pub fn local_cancelled(&self) -> (cancelled: bool)
        ensures
            cancelled == self@.local_cancelled,
    {
        self.local_cancelled
    }

    /// A handle on this connection's local cancellation token, for a
    /// relay's driver to wait on. The flow cancels the token when either
    /// relay sees its stream end.
    pub fn local_token(&self) -> (handle: CancellationToken)
        ensures
            handle == self.cancellation(),
    {
        share(&self.local_token)
    }

    /// The local cancellation token of this connection: the one token that
    /// the flow was opened with, whatever handle on it is held.
    pub closed spec fn cancellation(&self) -> CancellationToken {
        self.local_token
    }

    /// Whether both relays have ended.
    pub fn is_finished(&self) -> (finished: bool)
        ensures
            finished == self@.finished(),
    {
        self.toward_remote.state == RelayState::Closed && self.toward_target.state
            == RelayState::Closed
    }

    /// Tests what [`ConnectionFlow::step`] asks of the registry: that it
    /// holds this connection's record, and that the counter can take what
    /// the step would add.
    pub fn can_step(
        &self,
        direction: ReadDirection,
        event: RelayEvent,
        connections: &Connections,
    ) -> (ok: bool)
        ensures
            ok == self.fits(direction, event, *connections),
    {
        let amount = match (self.relay_state(direction), event) {
            (RelayState::Writing { len }, RelayEvent::Written) => len,
            _ => 0,
        };
        match connections.find(self.id) {
            Some(conn) => {
                let counter = match direction {
                    ReadDirection::ReadRemote => conn.bytes_to_fowarded_ip,
                    ReadDirection::ReadForward => conn.bytes_to_remote_ip,
                };
                amount <= usize::MAX - counter
            },
            None => false,
        }
    }

    /// Takes one report of the driver of the relay that reads in
    /// `direction`.
    ///
    /// The relay moves on, a completed write is counted, the end of a
    /// stream sets the local cancellation and cancels the local token, and
    /// the step that closes the last relay marks the record inactive.
    pub fn step(
        &mut self,
        direction: ReadDirection,
        event: RelayEvent,
        connections: &mut Connections,
    ) -> (action: RelayAction)
        requires
            old(self).wf(),
            old(self).fits(direction, event, *old(connections)),
        ensures
            final(self).wf(),
            (final(self)@, action) == old(self)@.next(direction, event),
            final(self).cancellation() == old(self).cancellation(),
            final(connections)@ == old(self)@.settle(direction, event, old(connections)@),
            old(connections).wf() ==> final(connections).wf(),
    {
        let was_finished = self.is_finished();
        let waiting = match direction {
            ReadDirection::ReadForward => self.toward_remote.state == RelayState::Waiting,
            ReadDirection::ReadRemote => self.toward_target.state == RelayState::Waiting,
        };
        let input = match event {
            RelayEvent::Read { .. } | RelayEvent::ReadFailed => true,
            _ => false,
        };
        let seen = if self.local_cancelled && waiting && input {
            RelayEvent::LocalCancelled
        } else {
            event
        };
        let action = match direction {
            ReadDirection::ReadForward => self.toward_remote.step(seen, connections),
            ReadDirection::ReadRemote => self.toward_target.step(seen, connections),
        };
        if action == RelayAction::CancelSibling {
            self.local_cancelled = true;
            cancel(&self.local_token);
        }
        if self.is_finished() && !was_finished {
            let conn = connections.get(self.id);
            conn.active = false;
        }
        action
    }
}

/// A connection that is dropped, because its target was not reached or its
/// peer is not let in, leaves no record: the registry, and with it the list
/// of live connections and the list of ended ones, is what it was.
pub proof fn lemma_refused_connection_leaves_no_record(
    registry: RegistryView,
    rule: RuleView,
    dial: Dial,
    active: bool,
)
    requires
        dial.refusal(rule) is Some,
    ensures
        admitted(registry, rule, dial) == registry,
        admitted(registry, rule, dial).snapshot(active) == registry.snapshot(active),
{
}

/// One report in the life of a connection: which relay it is for, and what
/// its driver saw.
pub type FlowStep = (ReadDirection, RelayEvent);

impl FlowView {
    /// The flow after `steps`, taken first to last.
    pub open spec fn run(self, steps: Seq<FlowStep>) -> FlowView
        decreases steps.len(),
    {
        if steps.len() == 0 {
            self
        } else {
            self.run(steps.drop_last()).next(steps.last().0, steps.last().1).0
        }
    }

    /// The registry after `steps`, taken first to last from `registry`.
    pub open spec fn settle_all(self, steps: Seq<FlowStep>, registry: RegistryView) -> RegistryView
        decreases steps.len(),
    {
        if steps.len() == 0 {
            registry
        } else {
            self.run(steps.drop_last()).settle(
                steps.last().0,
                steps.last().1,
                self.settle_all(steps.drop_last(), registry),
            )
        }
    }

    /// The sizes of the writes in `direction` that `steps` report as done,
    /// added up.
    pub open spec fn written(self, steps: Seq<FlowStep>, direction: ReadDirection) -> nat
        decreases steps.len(),
    {
        if steps.len() == 0 {
            0
        } else {
            self.written(steps.drop_last(), direction) + if steps.last().0 == direction {
                self.run(steps.drop_last()).credit(direction, steps.last().1)
            } else {
                0
            }
        }
    }

    /// Whether the step at index `k` of `steps` is the one that ends the
    /// connection.
    pub open spec fn ends_at(self, steps: Seq<FlowStep>, k: int) -> bool {
        self.run(steps.take(k)).ends_with(steps[k].0, steps[k].1)
    }
}

/// What never changes and what never comes back while a flow runs: the
/// identifier stays, a set local cancellation stays set, and a closed relay
/// stays closed.
pub proof fn lemma_run_is_monotone(flow: FlowView, steps: Seq<FlowStep>)
    ensures
        flow.run(steps).id == flow.id,
        flow.local_cancelled ==> flow.run(steps).local_cancelled,
        flow.toward_remote == RelayState::Closed ==> flow.run(steps).toward_remote
            == RelayState::Closed,
        flow.toward_target == RelayState::Closed ==> flow.run(steps).toward_target
            == RelayState::Closed,
        flow.finished() ==> flow.run(steps) == flow,
    decreases steps.len(),
{
    if steps.len() > 0 {
        lemma_run_is_monotone(flow, steps.drop_last());
    }
}

/// Each byte counter of a connection holds what it held before plus the
/// sizes of the writes that were reported done in its direction, no more
/// and no less; the steps of a flow change nothing else in the registry but
/// the `active` flag of the flow's own record.
pub proof fn lemma_counters_equal_completed_writes(
    flow: FlowView,
    steps: Seq<FlowStep>,
    registry: RegistryView,
    direction: ReadDirection,
)
    requires
        registry.contains(flow.id),
    ensures
        ({
            let after = flow.settle_all(steps, registry);
            &&& after.contains(flow.id)
            &&& after.records[flow.id].counter(direction) == registry.records[flow.id].counter(
                direction,
            ) + flow.written(steps, direction)
            &&& after.records[flow.id].conn_id == registry.records[flow.id].conn_id
            &&& after.records[flow.id].remote_ip == registry.records[flow.id].remote_ip
            &&& after.records[flow.id].connected_to == registry.records[flow.id].connected_to
            &&& after.records.remove(flow.id) == registry.records.remove(flow.id)
            &&& after.issued == registry.issued
        }),
    decreases steps.len(),
{
    if steps.len() > 0 {
        let before = steps.drop_last();
        lemma_counters_equal_completed_writes(flow, before, registry, direction);
        lemma_run_is_monotone(flow, before);
        let mid = flow.settle_all(before, registry);
        let after = flow.settle_all(steps, registry);
        assert(after.records.remove(flow.id) =~= mid.records.remove(flow.id));
    }
}

/// A relay that sees its stream end, by an empty read or a failed one,
/// closes and leaves the local cancellation set, without counting anything.
pub proof fn lemma_end_of_stream_cancels_locally(
    flow: FlowView,
    direction: ReadDirection,
    event: RelayEvent,
)
    requires
        flow.relay(direction) == RelayState::Waiting,
        event == RelayEvent::ReadFailed || event == (RelayEvent::Read { len: 0 }),
    ensures
        flow.next(direction, event).0.local_cancelled,
        flow.next(direction, event).0.relay(direction) == RelayState::Closed,
        !flow.local_cancelled ==> flow.next(direction, event).1 == RelayAction::CancelSibling,
        flow.credit(direction, event) == 0,
{
}

/// Once the local cancellation is set, a waiting relay ends with the next
/// thing its driver reports from the wait, whatever that is, even a full
/// chunk: it closes, is told to stop, and counts nothing.
pub proof fn lemma_cancelled_relay_stops(
    flow: FlowView,
    direction: ReadDirection,
    event: RelayEvent,
)
    requires
        flow.local_cancelled,
        flow.relay(direction) == RelayState::Waiting,
        event != RelayEvent::Written,
        event != RelayEvent::WriteFailed,
    ensures
        flow.next(direction, event).0.relay(direction) == RelayState::Closed,
        flow.next(direction, event).1 == RelayAction::Stop,
        flow.credit(direction, event) == 0,
{
}

/// Once the local cancellation is set, no relay takes up another chunk:
/// all that may still be counted in a direction is the one write that was
/// already in flight there.
pub proof fn lemma_no_transfer_after_cancellation(
    flow: FlowView,
    steps: Seq<FlowStep>,
    direction: ReadDirection,
)
    requires
        flow.local_cancelled,
    ensures
        flow.written(steps, direction) + flow.run(steps).relay(direction).in_flight()
            <= flow.relay(direction).in_flight(),
    decreases steps.len(),
{
    if steps.len() > 0 {
        lemma_no_transfer_after_cancellation(flow, steps.drop_last(), direction);
        lemma_run_is_monotone(flow, steps.drop_last());
    }
}

/// The step that closes the last relay marks the record inactive.
pub proof fn lemma_last_close_deactivates(
    flow: FlowView,
    direction: ReadDirection,
    event: RelayEvent,
    registry: RegistryView,
)
    requires
        registry.contains(flow.id),
        flow.ends_with(direction, event),
    ensures
        !flow.settle(direction, event, registry).records[flow.id].active,
{
}

/// No step of a flow brings an inactive record back among the live
/// connections.
pub proof fn lemma_flow_never_reactivates(
    flow: FlowView,
    steps: Seq<FlowStep>,
    registry: RegistryView,
)
    requires
        registry.contains(flow.id),
        !registry.records[flow.id].active,
    ensures
        flow.settle_all(steps, registry).contains(flow.id),
        !flow.settle_all(steps, registry).records[flow.id].active,
    decreases steps.len(),
{
    if steps.len() > 0 {
        lemma_flow_never_reactivates(flow, steps.drop_last(), registry);
        lemma_run_is_monotone(flow, steps.drop_last());
    }
}

/// A connection ends at most once: no two steps of one flow are both the
/// step that marks the record inactive.
pub proof fn lemma_connection_ends_once(flow: FlowView, steps: Seq<FlowStep>, i: int, j: int)
    requires
        0 <= i < j < steps.len(),
    ensures
        !(flow.ends_at(steps, i) && flow.ends_at(steps, j)),
{
    if flow.ends_at(steps, i) {
        let ended = flow.run(steps.take(i + 1));
        assert(steps.take(i + 1).drop_last() =~= steps.take(i));
        assert(ended.finished());
        let rest = steps.subrange(i + 1, j);
        lemma_run_splits(flow, steps.take(i + 1), rest);
        assert(steps.take(i + 1) + rest =~= steps.take(j));
        lemma_run_is_monotone(ended, rest);
    }
}

/// Running `first` and then `second` is running the two in a row.
pub proof fn lemma_run_splits(flow: FlowView, first: Seq<FlowStep>, second: Seq<FlowStep>)
    ensures
        flow.run(first + second) == flow.run(first).run(second),
    decreases second.len(),
{
    if second.len() == 0 {
        assert(first + second =~= first);
    } else {
        assert((first + second).drop_last() =~= first + second.drop_last());
        lemma_run_splits(flow, first, second.drop_last());
    }
}

/// A flow whose relays have both ended is inert: whatever is reported to
/// it, it stays as it is, tells the driver to stop, and leaves the registry
/// alone. In particular the record stays inactive.
pub proof fn lemma_finished_flow_is_inert(
    flow: FlowView,
    direction: ReadDirection,
    event: RelayEvent,
    registry: RegistryView,
)
    requires
        flow.finished(),
    ensures
        flow.next(direction, event) == (flow, RelayAction::Stop),
        flow.settle(direction, event, registry) == registry,
{
    let after = flow.settle(direction, event, registry);
    assert(after.records =~= registry.records);
}

} // verus!
