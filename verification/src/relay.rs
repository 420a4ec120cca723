//! One direction of a connection: read a chunk, write it on, count it.
//!
//! The relay itself performs no I/O. A driver does what the relay asks for
//! ([`RelayAction`]) and reports what came of it ([`RelayEvent`]); the relay
//! decides what happens next and keeps the registry's byte counter.

use crate::connections::{Connections, ReadDirection};
use vstd::prelude::*;

verus! {

/// The largest chunk a driver reads at once.
pub const BUFFER_CAPACITY: usize = 1024;

/// Adds `transfered` bytes to the counter that `direction` feeds in the
/// record of connection `id`, and touches nothing else.
pub fn update_bytes_transfered(
    transfered: usize,
    id: u64,
    connections: &mut Connections,
    direction: &ReadDirection,
)
    requires
        old(connections)@.contains(id),
        old(connections)@.records[id].counter(*direction) + transfered <= usize::MAX,
    ensures
        final(connections)@ == old(connections)@.credit(id, *direction, transfered as nat),
        old(connections).wf() ==> final(connections).wf(),
{
    let conn = connections.get(id);
    match direction {
        ReadDirection::ReadRemote => {
            conn.bytes_to_fowarded_ip = conn.bytes_to_fowarded_ip + transfered;
        },
        ReadDirection::ReadForward => {
            conn.bytes_to_remote_ip = conn.bytes_to_remote_ip + transfered;
        },
    }
}

/// Where a relay stands between two reports of its driver.
#[derive(Clone, Copy, Debug, PartialEq, Eq, Structural)]
pub enum RelayState {
    /// Waiting for a chunk to arrive, or for a cancellation.
    Waiting,
    /// A chunk of `len` bytes was read and is being written on.
    Writing { len: usize },
    /// The relay has ended and does nothing more.
    Closed,
}

/// What a driver reports to a relay.
#[derive(Clone, Copy, Debug, PartialEq, Eq, Structural)]
pub enum RelayEvent {
    /// A read completed with `len` bytes; zero bytes is the end of the stream.
    Read { len: usize },
    /// A read failed.
    ReadFailed,
    /// The forwarder as a whole is shutting down.
    GlobalCancelled,
    /// The other direction of this connection has ended.
    LocalCancelled,
    /// The chunk in flight was written out in full.
    Written,
    /// Writing the chunk in flight failed.
    WriteFailed,
}

/// What a relay asks of its driver.
#[derive(Clone, Copy, Debug, PartialEq, Eq, Structural)]
pub enum RelayAction {
    /// Wait for the next chunk, or for either cancellation, whichever comes
    /// first.
    Receive,
    /// Write the first `len` bytes of the buffer to the other endpoint.
    Write { len: usize },
    /// The stream has ended: the other direction is to be cancelled, and
    /// this one stops.
    CancelSibling,
    /// Stop without any further I/O.
    Stop,
}

impl RelayState {
    /// What the driver of a relay in this state is busy with.
    pub open spec fn pending(self) -> RelayAction {
        match self {
            RelayState::Waiting => RelayAction::Receive,
            RelayState::Writing { len } => RelayAction::Write { len },
            RelayState::Closed => RelayAction::Stop,
        }
    }

    /// The transition function: the state after `event`, and what the driver
    /// is to do next.
    ///
    /// A report that does not answer what the relay is waiting for (a write
    /// report while nothing is in flight, a read report or a cancellation
    /// while a write is) changes nothing and repeats the pending request.
    pub open spec fn next(self, event: RelayEvent) -> (RelayState, RelayAction) {
        match self {
            RelayState::Waiting => match event {
                RelayEvent::Read { len } => if len > 0 {
                    (RelayState::Writing { len }, RelayAction::Write { len })
                } else {
                    (RelayState::Closed, RelayAction::CancelSibling)
                },
                RelayEvent::ReadFailed => (RelayState::Closed, RelayAction::CancelSibling),
                RelayEvent::GlobalCancelled | RelayEvent::LocalCancelled => (
                    RelayState::Closed,
                    RelayAction::Stop,
                ),
                RelayEvent::Written | RelayEvent::WriteFailed => (self, self.pending()),
            },
            RelayState::Writing { len } => match event {
                RelayEvent::Written => (RelayState::Waiting, RelayAction::Receive),
                RelayEvent::WriteFailed => (RelayState::Closed, RelayAction::Stop),
                _ => (self, self.pending()),
            },
            RelayState::Closed => (RelayState::Closed, RelayAction::Stop),
        }
    }

    /// The size of the write that `event` reports as done: the bytes that
    /// this step adds to the counter. It is the length of the pending write
    /// where `event` reports that write as done, and nothing otherwise.
    pub open spec fn credit(self, event: RelayEvent) -> nat {
        match (self.pending(), event) {
            (RelayAction::Write { len }, RelayEvent::Written) => len as nat,
            _ => 0,
        }
    }

    /// The bytes of a chunk that was read and is not yet written out.
    pub open spec fn in_flight(self) -> nat {
        match self {
            RelayState::Writing { len } => len as nat,
            _ => 0,
        }
    }
}

/// The relay of connection `id` that reads in `direction`.
#[derive(Clone, Copy, Debug, PartialEq, Eq)]
pub struct RelayFlow {
    pub id: u64,
    pub direction: ReadDirection,
    pub state: RelayState,
}

impl RelayFlow {
    /// A relay that waits for its first chunk.
    pub fn new(id: u64, direction: ReadDirection) -> (relay: RelayFlow)
        ensures
            relay.id == id,
            relay.direction == direction,
            relay.state == RelayState::Waiting,
    {
        RelayFlow { id, direction, state: RelayState::Waiting }
    }

    /// Whether `connections` can take the bytes that `event` would add.
    pub open spec fn fits(self, event: RelayEvent, connections: Connections) -> bool {
        self.state.credit(event) > 0 ==> {
            &&& connections@.contains(self.id)
            &&& connections@.records[self.id].counter(self.direction) + self.state.credit(event)
                <= usize::MAX
        }
    }

    /// Tests what [`RelayFlow::step`] asks of the registry.
    pub fn can_step(&self, event: RelayEvent, connections: &Connections) -> (ok: bool)
        ensures
            ok == self.fits(event, *connections),
    {
        let amount = match (self.state, event) {
            (RelayState::Writing { len }, RelayEvent::Written) => len,
            _ => 0,
        };
        if amount == 0 {
            return true;
        }
        match connections.find(self.id) {
            Some(conn) => {
                let counter = match self.direction {
                    ReadDirection::ReadRemote => conn.bytes_to_fowarded_ip,
                    ReadDirection::ReadForward => conn.bytes_to_remote_ip,
                };
                amount <= usize::MAX - counter
            },
            None => false,
        }
    }

    /// Takes one report of the driver: moves to the next state, counts a
    /// completed write in the registry, and says what to do next.
    pub fn step(&mut self, event: RelayEvent, connections: &mut Connections) -> (action:
        RelayAction)
        requires
            old(self).fits(event, *old(connections)),
        ensures
            (final(self).state, action) == old(self).state.next(event),
            final(self).id == old(self).id,
            final(self).direction == old(self).direction,
            final(connections)@ == old(connections)@.credit(
                old(self).id,
                old(self).direction,
                old(self).state.credit(event),
            ),
            old(connections).wf() ==> final(connections).wf(),
    {
        match self.state {
            RelayState::Waiting => match event {
                RelayEvent::Read { len } => {
                    if len > 0 {
                        self.state = RelayState::Writing { len };
                        RelayAction::Write { len }
                    } else {
                        self.state = RelayState::Closed;
                        RelayAction::CancelSibling
                    }
                },
                RelayEvent::ReadFailed => {
                    self.state = RelayState::Closed;
                    RelayAction::CancelSibling
                },
                RelayEvent::GlobalCancelled | RelayEvent::LocalCancelled => {
                    self.state = RelayState::Closed;
                    RelayAction::Stop
                },
                RelayEvent::Written | RelayEvent::WriteFailed => RelayAction::Receive,
            },
            RelayState::Writing { len } => match event {
                RelayEvent::Written => {
                    if len > 0 {
                        update_bytes_transfered(len, self.id, connections, &self.direction);
                    }
                    self.state = RelayState::Waiting;
                    RelayAction::Receive
                },
                RelayEvent::WriteFailed => {
                    self.state = RelayState::Closed;
                    RelayAction::Stop
                },
                _ => RelayAction::Write { len },
            },
            RelayState::Closed => RelayAction::Stop,
        }
    }
}

/// A relay passes one chunk at a time, so what it writes is in the order in
/// which it was read: while a write is in flight the relay asks for no new
/// chunk, and it goes back to receiving only when that write is reported
/// done, counting exactly the chunk's length.
pub proof fn lemma_one_chunk_at_a_time(len: usize, event: RelayEvent)
    ensures
        ({
            let writing = RelayState::Writing { len };
            let (state, action) = writing.next(event);
            &&& action == RelayAction::Receive <==> event == RelayEvent::Written
            &&& action == RelayAction::Receive ==> state == RelayState::Waiting
            &&& writing.credit(event) == if event == RelayEvent::Written {
                len as nat
            } else {
                0
            }
            &&& action is Write ==> action == writing.pending() && state == writing
        }),
{
}

/// Bytes are counted for completed writes only: a step counts something
/// only if the driver was asked to write that many bytes and reports the
/// write done.
pub proof fn lemma_counted_means_written(state: RelayState, event: RelayEvent)
    requires
        state.credit(event) > 0,
    ensures
        event == RelayEvent::Written,
        state.pending() == (RelayAction::Write { len: state.credit(event) as usize }),
{
}

} // verus!
