//! The connection registry: an append-only table of connection records keyed
//! by the identifiers it hands out.

use std::collections::hash_map::Entry;
use std::collections::HashMap;
use vstd::prelude::*;

verus! {

broadcast use vstd::std_specs::hash::group_hash_axioms;

/// Which endpoint a relay reads from.
///
/// A relay that reads the remote peer writes to the forward target and
/// counts toward `bytes_to_fowarded_ip`; a relay that reads the forward
/// target writes to the remote peer and counts toward `bytes_to_remote_ip`.
#[derive(Clone, Copy, Debug, PartialEq, Eq, Structural)]
pub enum ReadDirection {
    ReadRemote,
    ReadForward,
}

/// One accepted connection, as the registry records it.
#[derive(Debug, PartialEq, Eq)]
pub struct ConnectionData {
    pub conn_id: u64,
    pub remote_ip: String,
    pub connected_to: String,
    pub bytes_to_remote_ip: usize,
    pub bytes_to_fowarded_ip: usize,
    pub active: bool,
}

/// The mathematical content of a [`ConnectionData`].
pub struct ConnectionView {
    pub conn_id: u64,
    pub remote_ip: Seq<char>,
    pub connected_to: Seq<char>,
    pub bytes_to_remote_ip: nat,
    pub bytes_to_fowarded_ip: nat,
    pub active: bool,
}

impl ConnectionView {
    /// The record of a connection that has just been allocated under `id`.
    pub open spec fn fresh(id: u64) -> ConnectionView {
        ConnectionView {
            conn_id: id,
            remote_ip: Seq::empty(),
            connected_to: Seq::empty(),
            bytes_to_remote_ip: 0,
            bytes_to_fowarded_ip: 0,
            active: true,
        }
    }

    /// The counter that a relay reading in `direction` feeds.
    pub open spec fn counter(self, direction: ReadDirection) -> nat {
        match direction {
            ReadDirection::ReadRemote => self.bytes_to_fowarded_ip,
            ReadDirection::ReadForward => self.bytes_to_remote_ip,
        }
    }

    /// This record after `amount` more bytes went through in `direction`.
    pub open spec fn credited(self, direction: ReadDirection, amount: nat) -> ConnectionView {
        match direction {
            ReadDirection::ReadRemote => ConnectionView {
                bytes_to_fowarded_ip: self.bytes_to_fowarded_ip + amount,
                ..self
            },
            ReadDirection::ReadForward => ConnectionView {
                bytes_to_remote_ip: self.bytes_to_remote_ip + amount,
                ..self
            },
        }
    }

    /// This record once its connection has ended.
    pub open spec fn ended(self) -> ConnectionView {
        ConnectionView { active: false, ..self }
    }

    /// The test that a snapshot applies to each record.
    pub open spec fn active_is(active: bool) -> spec_fn(ConnectionView) -> bool {
        |conn: ConnectionView| conn.active == active
    }
}

impl View for ConnectionData {
    type V = ConnectionView;

    open spec fn view(&self) -> ConnectionView {
        ConnectionView {
            conn_id: self.conn_id,
            remote_ip: self.remote_ip@,
            connected_to: self.connected_to@,
            bytes_to_remote_ip: self.bytes_to_remote_ip as nat,
            bytes_to_fowarded_ip: self.bytes_to_fowarded_ip as nat,
            active: self.active,
        }
    }
}

impl ConnectionData {
    /// An active record with empty addresses and zeroed counters.
    pub fn new(id: u64) -> (conn: ConnectionData)
        ensures
            conn@ == ConnectionView::fresh(id),
    {
        ConnectionData {
            conn_id: id,
            remote_ip: String::new(),
            connected_to: String::new(),
            bytes_to_remote_ip: 0,
            bytes_to_fowarded_ip: 0,
            active: true,
        }
    }
}

impl Clone for ConnectionData {
    fn clone(&self) -> (copy: ConnectionData)
        ensures
            copy@ == self@,
    {
        ConnectionData {
            conn_id: self.conn_id,
            remote_ip: self.remote_ip.clone(),
            connected_to: self.connected_to.clone(),
            bytes_to_remote_ip: self.bytes_to_remote_ip,
            bytes_to_fowarded_ip: self.bytes_to_fowarded_ip,
            active: self.active,
        }
    }
}

/// The views of a list of records, in the same order.
pub open spec fn views(list: Seq<ConnectionData>) -> Seq<ConnectionView> {
    list.map_values(|conn: ConnectionData| conn@)
}

/// The mathematical content of a [`Connections`] registry: the records by
/// identifier, and how many identifiers have been handed out.
#[verifier::ext_equal]
pub struct RegistryView {
    pub records: Map<u64, ConnectionView>,
    pub issued: nat,
}

impl RegistryView {
    /// The identifiers in use are exactly those handed out so far, which are
    /// the numbers below `issued`.
    pub open spec fn wf(self) -> bool {
        &&& self.issued <= u64::MAX
        &&& forall|id: u64| self.records.contains_key(id) <==> (id as nat) < self.issued
    }

    pub open spec fn empty() -> RegistryView {
        RegistryView { records: Map::empty(), issued: 0 }
    }

    pub open spec fn contains(self, id: u64) -> bool {
        self.records.contains_key(id)
    }

    /// The identifier that the next allocation hands out.
    pub open spec fn next_id(self) -> u64 {
        self.issued as u64
    }

    /// The registry after `record` was stored under the next identifier.
    pub open spec fn install(self, record: ConnectionView) -> RegistryView {
        RegistryView {
            records: self.records.insert(self.next_id(), record),
            issued: self.issued + 1,
        }
    }

    /// The registry after a connection from `remote_ip` to `connected_to`
    /// was registered under the next identifier.
    pub open spec fn register(self, remote_ip: Seq<char>, connected_to: Seq<char>) -> RegistryView {
        self.install(
            ConnectionView {
                remote_ip,
                connected_to,
                ..ConnectionView::fresh(self.next_id())
            },
        )
    }

    /// The registry with the record under `id` replaced by `record`.
    pub open spec fn replace(self, id: u64, record: ConnectionView) -> RegistryView {
        RegistryView { records: self.records.insert(id, record), ..self }
    }

    /// The registry after `amount` bytes were counted for connection `id`
    /// in `direction`. An unknown `id` changes nothing.
    pub open spec fn credit(self, id: u64, direction: ReadDirection, amount: nat) -> RegistryView {
        if self.contains(id) {
            self.replace(id, self.records[id].credited(direction, amount))
        } else {
            self
        }
    }

    /// The registry after connection `id` ended. An unknown `id` changes
    /// nothing.
    pub open spec fn deactivate(self, id: u64) -> RegistryView {
        if self.contains(id) {
            self.replace(id, self.records[id].ended())
        } else {
            self
        }
    }

    /// Every record, by ascending identifier.
    pub open spec fn all(self) -> Seq<ConnectionView> {
        Seq::new(self.issued, |i: int| self.records[i as u64])
    }

    /// The records whose `active` flag equals `active`, by ascending
    /// identifier.
    pub open spec fn snapshot(self, active: bool) -> Seq<ConnectionView> {
        self.all().filter(ConnectionView::active_is(active))
    }
}

/// The table of connection records. Records are added and changed, never
/// removed.
pub struct Connections {
    connections: HashMap<u64, ConnectionData>,
    next_id: u64,
}

impl View for Connections {
    type V = RegistryView;

    closed spec fn view(&self) -> RegistryView {
        RegistryView {
            records: Map::new(
                |id: u64| self.connections@.contains_key(id),
                |id: u64| self.connections@[id]@,
            ),
            issued: self.next_id as nat,
        }
    }
}

impl Connections {
    /// What every method keeps: see [`RegistryView::wf`].
    pub open spec fn wf(&self) -> bool {
        self@.wf()
    }

    /// An empty registry whose first identifier is 0.
    pub fn new() -> (registry: Connections)
        ensures
            registry@ == RegistryView::empty(),
            registry.wf(),
    {
        let registry = Connections { connections: HashMap::new(), next_id: 0 };
        assert(registry@.records =~= Map::<u64, ConnectionView>::empty());
        registry
    }

    /// Allocates the next identifier and stores a fresh record under it.
    ///
    /// The caller fills the record in through the handle; what it leaves
    /// there is what the registry holds.
    pub fn add(&mut self) -> (conn: &mut ConnectionData)
        requires
            old(self).wf(),
            old(self)@.issued < u64::MAX,
        ensures
            conn@ == ConnectionView::fresh(old(self)@.next_id()),
            final(self)@ == old(self)@.install(final(conn)@),
            final(self).wf(),
    {
        let id = self.next_id;
        self.next_id = id + 1;
        let ghost before = self.connections@;
        let conn = match self.connections.entry(id) {
            Entry::Vacant(slot) => slot.insert(ConnectionData::new(id)),
            // Not reached: nothing is stored under an identifier before it
            // is handed out.
            Entry::Occupied(slot) => {
                let mut slot = slot;
                slot.insert(ConnectionData::new(id));
                slot.into_mut()
            },
        };
        proof {
            let after = before.insert(id, *final(conn));
            assert(Map::new(|k: u64| after.contains_key(k), |k: u64| after[k]@)
                =~= old(self)@.records.insert(id, final(conn)@));
        }
        conn
    }

    /// The record stored under `id`, for reading and changing.
    pub fn get(&mut self, id: u64) -> (conn: &mut ConnectionData)
        requires
            old(self)@.contains(id),
        ensures
            conn@ == old(self)@.records[id],
            final(self)@ == old(self)@.replace(id, final(conn)@),
            old(self).wf() ==> final(self).wf(),
    {
        let ghost before = self.connections@;
        let conn = match self.connections.entry(id) {
            Entry::Occupied(slot) => slot.into_mut(),
            // Not reached: the caller knows that `id` is in use.
            Entry::Vacant(slot) => slot.insert(ConnectionData::new(id)),
        };
        proof {
            let after = before.insert(id, *final(conn));
            assert(Map::new(|k: u64| after.contains_key(k), |k: u64| after[k]@)
                =~= old(self)@.records.insert(id, final(conn)@));
        }
        conn
    }

    /// Copies of the records whose `active` flag equals `active`, by
    /// ascending identifier: the live connections for `true`, the ended ones
    /// for `false`.
    pub fn snapshot(&self, active: bool) -> (list: Vec<ConnectionData>)
        requires
            self.wf(),
        ensures
            views(list@) == self@.snapshot(active),
    {
        let mut list: Vec<ConnectionData> = Vec::new();
        let mut id: u64 = 0;
        let ghost all = self@.all();
        let ghost wanted = ConnectionView::active_is(active);
        assert(all.take(0).filter(wanted) =~= Seq::<ConnectionView>::empty()) by {
            reveal(Seq::filter);
        }
        while id < self.next_id
            invariant
                self.wf(),
                id <= self.next_id,
                all == self@.all(),
                wanted == ConnectionView::active_is(active),
                views(list@) == all.take(id as int).filter(wanted),
            decreases self.next_id - id,
        {
            proof {
                let upto = all.take(id as int + 1);
                let record = self@.records[id];
                assert(upto.drop_last() =~= all.take(id as int));
                assert(upto.last() == record);
                assert(upto.filter(wanted) == if wanted(record) {
                    all.take(id as int).filter(wanted).push(record)
                } else {
                    all.take(id as int).filter(wanted)
                }) by {
                    reveal(Seq::filter);
                }
                assert(self@.contains(id));
            }
            match self.connections.get(&id) {
                Some(conn) => {
                    if conn.active == active {
                        let ghost before = list@;
                        list.push(conn.clone());
                        assert(views(list@) =~= views(before).push(conn@));
                    }
                },
                None => {},
            }
            id = id + 1;
        }
        assert(all.take(id as int) =~= all);
        list
    }

    /// How many identifiers have been handed out, which is also the next
    /// one to hand out.
    pub fn issued(&self) -> (count: u64)
        ensures
            count == self@.issued,
    {
        self.next_id
    }

    /// The record stored under `id`, for reading; nothing where `id` was
    /// never handed out.
    pub fn find(&self, id: u64) -> (found: Option<&ConnectionData>)
        ensures
            match found {
                Some(conn) => self@.contains(id) && conn@ == self@.records[id],
                None => !self@.contains(id),
            },
    {
        self.connections.get(&id)
    }

    /// Whether a record is stored under `id`.
    pub fn contains(&self, id: u64) -> (present: bool)
        ensures
            present == self@.contains(id),
    {
        self.connections.contains_key(&id)
    }
}

/// A snapshot lists a record exactly if the record's `active` flag is the
/// one asked for.
pub proof fn lemma_snapshot_lists_by_flag(registry: RegistryView, active: bool, id: u64)
    requires
        registry.wf(),
        registry.contains(id),
    ensures
        registry.snapshot(active).contains(registry.records[id]) <==> registry.records[id].active
            == active,
{
    let wanted = ConnectionView::active_is(active);
    assert(registry.all()[id as int] == registry.records[id]);
    if registry.records[id].active == active {
        registry.all().lemma_filter_contains(wanted, id as int);
    }
    if registry.snapshot(active).contains(registry.records[id]) {
        let k = choose|k: int|
            0 <= k < registry.snapshot(active).len() && registry.snapshot(active)[k]
                == registry.records[id];
        registry.all().lemma_filter_pred(wanted, k);
    }
}

/// A connection that has just been registered is listed last among the
/// live ones, and the list of ended ones is what it was.
pub proof fn lemma_registration_is_listed(
    registry: RegistryView,
    remote_ip: Seq<char>,
    connected_to: Seq<char>,
)
    requires
        registry.wf(),
        registry.issued < u64::MAX,
    ensures
        ({
            let after = registry.register(remote_ip, connected_to);
            &&& after.wf()
            &&& after.snapshot(true) == registry.snapshot(true).push(
                after.records[registry.next_id()],
            )
            &&& after.snapshot(false) == registry.snapshot(false)
        }),
{
    let after = registry.register(remote_ip, connected_to);
    assert(after.all().drop_last() =~= registry.all());
    assert(after.all().last() == after.records[registry.next_id()]);
    reveal(Seq::filter);
}

/// One change to a registry.
pub enum RegistryOp {
    /// A connection from `remote_ip` to `connected_to` is registered.
    Register { remote_ip: Seq<char>, connected_to: Seq<char> },
    /// `amount` bytes are counted for connection `id` in `direction`.
    Credit { id: u64, direction: ReadDirection, amount: nat },
    /// Connection `id` has ended.
    Deactivate { id: u64 },
}

impl RegistryView {
    /// The registry after `op`.
    pub open spec fn apply(self, op: RegistryOp) -> RegistryView {
        match op {
            RegistryOp::Register { remote_ip, connected_to } => self.register(
                remote_ip,
                connected_to,
            ),
            RegistryOp::Credit { id, direction, amount } => self.credit(id, direction, amount),
            RegistryOp::Deactivate { id } => self.deactivate(id),
        }
    }

    /// The registry after `ops`, applied first to last.
    pub open spec fn run(self, ops: Seq<RegistryOp>) -> RegistryView
        decreases ops.len(),
    {
        if ops.len() == 0 {
            self
        } else {
            self.run(ops.drop_last()).apply(ops.last())
        }
    }
}

/// The bytes that `ops` count for connection `id` in `direction`, in total.
pub open spec fn credited(ops: Seq<RegistryOp>, id: u64, direction: ReadDirection) -> nat
    decreases ops.len(),
{
    if ops.len() == 0 {
        0
    } else {
        credited(ops.drop_last(), id, direction) + counted_by(ops.last(), id, direction)
    }
}

/// The bytes that `op` counts for connection `id` in `direction`.
pub open spec fn counted_by(op: RegistryOp, id: u64, direction: ReadDirection) -> nat {
    match op {
        RegistryOp::Credit { id: to, direction: toward, amount } => if to == id && toward
            == direction {
            amount
        } else {
            0
        },
        _ => 0,
    }
}

/// How many of `ops` are registrations.
pub open spec fn registrations(ops: Seq<RegistryOp>) -> nat
    decreases ops.len(),
{
    if ops.len() == 0 {
        0
    } else {
        registrations(ops.drop_last()) + if ops.last() is Register {
            1nat
        } else {
            0nat
        }
    }
}

/// However registrations, counter updates and endings are interleaved, a
/// well-formed registry stays well-formed, no record ever leaves it, and
/// each registration hands out exactly one identifier.
pub proof fn lemma_run_keeps_records(registry: RegistryView, ops: Seq<RegistryOp>)
    requires
        registry.wf(),
        registry.issued + registrations(ops) <= u64::MAX,
    ensures
        registry.run(ops).wf(),
        registry.run(ops).issued == registry.issued + registrations(ops),
        forall|id: u64| registry.contains(id) ==> registry.run(ops).contains(id),
    decreases ops.len(),
{
    if ops.len() > 0 {
        lemma_run_keeps_records(registry, ops.drop_last());
    }
}

/// A longer prefix of `ops` holds no fewer registrations than a shorter one.
proof fn lemma_registrations_grow(ops: Seq<RegistryOp>, i: int, j: int)
    requires
        0 <= i <= j <= ops.len(),
    ensures
        registrations(ops.take(i)) <= registrations(ops.take(j)),
    decreases j - i,
{
    if i < j {
        assert(ops.take(j).drop_last() =~= ops.take(j - 1));
        lemma_registrations_grow(ops, i, j - 1);
    }
}

/// Identifiers are handed out in strictly ascending order, and so no two of
/// them are equal: of two registrations in one sequence of changes, the
/// later one gets the larger identifier, whatever happens in between and
/// whoever asks.
pub proof fn lemma_identifiers_ascend(
    registry: RegistryView,
    ops: Seq<RegistryOp>,
    i: int,
    j: int,
)
    requires
        registry.wf(),
        registry.issued + registrations(ops) <= u64::MAX,
        0 <= i < j < ops.len(),
        ops[i] is Register,
        ops[j] is Register,
    ensures
        registry.run(ops.take(i)).next_id() < registry.run(ops.take(j)).next_id(),
        registry.run(ops.take(i + 1)).contains(registry.run(ops.take(i)).next_id()),
        registry.run(ops.take(j + 1)).contains(registry.run(ops.take(j)).next_id()),
{
    assert(ops.take(ops.len() as int) =~= ops);
    assert(ops.take(i + 1).drop_last() =~= ops.take(i));
    assert(ops.take(j + 1).drop_last() =~= ops.take(j));
    lemma_registrations_grow(ops, i + 1, j);
    lemma_registrations_grow(ops, j + 1, ops.len() as int);
    lemma_registrations_grow(ops, i, i + 1);
    lemma_registrations_grow(ops, j, j + 1);
    lemma_run_keeps_records(registry, ops.take(i));
    lemma_run_keeps_records(registry, ops.take(i + 1));
    lemma_run_keeps_records(registry, ops.take(j));
    lemma_run_keeps_records(registry, ops.take(j + 1));
}

/// A record that was marked inactive stays inactive: no later registration,
/// counter update or ending brings it back among the live connections.
pub proof fn lemma_ended_stays_ended(registry: RegistryView, ops: Seq<RegistryOp>, id: u64)
    requires
        registry.wf(),
        registry.issued + registrations(ops) <= u64::MAX,
        registry.contains(id),
        !registry.records[id].active,
    ensures
        registry.run(ops).contains(id),
        !registry.run(ops).records[id].active,
    decreases ops.len(),
{
    if ops.len() > 0 {
        lemma_ended_stays_ended(registry, ops.drop_last(), id);
        lemma_run_keeps_records(registry, ops.drop_last());
    }
}

/// A counter holds what it held before plus everything counted for its
/// connection and direction since, exactly, however the updates of other
/// connections and directions are interleaved with its own.
pub proof fn lemma_counters_add_up(
    registry: RegistryView,
    ops: Seq<RegistryOp>,
    id: u64,
    direction: ReadDirection,
)
    requires
        registry.wf(),
        registry.issued + registrations(ops) <= u64::MAX,
        registry.contains(id),
    ensures
        registry.run(ops).contains(id),
        registry.run(ops).records[id].counter(direction) == registry.records[id].counter(
            direction,
        ) + credited(ops, id, direction),
    decreases ops.len(),
{
    if ops.len() > 0 {
        lemma_counters_add_up(registry, ops.drop_last(), id, direction);
        lemma_run_keeps_records(registry, ops.drop_last());
    }
}

} // verus!
