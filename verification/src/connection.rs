//! Connection identifiers, and routing of network events to entities.
//!
//! The network side numbers every accepted connection and reports three kinds
//! of event to the ECS side: a connection was opened (and an entity spawned
//! for it), a message arrived on a connection, a connection closed. The ECS
//! side keeps a map from connection id to entity and decides, for each event,
//! what to do with it. Entities are carried as the `u64` bits that identify
//! them.

use std::collections::HashMap;
use vstd::prelude::*;
use crate::events::{MessageReceived, NetworkPayload, UserDisconnected};

verus! {

/// The id of the first connection a server accepts.
pub const FIRST_CONNECTION_ID: u64 = 1;

/// The number of distinct `u64` values.
pub open spec fn id_space() -> int {
    0x1_0000_0000_0000_0000
}

/// The id that an allocator starting at `start` hands out on its `k`-th call
/// (counted from zero): ids count up by one and wrap around like the atomic
/// counter they model.
pub open spec fn allocated_id(start: int, k: int) -> int {
    (start + k) % id_space()
}

/// Hands out connection ids: 1, 2, 3, ... in the order connections arrive.
pub struct ConnectionIdAllocator {
    next: u64,
}

impl ConnectionIdAllocator {
    /// The id that the next call of `allocate` returns.
    pub closed spec fn next_id(self) -> u64 {
        self.next
    }

    /// An allocator whose first id is `FIRST_CONNECTION_ID`.
    pub fn new() -> (alloc: Self)
        ensures
            alloc.next_id() == FIRST_CONNECTION_ID,
    {
        ConnectionIdAllocator { next: FIRST_CONNECTION_ID }
    }

    /// Returns the next id and advances the counter by one, wrapping at the
    /// end of the `u64` range.
    pub fn allocate(&mut self) -> (id: u64)
        ensures
            id == old(self).next_id(),
            final(self).next_id() == (old(self).next_id() + 1) % id_space(),
    {
        let id = self.next;
        self.next = self.next.wrapping_add(1);
        id
    }
}

/// The next id after one call is what the closed form gives for one more call.
pub proof fn lemma_allocated_id_step(start: int, k: int)
    requires
        0 <= start,
        0 <= k,
    ensures
        allocated_id(start, k + 1) == (allocated_id(start, k) + 1) % id_space(),
{
    let m = id_space();
    let a = start + k;
    assert(((a % m) + 1) % m == (a + 1) % m) by {
        vstd::arithmetic::div_mod::lemma_add_mod_noop(a, 1, m);
        vstd::arithmetic::div_mod::lemma_mod_twice(a, m);
        vstd::arithmetic::div_mod::lemma_small_mod(1, m as nat);
    }
}

/// Connection ids are unique: of fewer than 2^64 consecutive ids handed out by
/// one allocator, no two are equal.
pub proof fn lemma_connection_ids_distinct(start: int, i: int, j: int)
    requires
        0 <= start,
        0 <= i < j,
        j - i < id_space(),
    ensures
        allocated_id(start, i) != allocated_id(start, j),
{
    let m = id_space();
    if allocated_id(start, i) == allocated_id(start, j) {
        vstd::arithmetic::div_mod::lemma_fundamental_div_mod(start + i, m);
        vstd::arithmetic::div_mod::lemma_fundamental_div_mod(start + j, m);
        let qi = (start + i) / m;
        let qj = (start + j) / m;
        assert(j - i == m * (qj - qi)) by (nonlinear_arith)
            requires
                start + i == m * qi + (start + i) % m,
                start + j == m * qj + (start + j) % m,
                (start + i) % m == (start + j) % m,
        ;
        assert(false) by (nonlinear_arith)
            requires
                j - i == m * (qj - qi),
                0 < j - i < m,
                m > 0,
        ;
    }
}

/// An event that the network side reports, with the spawned entity for a new
/// connection.
pub enum InboundEvent {
    Connected { id: u64, entity: u64 },
    Message { id: u64, payload: NetworkPayload },
    Disconnected { id: u64 },
}

/// What one read of a client's socket yields.
pub enum SocketRead {
    /// A frame with a payload.
    Frame(NetworkPayload),
    /// A close frame.
    Close,
    /// A read error.
    Error,
    /// The end of the stream.
    End,
}

/// The reader's state and event after one read: a frame is forwarded as a
/// message of the connection; a close, an error or the end of the stream
/// closes the reader with one `Disconnected`; a closed reader reports nothing.
pub open spec fn reader_step(id: u64, closed: bool, read: SocketRead) -> (bool, Option<InboundEvent>) {
    if closed {
        (true, None)
    } else {
        match read {
            SocketRead::Frame(payload) => (false, Some(InboundEvent::Message { id, payload })),
            _ => (true, Some(InboundEvent::Disconnected { id })),
        }
    }
}

/// The reader's state and the events it reported, after the reads `reads` on
/// a fresh reader.
pub open spec fn reader_run(id: u64, reads: Seq<SocketRead>) -> (bool, Seq<InboundEvent>)
    decreases reads.len(),
{
    if reads.len() == 0 {
        (false, Seq::empty())
    } else {
        let before = reader_run(id, reads.drop_last());
        let step = reader_step(id, before.0, reads.last());
        (
            step.0,
            match step.1 {
                Some(event) => before.1.push(event),
                None => before.1,
            },
        )
    }
}

/// Whether `event` is a message of connection `id`.
pub open spec fn is_message_of(event: InboundEvent, id: u64) -> bool {
    event matches InboundEvent::Message { id: from, .. } && from == id
}

/// Turns the reads of one client's socket into the events reported to the ECS
/// side.
pub struct ConnectionReader {
    id: u64,
    closed: bool,
}

impl ConnectionReader {
    /// The id of the connection read.
    pub closed spec fn conn_id(self) -> u64 {
        self.id
    }

    /// Whether the reader reported the close of the connection.
    pub closed spec fn finished(self) -> bool {
        self.closed
    }

    /// A reader of connection `id` that has read nothing.
    pub fn new(id: u64) -> (reader: Self)
        ensures
            reader.conn_id() == id,
            !reader.finished(),
    {
        ConnectionReader { id, closed: false }
    }

    /// Whether the reader reported the close of the connection.
    pub fn is_closed(&self) -> (closed: bool)
        ensures
            closed == self.finished(),
    {
        self.closed
    }

    /// Handles one read; returns the event to report, if any.
    pub fn on_read(&mut self, read: SocketRead) -> (event: Option<InboundEvent>)
        ensures
            final(self).conn_id() == old(self).conn_id(),
            (final(self).finished(), event) == reader_step(
                old(self).conn_id(),
                old(self).finished(),
                read,
            ),
            old(self).finished() ==> event is None && final(self).finished(),
            read matches SocketRead::Frame(payload) ==> (!old(self).finished() ==> (event == Some(
                InboundEvent::Message { id: old(self).conn_id(), payload },
            ) && !final(self).finished())),
            (!old(self).finished() && !(read is Frame)) ==> (event == Some(
                InboundEvent::Disconnected { id: old(self).conn_id() },
            ) && final(self).finished()),
    {
        if self.closed {
            return None;
        }
        match read {
            SocketRead::Frame(payload) => Some(InboundEvent::Message { id: self.id, payload }),
            _ => {
                self.closed = true;
                Some(InboundEvent::Disconnected { id: self.id })
            },
        }
    }
}

/// The events of one connection come in order: every report before the last
/// is a message of the connection; a reader that closed reported exactly one
/// `Disconnected`, last; a reader still open forwarded every read as a message.
pub proof fn lemma_reader_event_order(id: u64, reads: Seq<SocketRead>)
    ensures
        ({
            let (closed, events) = reader_run(id, reads);
            &&& forall|i: int| 0 <= i < events.len() - 1 ==> is_message_of(#[trigger] events[i], id)
            &&& closed ==> events.len() > 0 && events.last() == InboundEvent::Disconnected { id }
            &&& !closed ==> events.len() == reads.len()
            &&& !closed ==> forall|i: int| 0 <= i < events.len() ==> is_message_of(#[trigger] events[i], id)
        }),
    decreases reads.len(),
{
    if reads.len() > 0 {
        lemma_reader_event_order(id, reads.drop_last());
        let before = reader_run(id, reads.drop_last());
        let events = reader_run(id, reads).1;
        if !before.0 {
            assert forall|i: int| 0 <= i < events.len() - 1 implies is_message_of(#[trigger] events[i], id) by {
                assert(events[i] == before.1[i]);
            }
            if !reader_run(id, reads).0 {
                assert forall|i: int| 0 <= i < events.len() implies is_message_of(#[trigger] events[i], id) by {
                    if i < before.1.len() {
                        assert(events[i] == before.1[i]);
                    }
                }
            }
        }
    }
}

/// What the ECS side does with an inbound event.
pub enum RouteAction {
    /// The connection was recorded as belonging to the entity.
    Registered { id: u64, entity: u64 },
    /// The message is handed to the systems as a `MessageReceived`.
    Deliver(MessageReceived),
    /// The message came on a connection with no entity, and is dropped.
    Dropped { id: u64 },
    /// The connection closed: its entry left the map, and its entity is
    /// handed on as a `UserDisconnected` so that the engine can clean it up.
    Disconnect(UserDisconnected),
    /// A connection with no entity closed; nothing to clean up.
    Closed { id: u64 },
}

/// The connection map after an inbound event: a new connection is recorded,
/// replacing any earlier entity of the same id; a closed connection leaves the
/// map; a message changes nothing.
pub open spec fn routed_map(m: Map<u64, u64>, event: InboundEvent) -> Map<u64, u64> {
    match event {
        InboundEvent::Connected { id, entity } => m.insert(id, entity),
        InboundEvent::Message { .. } => m,
        InboundEvent::Disconnected { id } => m.remove(id),
    }
}

/// What the ECS side does with an inbound event, given the connection map.
pub open spec fn routed_action(m: Map<u64, u64>, event: InboundEvent) -> RouteAction {
    match event {
        InboundEvent::Connected { id, entity } => RouteAction::Registered { id, entity },
        InboundEvent::Message { id, payload } => if m.contains_key(id) {
            RouteAction::Deliver(MessageReceived { entity: m[id], client_id: id, payload })
        } else {
            RouteAction::Dropped { id }
        },
        InboundEvent::Disconnected { id } => if m.contains_key(id) {
            RouteAction::Disconnect(UserDisconnected { entity: m[id], client_id: id })
        } else {
            RouteAction::Closed { id }
        },
    }
}

/// The map from connection id to the entity that stands for the connection.
pub struct ConnectionMap(pub HashMap<u64, u64>);

impl ConnectionMap {
    /// An empty map.
    pub fn new() -> (map: Self)
        ensures
            map.0@ == Map::<u64, u64>::empty(),
    {
        ConnectionMap(HashMap::new())
    }

    /// The entity of connection `id`, if one was recorded.
    pub fn entity_of(&self, id: u64) -> (entity: Option<u64>)
        ensures
            entity == (if self.0@.contains_key(id) {
                Some(self.0@[id])
            } else {
                None
            }),
    {
        match self.0.get(&id) {
            Some(e) => Some(*e),
            None => None,
        }
    }

    /// Handles one inbound event: records new connections and decides where
    /// messages go.
    pub fn route(&mut self, event: InboundEvent) -> (action: RouteAction)
        ensures
            final(self).0@ == routed_map(old(self).0@, event),
            action == routed_action(old(self).0@, event),
            event matches InboundEvent::Connected { id, entity } ==> final(self).0@ == old(
                self,
            ).0@.insert(id, entity),
            event is Message ==> final(self).0@ == old(self).0@,
            event matches InboundEvent::Disconnected { id } ==> final(self).0@ == old(
                self,
            ).0@.remove(id),
            event matches InboundEvent::Message { id, payload } ==> (old(self).0@.contains_key(id)
                ==> action == RouteAction::Deliver(
                MessageReceived { entity: old(self).0@[id], client_id: id, payload },
            )),
            event matches InboundEvent::Disconnected { id } ==> (old(self).0@.contains_key(id)
                ==> action == RouteAction::Disconnect(
                UserDisconnected { entity: old(self).0@[id], client_id: id },
            )),
            event matches InboundEvent::Connected { id, entity } ==> action
                == (RouteAction::Registered { id, entity }),
            event matches InboundEvent::Message { id, payload } ==> (!old(self).0@.contains_key(id)
                ==> action == (RouteAction::Dropped { id })),
            event matches InboundEvent::Disconnected { id } ==> (!old(self).0@.contains_key(id)
                ==> action == (RouteAction::Closed { id })),
    {
        match event {
            InboundEvent::Connected { id, entity } => {
                self.0.insert(id, entity);
                RouteAction::Registered { id, entity }
            },
            InboundEvent::Message { id, payload } => {
                match self.entity_of(id) {
                    Some(entity) => RouteAction::Deliver(
                        MessageReceived { entity, client_id: id, payload },
                    ),
                    None => RouteAction::Dropped { id },
                }
            },
            InboundEvent::Disconnected { id } => {
                match self.0.remove(&id) {
                    Some(entity) => RouteAction::Disconnect(
                        UserDisconnected { entity, client_id: id },
                    ),
                    None => RouteAction::Closed { id },
                }
            },
        }
    }
}

impl Default for ConnectionMap {
    fn default() -> (map: Self)
        ensures
            map.0@ == Map::<u64, u64>::empty(),
    {
        ConnectionMap::new()
    }
}

/// A message that arrives on a connection after it was opened reaches the
/// entity that was spawned for it, tagged with the connection's id.
pub proof fn lemma_message_reaches_connected_entity(
    m: Map<u64, u64>,
    id: u64,
    entity: u64,
    payload: NetworkPayload,
)
    ensures
        ({
            let connected = routed_map(m, InboundEvent::Connected { id, entity });
            let expected = RouteAction::Deliver(MessageReceived { entity, client_id: id, payload });
            routed_action(connected, InboundEvent::Message { id, payload }) == expected
        }),
{
}

/// Opening a connection changes nothing for the messages of other connections.
pub proof fn lemma_connect_leaves_other_routes(
    m: Map<u64, u64>,
    id: u64,
    entity: u64,
    other: u64,
    payload: NetworkPayload,
)
    requires
        other != id,
    ensures
        ({
            let connected = routed_map(m, InboundEvent::Connected { id, entity });
            let message = InboundEvent::Message { id: other, payload };
            routed_action(connected, message) == routed_action(m, message)
        }),
{
}

/// A message on a connection that was never opened is dropped.
pub proof fn lemma_unknown_connection_dropped(m: Map<u64, u64>, id: u64, payload: NetworkPayload)
    requires
        !m.contains_key(id),
    ensures
        (routed_action(m, InboundEvent::Message { id, payload }) == RouteAction::Dropped { id }),
{
}

/// Closing a connection hands on the entity that was spawned for it, so that
/// the engine can clean the entity up.
pub proof fn lemma_disconnect_hands_on_entity(m: Map<u64, u64>, id: u64, entity: u64)
    ensures
        ({
            let connected = routed_map(m, InboundEvent::Connected { id, entity });
            let expected = RouteAction::Disconnect(UserDisconnected { entity, client_id: id });
            routed_action(connected, InboundEvent::Disconnected { id }) == expected
        }),
{
}

/// After a connection closed, messages that still arrive on it are dropped.
pub proof fn lemma_no_delivery_after_disconnect(m: Map<u64, u64>, id: u64, payload: NetworkPayload)
    ensures
        ({
            let closed = routed_map(m, InboundEvent::Disconnected { id });
            routed_action(closed, InboundEvent::Message { id, payload }) == RouteAction::Dropped { id }
        }),
{
}

/// Only the close of a connection removes it from the map: every other event
/// keeps a recorded connection.
pub proof fn lemma_routing_keeps_other_connections(m: Map<u64, u64>, event: InboundEvent, id: u64)
    requires
        m.contains_key(id),
        !(event matches InboundEvent::Disconnected { id: closed } && closed == id),
    ensures
        routed_map(m, event).contains_key(id),
{
}

/// The connection map after routing the events `events` in order.
pub open spec fn route_all(m: Map<u64, u64>, events: Seq<InboundEvent>) -> Map<u64, u64>
    decreases events.len(),
{
    if events.len() == 0 {
        m
    } else {
        routed_map(route_all(m, events.drop_last()), events.last())
    }
}

/// Routing a message never changes the connection map.
pub proof fn lemma_message_leaves_map(m: Map<u64, u64>, id: u64, payload: NetworkPayload)
    ensures
        routed_map(m, InboundEvent::Message { id, payload }) == m,
{
}

/// Messages, from any connections and in any number, leave the connection
/// map as it was.
pub proof fn lemma_messages_leave_map(m: Map<u64, u64>, events: Seq<InboundEvent>)
    requires
        forall|i: int| 0 <= i < events.len() ==> #[trigger] events[i] is Message,
    ensures
        route_all(m, events) == m,
    decreases events.len(),
{
    if events.len() > 0 {
        let init = events.drop_last();
        assert forall|i: int| 0 <= i < init.len() implies #[trigger] init[i] is Message by {
            assert(init[i] == events[i]);
        }
        lemma_messages_leave_map(m, init);
        assert(events.last() == events[events.len() - 1]);
    }
}

/// After a connection opened with entity `entity`, every later message on it
/// is delivered to `entity`, however many messages were routed in between.
pub proof fn lemma_messages_keep_reaching_entity(
    m: Map<u64, u64>,
    id: u64,
    entity: u64,
    between: Seq<InboundEvent>,
    payload: NetworkPayload,
)
    requires
        forall|i: int| 0 <= i < between.len() ==> #[trigger] between[i] is Message,
    ensures
        ({
            let connected = routed_map(m, InboundEvent::Connected { id, entity });
            let later = route_all(connected, between);
            let expected = RouteAction::Deliver(MessageReceived { entity, client_id: id, payload });
            routed_action(later, InboundEvent::Message { id, payload }) == expected
        }),
{
    lemma_messages_leave_map(routed_map(m, InboundEvent::Connected { id, entity }), between);
}

/// Closing a connection removes exactly its entry: the closed id is gone, and
/// every other connection keeps the entity it had.
pub proof fn lemma_disconnect_removes_only_its_entry(m: Map<u64, u64>, id: u64, other: u64)
    ensures
        !routed_map(m, InboundEvent::Disconnected { id }).contains_key(id),
        other != id ==> (routed_map(m, InboundEvent::Disconnected { id }).contains_key(other)
            <==> m.contains_key(other)),
        other != id && m.contains_key(other) ==> routed_map(
            m,
            InboundEvent::Disconnected { id },
        )[other] == m[other],
{
}

/// Closing one connection changes nothing for another: its messages still
/// reach its entity, and its own close still hands on its entity.
pub proof fn lemma_disconnect_leaves_other_connections(
    m: Map<u64, u64>,
    id: u64,
    other: u64,
    payload: NetworkPayload,
)
    requires
        other != id,
        m.contains_key(other),
    ensures
        ({
            let closed = routed_map(m, InboundEvent::Disconnected { id });
            let delivered = RouteAction::Deliver(
                MessageReceived { entity: m[other], client_id: other, payload },
            );
            let handed_on = RouteAction::Disconnect(
                UserDisconnected { entity: m[other], client_id: other },
            );
            &&& routed_action(closed, InboundEvent::Message { id: other, payload }) == delivered
            &&& routed_action(closed, InboundEvent::Disconnected { id: other }) == handed_on
        }),
{
    lemma_disconnect_removes_only_its_entry(m, id, other);
}

/// An open reader forwards a frame's payload exactly, as a message of its
/// connection.
pub proof fn lemma_reader_forwards_frame(id: u64, payload: NetworkPayload)
    ensures
        reader_step(id, false, SocketRead::Frame(payload)) == (
            false,
            Some(InboundEvent::Message { id, payload }),
        ),
{
}

/// The reports of a reader match its reads one for one: the `i`-th report is
/// the message of the `i`-th read's payload when that read was a frame, and
/// `Disconnected` when it was a close, an error or the end of the stream.
pub proof fn lemma_reader_reports_match_reads(id: u64, reads: Seq<SocketRead>)
    ensures
        reader_run(id, reads).1.len() <= reads.len(),
        forall|i: int|
            0 <= i < reader_run(id, reads).1.len() ==> (reads[i] matches SocketRead::Frame(p)
                ==> #[trigger] reader_run(id, reads).1[i] == InboundEvent::Message { id, payload: p }),
        forall|i: int|
            0 <= i < reader_run(id, reads).1.len() ==> (!(reads[i] is Frame)
                ==> #[trigger] reader_run(id, reads).1[i] == InboundEvent::Disconnected { id }),
        !reader_run(id, reads).0 ==> reader_run(id, reads).1.len() == reads.len(),
    decreases reads.len(),
{
    if reads.len() > 0 {
        let init = reads.drop_last();
        lemma_reader_reports_match_reads(id, init);
        let before = reader_run(id, init);
        let events = reader_run(id, reads).1;
        assert(reads.last() == reads[reads.len() - 1]);
        if before.0 {
            assert(events == before.1);
            assert forall|i: int| 0 <= i < events.len() implies events[i] == before.1[i]
                && reads[i] == init[i] by {}
        } else {
            assert(before.1.len() == init.len());
            assert forall|i: int| 0 <= i < before.1.len() implies events[i] == before.1[i]
                && reads[i] == init[i] by {}
        }
    }
}

} // verus!
