//! The set of live connections, found by address.

use crate::auth::{acceptable_key, KeyError};
use crate::codec::{frame_of, Packet};
use crate::connection::{
    enqueued_all, history_frames, lemma_enqueued_all_keeps_order, lemma_enqueued_all_step,
    Connection, ConnectionView, OUTBOUND_CAPACITY,
};
use crate::store::Message;
use vstd::prelude::*;

verus! {

/// Whether one of `connections` has the address `address`.
spec fn holds(connections: Seq<Connection>, address: u64) -> bool {
    exists|i: int| 0 <= i < connections.len() && #[trigger] connections[i].spec_address() == address
}

/// The place of the connection with the address `address` among `connections`.
spec fn position(connections: Seq<Connection>, address: u64) -> int {
    choose|i: int| 0 <= i < connections.len() && #[trigger] connections[i].spec_address() == address
}

/// No two of `connections` share an address.
spec fn distinct(connections: Seq<Connection>) -> bool {
    forall|i: int, j: int|
        0 <= i < j < connections.len() ==> #[trigger] connections[i].spec_address()
            != #[trigger] connections[j].spec_address()
}

/// Each of `connections` is well formed.
spec fn sound(connections: Seq<Connection>) -> bool {
    forall|i: int| 0 <= i < connections.len() ==> (#[trigger] connections[i]).wf()
}

/// The connections by address.
spec fn table(connections: Seq<Connection>) -> Map<u64, ConnectionView> {
    Map::new(
        |address: u64| holds(connections, address),
        |address: u64| connections[position(connections, address)]@,
    )
}

/// Where addresses are distinct, the table holds each connection under its own address.
proof fn lemma_table_at(connections: Seq<Connection>, i: int)
    requires
        distinct(connections),
        0 <= i < connections.len(),
    ensures
        holds(connections, connections[i].spec_address()),
        position(connections, connections[i].spec_address()) == i,
        table(connections).contains_key(connections[i].spec_address()),
        table(connections)[connections[i].spec_address()] == connections[i]@,
{
}

/// A connection with a new address, put at the end, is one more entry of the table.
proof fn lemma_table_push(connections: Seq<Connection>, connection: Connection)
    requires
        distinct(connections),
        !holds(connections, connection.spec_address()),
    ensures
        distinct(connections.push(connection)),
        table(connections.push(connection)) == table(connections).insert(
            connection.spec_address(),
            connection@,
        ),
{
    let longer = connections.push(connection);
    let last = connections.len() as int;
    assert forall|i: int, j: int| 0 <= i < j < longer.len() implies #[trigger] longer[i].spec_address()
        != #[trigger] longer[j].spec_address() by {}
    assert forall|address: u64| #[trigger]
        table(longer).contains_key(address) == table(connections).insert(
            connection.spec_address(),
            connection@,
        ).contains_key(address) by {
        if holds(connections, address) {
            let at = position(connections, address);
            assert(longer[at].spec_address() == address);
        }
        if address == connection.spec_address() {
            assert(longer[last].spec_address() == address);
        }
    }
    assert forall|address: u64| #[trigger] table(longer).contains_key(address) implies table(
        longer,
    )[address] == table(connections).insert(connection.spec_address(), connection@)[address] by {
        let at = position(longer, address);
        lemma_table_at(longer, at);
        if at < last {
            lemma_table_at(connections, at);
        }
    }
}

/// A connection put in the place of one with the same address takes its entry.
proof fn lemma_table_update(connections: Seq<Connection>, i: int, connection: Connection)
    requires
        distinct(connections),
        0 <= i < connections.len(),
        connections[i].spec_address() == connection.spec_address(),
    ensures
        distinct(connections.update(i, connection)),
        table(connections.update(i, connection)) == table(connections).insert(
            connection.spec_address(),
            connection@,
        ),
{
    let changed = connections.update(i, connection);
    assert forall|a: int, b: int| 0 <= a < b < changed.len() implies #[trigger] changed[a].spec_address()
        != #[trigger] changed[b].spec_address() by {}
    assert forall|address: u64| #[trigger]
        table(changed).contains_key(address) == table(connections).insert(
            connection.spec_address(),
            connection@,
        ).contains_key(address) by {
        if holds(connections, address) {
            let at = position(connections, address);
            assert(changed[at].spec_address() == address);
        }
    }
    assert forall|address: u64| #[trigger] table(changed).contains_key(address) implies table(
        changed,
    )[address] == table(connections).insert(connection.spec_address(), connection@)[address] by {
        let at = position(changed, address);
        lemma_table_at(changed, at);
        if at != i {
            lemma_table_at(connections, at);
        }
    }
}

/// A change of one connection that keeps its address is a change of its entry alone.
proof fn lemma_table_changed(before: Seq<Connection>, after: Seq<Connection>, i: int)
    requires
        distinct(before),
        0 <= i < before.len(),
        after == before.update(i, after[i]),
        after[i].spec_address() == before[i].spec_address(),
    ensures
        distinct(after),
        table(before).contains_key(before[i].spec_address()),
        table(before)[before[i].spec_address()] == before[i]@,
        table(after) == table(before).insert(before[i].spec_address(), after[i]@),
{
    lemma_table_at(before, i);
    lemma_table_update(before, i, after[i]);
}

/// Taking a connection out takes its entry out of the table.
proof fn lemma_table_remove(connections: Seq<Connection>, i: int)
    requires
        distinct(connections),
        0 <= i < connections.len(),
    ensures
        distinct(connections.remove(i)),
        table(connections.remove(i)) == table(connections).remove(connections[i].spec_address()),
{
    let gone = connections[i].spec_address();
    let shorter = connections.remove(i);
    assert forall|a: int| 0 <= a < shorter.len() implies #[trigger] shorter[a] == connections[if a
        < i {
        a
    } else {
        a + 1
    }] by {}
    assert forall|a: int, b: int| 0 <= a < b < shorter.len() implies #[trigger] shorter[a].spec_address()
        != #[trigger] shorter[b].spec_address() by {}
    assert forall|address: u64| #[trigger]
        table(shorter).contains_key(address) == table(connections).remove(gone).contains_key(
            address,
        ) by {
        if holds(shorter, address) {
            let at = position(shorter, address);
            let at0 = if at < i { at } else { at + 1 };
            lemma_table_at(connections, at0);
            lemma_table_at(connections, i);
        }
        if holds(connections, address) && address != gone {
            let at = position(connections, address);
            let at1 = if at < i { at } else { at - 1 };
            assert(shorter[at1].spec_address() == address);
        }
    }
    assert forall|address: u64| #[trigger] table(shorter).contains_key(address) implies table(
        shorter,
    )[address] == table(connections).remove(gone)[address] by {
        let at = position(shorter, address);
        lemma_table_at(shorter, at);
        let at0 = if at < i { at } else { at + 1 };
        lemma_table_at(connections, at0);
    }
}

/// The table after the connection at `address` was changed by `change`: as before where
/// no connection is registered there.
pub open spec fn changed_at(
    table: Map<u64, ConnectionView>,
    address: u64,
    change: spec_fn(ConnectionView) -> ConnectionView,
) -> Map<u64, ConnectionView> {
    if table.contains_key(address) {
        table.insert(address, change(table[address]))
    } else {
        table
    }
}

/// The table after an attempt to queue `frame` for every connection.
pub open spec fn broadcast_to(table: Map<u64, ConnectionView>, frame: Seq<char>) -> Map<
    u64,
    ConnectionView,
> {
    table.map_values(|connection: ConnectionView| connection.queue(frame))
}

/// The table after one broadcast for each of `frames`, in their order.
pub open spec fn broadcast_each(table: Map<u64, ConnectionView>, frames: Seq<Seq<char>>) -> Map<
    u64,
    ConnectionView,
>
    decreases frames.len(),
{
    if frames.len() == 0 {
        table
    } else {
        broadcast_to(broadcast_each(table, frames.drop_last()), frames.last())
    }
}

/// Broadcasts reach every connection in the order in which they were made: after any
/// number of broadcasts the same connections are registered, and each has been offered
/// the same frames in the same order.
pub proof fn lemma_broadcast_order(
    table: Map<u64, ConnectionView>,
    frames: Seq<Seq<char>>,
    address: u64,
)
    requires
        table.contains_key(address),
    ensures
        broadcast_each(table, frames).dom() == table.dom(),
        broadcast_each(table, frames)[address] == table[address].queue_all(frames),
    decreases frames.len(),
{
    if frames.len() > 0 {
        lemma_broadcast_order(table, frames.drop_last(), address);
        lemma_enqueued_all_step(table[address].outbound, frames, frames.len() - 1);
        assert(frames.take(frames.len() as int) =~= frames);
    }
}

/// All clients see one order: two connections that had room for all of `frames` have
/// been queued the very same frames in the very same order, that of the broadcasts.
pub proof fn lemma_broadcast_same_order_for_all(
    table: Map<u64, ConnectionView>,
    frames: Seq<Seq<char>>,
    one: u64,
    other: u64,
)
    requires
        table.contains_key(one),
        table.contains_key(other),
        table[one].outbound.len() + frames.len() <= OUTBOUND_CAPACITY,
        table[other].outbound.len() + frames.len() <= OUTBOUND_CAPACITY,
    ensures
        broadcast_each(table, frames)[one].outbound == table[one].outbound + frames,
        broadcast_each(table, frames)[other].outbound == table[other].outbound + frames,
{
    lemma_broadcast_order(table, frames, one);
    lemma_broadcast_order(table, frames, other);
    lemma_enqueued_all_keeps_order(table[one].outbound, frames);
    lemma_enqueued_all_keeps_order(table[other].outbound, frames);
}

/// Connections that each got `frame` queued make the table that `broadcast_to` gives.
proof fn lemma_table_broadcast(before: Seq<Connection>, after: Seq<Connection>, frame: Seq<char>)
    requires
        distinct(before),
        before.len() == after.len(),
        forall|i: int|
            0 <= i < before.len() ==> (#[trigger] after[i]).spec_address()
                == before[i].spec_address() && after[i]@ == before[i]@.queue(frame),
    ensures
        distinct(after),
        table(after) == broadcast_to(table(before), frame),
{
    assert forall|a: int, b: int| 0 <= a < b < after.len() implies #[trigger] after[a].spec_address()
        != #[trigger] after[b].spec_address() by {}
    assert forall|address: u64| #[trigger]
        table(after).contains_key(address) == broadcast_to(table(before), frame).contains_key(
            address,
        ) by {
        if holds(before, address) {
            let at = position(before, address);
            assert(after[at].spec_address() == address);
        }
    }
    assert forall|address: u64| #[trigger] table(after).contains_key(address) implies table(
        after,
    )[address] == broadcast_to(table(before), frame)[address] by {
        let at = position(after, address);
        lemma_table_at(after, at);
        lemma_table_at(before, at);
    }
}

/// The live connections. No two have the same address.
pub struct ConnectionRegistry {
    connections: Vec<Connection>,
}

impl View for ConnectionRegistry {
    type V = Map<u64, ConnectionView>;

    closed spec fn view(&self) -> Map<u64, ConnectionView> {
        table(self.connections@)
    }
}

impl ConnectionRegistry {
    /// What holds of every registry: its connections are well formed, and no two have
    /// the same address.
    pub closed spec fn wf(&self) -> bool {
        distinct(self.connections@) && sound(self.connections@)
    }

    /// In a well-formed registry no connection has more frames waiting than its queue
    /// has room for.
    pub proof fn lemma_bounded(&self, address: u64)
        requires
            self.wf(),
            self@.contains_key(address),
        ensures
            self@[address].bounded(),
    {
        let at = position(self.connections@, address);
        lemma_table_at(self.connections@, at);
    }

    /// A registry without connections.
    pub fn new() -> (registry: ConnectionRegistry)
        ensures
            registry.wf(),
            registry@ == Map::<u64, ConnectionView>::empty(),
    {
        let registry = ConnectionRegistry { connections: Vec::new() };
        registry
    }

    /// The place of the connection with the address `address`.
    fn find(&self, address: u64) -> (at: Option<usize>)
        requires
            self.wf(),
        ensures
            match at {
                Some(i) => i < self.connections@.len() && self.connections@[i as int].spec_address()
                    == address,
                None => !holds(self.connections@, address),
            },
    {
        let mut i: usize = 0;
        while i < self.connections.len()
            invariant
                i <= self.connections@.len(),
                forall|j: int| 0 <= j < i ==> (#[trigger] self.connections@[j]).spec_address() != address,
            decreases self.connections@.len() - i,
        {
            if self.connections[i].address() == address {
                return Some(i);
            }
            i = i + 1;
        }
        None
    }

    /// The number of connections.
    pub fn len(&self) -> (count: usize)
        requires
            self.wf(),
        ensures
            count == self@.dom().len(),
    {
        proof {
            lemma_table_len(self.connections@);
        }
        self.connections.len()
    }

    /// Whether a connection with the address `address` is registered.
    pub fn contains(&self, address: u64) -> (present: bool)
        requires
            self.wf(),
        ensures
            present == self@.contains_key(address),
    {
        self.find(address).is_some()
    }

    /// The connection with the address `address`, if one is registered.
    pub fn get(&self, address: u64) -> (found: Option<&Connection>)
        requires
            self.wf(),
        ensures
            match found {
                Some(connection) => self@.contains_key(address) && self@[address] == connection@
                    && connection.spec_address() == address && connection.wf(),
                None => !self@.contains_key(address),
            },
    {
        match self.find(address) {
            Some(i) => {
                proof {
                    lemma_table_at(self.connections@, i as int);
                }
                Some(&self.connections[i])
            },
            None => None,
        }
    }

    /// Registers `connection` under its address. A connection that was registered under
    /// that address before is replaced.
    pub fn insert(&mut self, connection: Connection)
        requires
            old(self).wf(),
            connection.wf(),
        ensures
            final(self).wf(),
            final(self)@ == old(self)@.insert(connection.spec_address(), connection@),
    {
        match self.find(connection.address()) {
            Some(i) => {
                proof {
                    lemma_table_update(self.connections@, i as int, connection);
                }
                self.connections[i] = connection;
            },
            None => {
                proof {
                    lemma_table_push(self.connections@, connection);
                }
                self.connections.push(connection);
            },
        }
    }

    /// Queues the frame of `packet` for the connection with the address `address`. Tells
    /// whether one is registered, not whether its queue had room.
    pub fn queue_packet(&mut self, address: u64, packet: &Packet) -> (present: bool)
        requires
            old(self).wf(),
        ensures
            final(self).wf(),
            present == old(self)@.contains_key(address),
            final(self)@ == changed_at(
                old(self)@,
                address,
                |connection: ConnectionView| connection.queue(frame_of(packet@)),
            ),
    {
        match self.find(address) {
            Some(i) => {
                self.connections[i].queue_packet(packet);
                proof {
                    lemma_table_changed(old(self).connections@, self.connections@, i as int);
                }
                true
            },
            None => false,
        }
    }

    /// Queues the packets that carry `history` for the connection with the address
    /// `address`, in the order of `history`. Tells whether such a connection is
    /// registered, not whether its queue had room.
    pub fn replay(&mut self, address: u64, history: &Vec<Message>) -> (present: bool)
        requires
            old(self).wf(),
        ensures
            final(self).wf(),
            present == old(self)@.contains_key(address),
            final(self)@ == changed_at(
                old(self)@,
                address,
                |connection: ConnectionView| connection.queue_all(history_frames(history@)),
            ),
    {
        match self.find(address) {
            Some(i) => {
                self.connections[i].replay(history);
                proof {
                    lemma_table_changed(old(self).connections@, self.connections@, i as int);
                }
                true
            },
            None => false,
        }
    }

    /// Takes the frame that has waited longest for the connection with the address
    /// `address`, if there is such a connection and a frame waits for it.
    pub fn next_outbound(&mut self, address: u64) -> (frame: Option<String>)
        requires
            old(self).wf(),
        ensures
            final(self).wf(),
            final(self)@ == changed_at(
                old(self)@,
                address,
                |connection: ConnectionView| connection.advance(),
            ),
            match frame {
                Some(frame) => old(self)@.contains_key(address) && old(self)@[address].outbound.len()
                    > 0 && frame@ == old(self)@[address].outbound[0],
                None => !old(self)@.contains_key(address) || old(self)@[address].outbound.len()
                    == 0,
            },
    {
        match self.find(address) {
            Some(i) => {
                let frame = self.connections[i].next_outbound();
                proof {
                    lemma_table_changed(old(self).connections@, self.connections@, i as int);
                }
                frame
            },
            None => None,
        }
    }

    /// Hands `pem` to the connection with the address `address` as its new public key.
    /// `None` where no such connection is registered; else what the connection answered.
    pub fn set_public_key(&mut self, address: u64, pem: &[u8]) -> (result: Option<
        Result<(), KeyError>,
    >)
        requires
            old(self).wf(),
        ensures
            final(self).wf(),
            final(self)@ == changed_at(
                old(self)@,
                address,
                |connection: ConnectionView| connection.handshake(pem@),
            ),
            result is Some <==> old(self)@.contains_key(address),
            result matches Some(answer) ==> (answer is Ok <==> acceptable_key(pem@)),
    {
        match self.find(address) {
            Some(i) => {
                let answer = self.connections[i].set_public_key(pem);
                proof {
                    lemma_table_changed(old(self).connections@, self.connections@, i as int);
                }
                Some(answer)
            },
            None => None,
        }
    }

    /// Queues the frame of `packet` for every connection, the sender's among them. A
    /// connection whose queue is full misses the packet; the others do not wait for it.
    pub fn broadcast(&mut self, packet: &Packet)
        requires
            old(self).wf(),
        ensures
            final(self).wf(),
            final(self)@ == broadcast_to(old(self)@, frame_of(packet@)),
    {
        let frame = packet.network_encode();
        let ghost before = self.connections@;
        let mut i: usize = 0;
        while i < self.connections.len()
            invariant
                i <= self.connections@.len(),
                self.connections@.len() == before.len(),
                frame@ == frame_of(packet@),
                sound(self.connections@),
                forall|j: int|
                    0 <= j < before.len() ==> (#[trigger] self.connections@[j]).spec_address()
                        == before[j].spec_address(),
                forall|j: int|
                    0 <= j < i ==> (#[trigger] self.connections@[j])@ == before[j]@.queue(frame@),
                forall|j: int| i <= j < before.len() ==> (#[trigger] self.connections@[j])@ == before[j]@,
            decreases self.connections@.len() - i,
        {
            self.connections[i].queue_frame(frame.clone());
            i = i + 1;
        }
        proof {
            lemma_table_broadcast(before, self.connections@, frame@);
        }
    }

    /// Takes the connection with the address `address` out of the registry, with all
    /// that waits for it. Tells whether there was one.
    pub fn remove(&mut self, address: u64) -> (present: bool)
        requires
            old(self).wf(),
        ensures
            final(self).wf(),
            present == old(self)@.contains_key(address),
            final(self)@ == old(self)@.remove(address),
    {
        match self.find(address) {
            Some(i) => {
                proof {
                    lemma_table_remove(self.connections@, i as int);
                    lemma_table_at(self.connections@, i as int);
                }
                let _ = self.connections.remove(i);
                true
            },
            None => {
                false
            },
        }
    }
}

/// Where addresses are distinct, the table has as many entries as there are connections.
proof fn lemma_table_len(connections: Seq<Connection>)
    requires
        distinct(connections),
    ensures
        table(connections).dom().finite(),
        table(connections).dom().len() == connections.len(),
    decreases connections.len(),
{
    if connections.len() == 0 {
        assert(table(connections).dom() =~= Set::<u64>::empty());
    } else {
        let last = connections.last();
        let front = connections.drop_last();
        assert forall|i: int, j: int| 0 <= i < j < front.len() implies #[trigger] front[i].spec_address()
            != #[trigger] front[j].spec_address() by {}
        lemma_table_len(front);
        assert(front.push(last) =~= connections);
        lemma_table_push(front, last);
    }
}

} // verus!
