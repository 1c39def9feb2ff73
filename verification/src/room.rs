//! Rooms and the room coordinator.
//!
//! The room table — every named multicast group and its members — is owned by
//! a single coordinator task; all mutations and room-scoped broadcasts go
//! through [`RoomTable::process_event`], which the shell drives from one
//! bounded event channel. Serializing everything here is what makes leaving
//! all rooms atomic with respect to concurrent joins and gives room delivery
//! its FIFO order.

use vstd::prelude::*;
use vstd::string::StringExecFns;

use crate::conn::{Connection, Frame};
use crate::handle::{delivered_binary, delivered_text, vec_u64_contains, fanout_binary, fanout_text};

verus! {

/// Events consumed by the room coordinator.
pub enum RoomEvents {
    /// Request to join a room; the room is created if it does not exist.
    JoinRoom {
        /// Unique identifier of the client.
        client_id: u64,
        /// Target room name to join.
        room_name: String,
    },
    /// Text broadcast to a room, excluding the sender.
    TextMessage {
        /// Sender client identifier.
        client_id: u64,
        /// Target room name.
        room_name: String,
        /// UTF-8 text payload.
        text: String,
    },
    /// Text broadcast to a room, including the sender.
    EmitTextMessage {
        /// Sender client identifier.
        client_id: u64,
        /// Target room name.
        room_name: String,
        /// UTF-8 text payload.
        text: String,
    },
    /// Binary broadcast to a room, excluding the sender.
    BinaryMessage {
        /// Sender client identifier.
        client_id: u64,
        /// Target room name.
        room_name: String,
        /// Binary payload.
        bytes: Vec<u8>,
    },
    /// Binary broadcast to a room, including the sender.
    EmitBinaryMessage {
        /// Sender client identifier.
        client_id: u64,
        /// Target room name.
        room_name: String,
        /// Binary payload.
        bytes: Vec<u8>,
    },
    /// Request to leave a room; an emptied room is dropped from the table.
    LeaveRoom {
        /// Unique identifier of the client.
        client_id: u64,
        /// Target room name to leave.
        room_name: String,
    },
    /// Request to leave every joined room; emptied rooms are dropped.
    LeaveAllRooms {
        /// Unique identifier of the client.
        client_id: u64,
    },
    /// Query for the rooms the client is a member of; the coordinator sends
    /// the name list on the client's reply channel.
    ListRooms {
        /// Unique identifier of the client.
        client_id: u64,
    },
}

/// No value occurs twice.
pub open spec fn unique_u64(s: Seq<u64>) -> bool {
    forall|i: int, j: int| 0 <= i < j < s.len() ==> s[i] != s[j]
}

/// A named multicast group and the ids of its members.
pub struct Room {
    /// The interned room name.
    pub room_name: String,
    /// The members' connection ids, in join order, without duplicates.
    pub room_clients: Vec<u64>,
}

impl Room {
    /// A room's members hold no duplicate id.
    pub open spec fn wf(self) -> bool {
        unique_u64(self.room_clients@)
    }

    /// Creates an empty room with no name and no members.
    pub fn new() -> (r: Self)
        ensures
            r.room_name@ == Seq::<char>::empty(),
            r.room_clients@ == Seq::<u64>::empty(),
            r.wf(),
    {
        Room { room_name: String::new(), room_clients: Vec::new() }
    }

    /// Broadcasts a text message to every member of this room that appears in
    /// `clients` and is not closed; every other connection is untouched.
    pub fn text(&self, clients: &mut Vec<Connection>, text: &str)
        ensures
            delivered_text(old(clients)@, final(clients)@, None, Some(self.room_clients@), text@),
    {
        fanout_text(clients, text, None, Some(&self.room_clients));
    }

    /// Broadcasts a binary payload to every member of this room that appears
    /// in `clients` and is not closed; every other connection is untouched.
    pub fn binary(&self, clients: &mut Vec<Connection>, bytes: &Vec<u8>)
        ensures
            delivered_binary(
                old(clients)@,
                final(clients)@,
                None,
                Some(self.room_clients@),
                bytes@,
            ),
    {
        fanout_binary(clients, bytes, None, Some(&self.room_clients));
    }
}

/// Client `id` is a member of a room named `name` in `rooms`.
pub open spec fn seq_member_of(rooms: Seq<Room>, id: u64, name: Seq<char>) -> bool {
    exists|i: int|
        0 <= i < rooms.len() && (#[trigger] rooms[i]).room_name@ == name
            && rooms[i].room_clients@.contains(id)
}

/// A room named `name` exists in `rooms`.
pub open spec fn seq_has_room(rooms: Seq<Room>, name: Seq<char>) -> bool {
    exists|i: int| 0 <= i < rooms.len() && (#[trigger] rooms[i]).room_name@ == name
}

/// No two rooms share a name.
pub open spec fn distinct_names(rooms: Seq<Room>) -> bool {
    forall|i: int, j: int|
        0 <= i < j < rooms.len() ==> (#[trigger] rooms[i]).room_name@ != (
        #[trigger] rooms[j]).room_name@
}

/// The names of the rooms in `rooms` whose members include `id`, in table
/// order.
pub open spec fn names_of_member(rooms: Seq<Room>, id: u64) -> Seq<Seq<char>>
    decreases rooms.len(),
{
    if rooms.len() == 0 {
        Seq::empty()
    } else {
        names_of_member(rooms.drop_last(), id) + if rooms.last().room_clients@.contains(id) {
            seq![rooms.last().room_name@]
        } else {
            Seq::empty()
        }
    }
}

/// Membership in `rooms.push(r)` is membership in `rooms` or membership in
/// `r` itself.
pub proof fn lemma_member_of_push(rooms: Seq<Room>, r: Room, id: u64, name: Seq<char>)
    ensures
        seq_member_of(rooms.push(r), id, name) <==> (seq_member_of(rooms, id, name) || (
        r.room_name@ == name && r.room_clients@.contains(id))),
        seq_has_room(rooms.push(r), name) <==> (seq_has_room(rooms, name) || r.room_name@ == name),
{
    if seq_member_of(rooms, id, name) {
        let i = choose|i: int|
            0 <= i < rooms.len() && (#[trigger] rooms[i]).room_name@ == name
                && rooms[i].room_clients@.contains(id);
        assert(rooms.push(r)[i] == rooms[i]);
    }
    if r.room_name@ == name {
        assert(rooms.push(r)[rooms.len() as int] == r);
    }
    if seq_member_of(rooms.push(r), id, name) {
        let i = choose|i: int|
            0 <= i < rooms.push(r).len() && (#[trigger] rooms.push(r)[i]).room_name@ == name
                && rooms.push(r)[i].room_clients@.contains(id);
        if i < rooms.len() {
            assert(rooms[i] == rooms.push(r)[i]);
        }
    }
    if seq_has_room(rooms.push(r), name) {
        let i = choose|i: int|
            0 <= i < rooms.push(r).len() && (#[trigger] rooms.push(r)[i]).room_name@ == name;
        if i < rooms.len() {
            assert(rooms[i] == rooms.push(r)[i]);
        }
    }
    if seq_has_room(rooms, name) {
        let i = choose|i: int|
            0 <= i < rooms.len() && (#[trigger] rooms[i]).room_name@ == name;
        assert(rooms.push(r)[i] == rooms[i]);
    }
}

/// A client that is a member of no room has an empty name list.
pub proof fn lemma_no_membership_no_names(rooms: Seq<Room>, id: u64)
    requires
        forall|n: Seq<char>| !seq_member_of(rooms, id, n),
    ensures
        names_of_member(rooms, id) =~= Seq::<Seq<char>>::empty(),
    decreases rooms.len(),
{
    if rooms.len() > 0 {
        assert forall|n: Seq<char>| !seq_member_of(rooms.drop_last(), id, n) by {
            if seq_member_of(rooms.drop_last(), id, n) {
                let i = choose|i: int|
                    0 <= i < rooms.drop_last().len() && (#[trigger] rooms.drop_last()[i]).room_name@
                        == n && rooms.drop_last()[i].room_clients@.contains(id);
                assert(rooms[i] == rooms.drop_last()[i]);
                assert(seq_member_of(rooms, id, n));
            }
        }
        lemma_no_membership_no_names(rooms.drop_last(), id);
        if rooms.last().room_clients@.contains(id) {
            assert(rooms[rooms.len() - 1] == rooms.last());
            assert(seq_member_of(rooms, id, rooms.last().room_name@));
        }
    }
}

/// A sender bound to one room on behalf of one connection, obtained from a
/// handle's `to`. Builds the coordinator events for room-wide delivery; the
/// shell enqueues them on the event channel.
pub struct RoomMethods {
    /// The name of the target room.
    pub room_name: String,
    /// The unique identifier of the client (sender).
    pub id: u64,
}

impl RoomMethods {
    /// Builds a text broadcast to the room that excludes the sender.
    pub fn text(&self, text: &str) -> (r: RoomEvents)
        ensures
            r matches RoomEvents::TextMessage { client_id, room_name, text: t } && client_id
                == self.id && room_name@ == self.room_name@ && t@ == text@,
    {
        RoomEvents::TextMessage {
            client_id: self.id,
            room_name: self.room_name.clone(),
            text: String::from_str(text),
        }
    }

    /// Builds a text broadcast to the room that includes the sender.
    pub fn emit_text(&self, text: &str) -> (r: RoomEvents)
        ensures
            r matches RoomEvents::EmitTextMessage { client_id, room_name, text: t } && client_id
                == self.id && room_name@ == self.room_name@ && t@ == text@,
    {
        RoomEvents::EmitTextMessage {
            client_id: self.id,
            room_name: self.room_name.clone(),
            text: String::from_str(text),
        }
    }

    /// Builds a binary broadcast to the room that excludes the sender.
    pub fn binary(&self, bytes: Vec<u8>) -> (r: RoomEvents)
        ensures
            r matches RoomEvents::BinaryMessage { client_id, room_name, bytes: b } && client_id
                == self.id && room_name@ == self.room_name@ && b@ == bytes@,
    {
        RoomEvents::BinaryMessage {
            client_id: self.id,
            room_name: self.room_name.clone(),
            bytes,
        }
    }

    /// Builds a binary broadcast to the room that includes the sender.
    pub fn emit_binary(&self, bytes: Vec<u8>) -> (r: RoomEvents)
        ensures
            r matches RoomEvents::EmitBinaryMessage { client_id, room_name, bytes: b } && client_id
                == self.id && room_name@ == self.room_name@ && b@ == bytes@,
    {
        RoomEvents::EmitBinaryMessage {
            client_id: self.id,
            room_name: self.room_name.clone(),
            bytes,
        }
    }
}

/// Removes `x` from a duplicate-free vector, if present; everything else is
/// kept.
fn vec_u64_remove(v: &mut Vec<u64>, x: u64)
    requires
        unique_u64(old(v)@),
    ensures
        unique_u64(final(v)@),
        !final(v)@.contains(x),
        forall|y: u64| y != x ==> final(v)@.contains(y) == old(v)@.contains(y),
        old(v)@.contains(x) ==> final(v)@.len() + 1 == old(v)@.len(),
        !old(v)@.contains(x) ==> final(v)@ == old(v)@,
{
    let mut i: usize = 0;
    while i < v.len()
        invariant
            0 <= i <= v@.len(),
            v@ == old(v)@,
            unique_u64(old(v)@),
            forall|j: int| 0 <= j < i ==> v@[j] != x,
        decreases v@.len() - i,
    {
        if v[i] == x {
            let ghost before = v@;
            v.remove(i);
            proof {
                before.remove_ensures(i as int);
                assert forall|y: u64| y != x implies v@.contains(y) == before.contains(y) by {
                    if v@.contains(y) {
                        let j = choose|j: int| 0 <= j < v@.len() && v@[j] == y;
                        if j < i {
                            assert(before[j] == y);
                        } else {
                            assert(before[j + 1] == y);
                        }
                    }
                    if before.contains(y) {
                        let j = choose|j: int| 0 <= j < before.len() && before[j] == y;
                        if j < i {
                            assert(v@[j] == y);
                        } else {
                            assert(j != i);
                            assert(v@[j - 1] == y);
                        }
                    }
                }
                assert(before[i as int] == x);
                assert forall|j: int| 0 <= j < v@.len() implies v@[j] != x by {
                    if j < i {
                        assert(v@[j] == before[j]);
                    } else {
                        assert(v@[j] == before[j + 1]);
                        assert(before[j + 1] != before[i as int]);
                    }
                }
                assert(!v@.contains(x));
                assert forall|a: int, b: int| 0 <= a < b < v@.len() implies v@[a] != v@[b] by {
                    let a0: int = if a < i {
                        a
                    } else {
                        a + 1
                    };
                    let b0: int = if b < i {
                        b
                    } else {
                        b + 1
                    };
                    assert(v@[a] == before[a0]);
                    assert(v@[b] == before[b0]);
                    assert(a0 < b0);
                    assert(before[a0] != before[b0]);
                }
            }
            return ;
        }
        i += 1;
    }
    proof {
        if v@.contains(x) {
            let j = choose|j: int| 0 <= j < v@.len() && v@[j] == x;
            assert(false);
        }
    }
}

/// Which membership pairs a purge leaves alone: every pair of another client,
/// and — when the purge is confined to one room — every pair naming another
/// room.
spec fn untouched_by_purge(
    id: u64,
    n: Seq<char>,
    client_id: u64,
    only: Option<Seq<char>>,
) -> bool {
    id != client_id || match only {
        Some(nm) => n != nm,
        None => false,
    }
}

/// The purge's scope as a spec value: one room's name, or every room.
spec fn purge_scope(only: Option<&String>) -> Option<Seq<char>> {
    match only {
        Some(nm) => Some(nm@),
        None => None,
    }
}

/// The room table: every live room, keyed by name. Owned exclusively by the
/// room coordinator; nothing else reads or writes it.
pub struct RoomTable {
    /// The rooms, in creation order. Names are distinct, members are
    /// duplicate-free, and no room is empty.
    pub rooms: Vec<Room>,
}

impl RoomTable {
    /// The table invariant: distinct room names, duplicate-free member lists,
    /// and no empty room — a room is dropped the moment it empties.
    pub open spec fn wf(self) -> bool {
        &&& distinct_names(self.rooms@)
        &&& forall|i: int| 0 <= i < self.rooms@.len() ==> (#[trigger] self.rooms@[i]).wf()
        &&& forall|i: int|
            0 <= i < self.rooms@.len() ==> (#[trigger] self.rooms@[i]).room_clients@.len() >= 1
    }

    /// Client `id` is a member of the room named `name`.
    pub open spec fn member_of(self, id: u64, name: Seq<char>) -> bool {
        seq_member_of(self.rooms@, id, name)
    }

    /// A room named `name` exists.
    pub open spec fn has_room(self, name: Seq<char>) -> bool {
        seq_has_room(self.rooms@, name)
    }

    /// The index of the room named `name`; meaningful when the room exists
    /// and names are distinct.
    pub open spec fn room_index(self, name: Seq<char>) -> int {
        choose|i: int| 0 <= i < self.rooms@.len() && (#[trigger] self.rooms@[i]).room_name@ == name
    }

    /// The member ids of the room named `name`; meaningful when it exists.
    pub open spec fn members_of(self, name: Seq<char>) -> Seq<u64> {
        self.rooms@[self.room_index(name)].room_clients@
    }

    /// Creates an empty table.
    pub fn new() -> (r: Self)
        ensures
            r.rooms@ == Seq::<Room>::empty(),
            r.wf(),
    {
        RoomTable { rooms: Vec::new() }
    }

    /// Looks a room up by name.
    fn find_room(&self, name: &String) -> (r: Option<usize>)
        ensures
            match r {
                Some(i) => i < self.rooms@.len() && self.rooms@[i as int].room_name@ == name@
                    && self.has_room(name@),
                None => !self.has_room(name@),
            },
    {
        let mut i: usize = 0;
        while i < self.rooms.len()
            invariant
                0 <= i <= self.rooms@.len(),
                forall|j: int| 0 <= j < i ==> (#[trigger] self.rooms@[j]).room_name@ != name@,
            decreases self.rooms@.len() - i,
        {
            if self.rooms[i].room_name.eq(name) {
                return Some(i);
            }
            i += 1;
        }
        proof {
            if self.has_room(name@) {
                let j = choose|j: int|
                    0 <= j < self.rooms@.len() && (#[trigger] self.rooms@[j]).room_name@ == name@;
                assert(false);
            }
        }
        None
    }

    /// Adds `client_id` to the room named `room_name`, creating the room with
    /// this single member when it does not exist. Re-joining is harmless, and
    /// no other membership changes.
    fn join(&mut self, client_id: u64, room_name: String)
        requires
            old(self).wf(),
        ensures
            final(self).wf(),
            final(self).member_of(client_id, room_name@),
            forall|id: u64, n: Seq<char>|
                !(id == client_id && n == room_name@) ==> final(self).member_of(id, n) == old(
                    self,
                ).member_of(id, n),
            forall|n: Seq<char>|
                final(self).has_room(n) == (old(self).has_room(n) || n == room_name@),
    {
        let found = self.find_room(&room_name);
        match found {
            Some(i) => {
                let already = vec_u64_contains(&self.rooms[i].room_clients, client_id);
                let ghost rooms0 = self.rooms@;
                if !already {
                    let r = &mut self.rooms[i];
                    r.room_clients.push(client_id);
                }
                proof {
                    let rooms1 = self.rooms@;
                    assert(rooms1[i as int].room_name@ == room_name@);
                    assert(rooms1[i as int].room_clients@.contains(client_id)) by {
                        if !already {
                            assert(rooms1[i as int].room_clients@.last() == client_id);
                        }
                    }
                    assert(final(self).member_of(client_id, room_name@));
                    assert forall|id: u64, n: Seq<char>| !(id == client_id && n == room_name@)
                        implies seq_member_of(rooms1, id, n) == seq_member_of(rooms0, id, n) by {
                        if seq_member_of(rooms1, id, n) {
                            let j = choose|j: int|
                                0 <= j < rooms1.len() && (#[trigger] rooms1[j]).room_name@ == n
                                    && rooms1[j].room_clients@.contains(id);
                            if j == i && !already {
                                let k = choose|k: int|
                                    0 <= k < rooms1[j].room_clients@.len()
                                        && rooms1[j].room_clients@[k] == id;
                                if k < rooms0[j].room_clients@.len() {
                                    assert(rooms0[j].room_clients@[k] == id);
                                } else {
                                    assert(id == client_id);
                                }
                                assert(seq_member_of(rooms0, id, n));
                            } else {
                                assert(rooms0[j] == rooms1[j]);
                                assert(seq_member_of(rooms0, id, n));
                            }
                        }
                        if seq_member_of(rooms0, id, n) {
                            let j = choose|j: int|
                                0 <= j < rooms0.len() && (#[trigger] rooms0[j]).room_name@ == n
                                    && rooms0[j].room_clients@.contains(id);
                            if j == i && !already {
                                let k = choose|k: int|
                                    0 <= k < rooms0[j].room_clients@.len()
                                        && rooms0[j].room_clients@[k] == id;
                                assert(rooms1[j].room_clients@[k] == id);
                                assert(seq_member_of(rooms1, id, n));
                            } else {
                                assert(rooms1[j] == rooms0[j]);
                                assert(seq_member_of(rooms1, id, n));
                            }
                        }
                    }
                    assert forall|n: Seq<char>| seq_has_room(rooms1, n) == (seq_has_room(rooms0, n)
                        || n == room_name@) by {
                        if seq_has_room(rooms1, n) {
                            let j = choose|j: int|
                                0 <= j < rooms1.len() && (#[trigger] rooms1[j]).room_name@ == n;
                            assert(rooms0[j].room_name@ == n);
                        }
                        if seq_has_room(rooms0, n) {
                            let j = choose|j: int|
                                0 <= j < rooms0.len() && (#[trigger] rooms0[j]).room_name@ == n;
                            assert(rooms1[j].room_name@ == n);
                        }
                    }
                    assert(final(self).wf()) by {
                        assert forall|a: int|
                            0 <= a < rooms1.len() implies (#[trigger] rooms1[a]).wf()
                            && rooms1[a].room_clients@.len() >= 1 by {
                            if a != i || already {
                                assert(rooms1[a] == rooms0[a]);
                            } else {
                                let m0 = rooms0[a].room_clients@;
                                let m1 = rooms1[a].room_clients@;
                                assert(m1 == m0.push(client_id));
                                assert forall|p: int, q: int|
                                    0 <= p < q < m1.len() implies m1[p] != m1[q] by {
                                    if q == m1.len() - 1 {
                                        assert(m1[p] == m0[p]);
                                        assert(m0.contains(m0[p]));
                                    }
                                }
                            }
                        }
                        assert forall|a: int, b: int| 0 <= a < b < rooms1.len() implies (
                        #[trigger] rooms1[a]).room_name@ != (#[trigger] rooms1[b]).room_name@ by {
                            assert(rooms1[a].room_name@ == rooms0[a].room_name@);
                            assert(rooms1[b].room_name@ == rooms0[b].room_name@);
                        }
                    }
                }
            },
            None => {
                let mut members: Vec<u64> = Vec::new();
                members.push(client_id);
                let ghost rooms0 = self.rooms@;
                let ghost newroom = Room { room_name: room_name, room_clients: members };
                self.rooms.push(Room { room_name, room_clients: members });
                proof {
                    assert(self.rooms@ =~= rooms0.push(self.rooms@.last()));
                    assert(self.rooms@.last().room_clients@.contains(client_id)) by {
                        assert(self.rooms@.last().room_clients@[0] == client_id);
                    }
                    assert forall|id: u64, n: Seq<char>| !(id == client_id && n == newroom.room_name@)
                        implies seq_member_of(self.rooms@, id, n) == seq_member_of(
                        rooms0,
                        id,
                        n,
                    ) by {
                        lemma_member_of_push(rooms0, self.rooms@.last(), id, n);
                        assert(self.rooms@.last().room_clients@.len() == 1);
                        if self.rooms@.last().room_clients@.contains(id) {
                            assert(self.rooms@.last().room_clients@[0] == id);
                        }
                    }
                    assert(seq_member_of(self.rooms@, client_id, newroom.room_name@)) by {
                        assert(self.rooms@[rooms0.len() as int] == self.rooms@.last());
                    }
                    assert forall|n: Seq<char>| seq_has_room(self.rooms@, n) == (seq_has_room(
                        rooms0,
                        n,
                    ) || n == newroom.room_name@) by {
                        lemma_member_of_push(rooms0, self.rooms@.last(), client_id, n);
                    }
                    assert(final(self).wf()) by {
                        let rooms1 = self.rooms@;
                        assert forall|a: int|
                            0 <= a < rooms1.len() implies (#[trigger] rooms1[a]).wf()
                            && rooms1[a].room_clients@.len() >= 1 by {
                            if a < rooms0.len() {
                                assert(rooms1[a] == rooms0[a]);
                            }
                        }
                        assert forall|a: int, b: int| 0 <= a < b < rooms1.len() implies (
                        #[trigger] rooms1[a]).room_name@ != (#[trigger] rooms1[b]).room_name@ by {
                            if b < rooms0.len() {
                                assert(rooms1[a] == rooms0[a]);
                                assert(rooms1[b] == rooms0[b]);
                            } else {
                                assert(rooms1[a] == rooms0[a]);
                                assert(!seq_has_room(rooms0, newroom.room_name@));
                            }
                        }
                    }
                }
            },
        }
    }

    /// Removes `client_id` from the room named in `only` — or from every room
    /// when `only` is None — dropping each room that this leaves empty. No
    /// other membership changes.
    fn purge_member(&mut self, client_id: u64, only: Option<&String>)
        requires
            old(self).wf(),
        ensures
            final(self).wf(),
            forall|id: u64, n: Seq<char>|
                untouched_by_purge(id, n, client_id, purge_scope(only)) ==> final(self).member_of(
                    id,
                    n,
                ) == old(self).member_of(id, n),
            forall|n: Seq<char>|
                !untouched_by_purge(client_id, n, client_id, purge_scope(only)) ==> !final(self).member_of(client_id, n),
    {
        let ghost orig = old(self).rooms@;
        let ghost scope = purge_scope(only);
        let mut kept: Vec<Room> = Vec::new();
        let ghost mut k: int = 0;
        while self.rooms.len() > 0
            invariant
                old(self).wf(),
                orig == old(self).rooms@,
                0 <= k <= orig.len(),
                scope == purge_scope(only),
                self.rooms@ == orig.skip(k),
                forall|i: int|
                    0 <= i < kept@.len() ==> seq_has_room(
                        orig.take(k),
                        (#[trigger] kept@[i]).room_name@,
                    ),
                distinct_names(kept@),
                forall|i: int|
                    0 <= i < kept@.len() ==> (#[trigger] kept@[i]).wf()
                        && kept@[i].room_clients@.len() >= 1,
                forall|n: Seq<char>|
                    !untouched_by_purge(client_id, n, client_id, scope) ==> !seq_member_of(
                        kept@,
                        client_id,
                        n,
                    ),
                forall|id: u64, n: Seq<char>|
                    untouched_by_purge(id, n, client_id, scope) ==> seq_member_of(kept@, id, n)
                        == seq_member_of(orig.take(k), id, n),
            decreases self.rooms@.len(),
        {
            let mut room = self.rooms.remove(0);
            proof {
                assert(room == orig.skip(k)[0]);
                assert(orig.skip(k)[0] == orig[k]);
                assert(self.rooms@ =~= orig.skip(k + 1));
                assert(orig[k].wf() && orig[k].room_clients@.len() >= 1);
            }
            let affected = match only {
                Some(nm) => room.room_name.eq(nm),
                None => true,
            };
            let ghost members0 = room.room_clients@;
            if affected {
                vec_u64_remove(&mut room.room_clients, client_id);
            }
            let ghost kept0 = kept@;
            let ghost room1 = room;
            let keep = room.room_clients.len() > 0;
            if keep {
                kept.push(room);
            }
            proof {
                let name = orig[k].room_name@;
                assert(room1.room_name@ == name);
                assert(orig.take(k + 1) =~= orig.take(k).push(orig[k]));
                if !keep {
                    // only an affected room can empty: the table held no empty room
                    assert(affected);
                    // the emptied room's members were exactly the purged client
                    assert forall|y: u64| members0.contains(y) implies y == client_id by {
                        if y != client_id {
                            assert(room1.room_clients@.contains(y));
                        }
                    }
                }
                // names of kept rooms stay within the processed prefix
                assert forall|i: int| 0 <= i < kept@.len() implies seq_has_room(
                    orig.take(k + 1),
                    (#[trigger] kept@[i]).room_name@,
                ) by {
                    if i < kept0.len() {
                        assert(kept@[i] == kept0[i]);
                        let j = choose|j: int|
                            0 <= j < orig.take(k).len() && (#[trigger] orig.take(k)[j]).room_name@
                                == kept0[i].room_name@;
                        assert(orig.take(k + 1)[j] == orig.take(k)[j]);
                    } else {
                        assert(kept@[i] == room1);
                        assert(orig.take(k + 1)[k] == orig[k]);
                    }
                }
                // kept names stay pairwise distinct
                assert(distinct_names(kept@)) by {
                    assert forall|a: int, b: int| 0 <= a < b < kept@.len() implies (
                    #[trigger] kept@[a]).room_name@ != (#[trigger] kept@[b]).room_name@ by {
                        if b < kept0.len() {
                            assert(kept@[a] == kept0[a]);
                            assert(kept@[b] == kept0[b]);
                        } else if b == kept0.len() && keep {
                            assert(kept@[a] == kept0[a]);
                            assert(kept@[b] == room1);
                            let j = choose|j: int|
                                0 <= j < orig.take(k).len() && (#[trigger] orig.take(
                                    k,
                                )[j]).room_name@ == kept0[a].room_name@;
                            assert(orig[j] == orig.take(k)[j]);
                            assert(orig[j].room_name@ != orig[k].room_name@);
                        }
                    }
                }
                // each kept room is well-formed and non-empty
                assert forall|i: int| 0 <= i < kept@.len() implies (#[trigger] kept@[i]).wf()
                    && kept@[i].room_clients@.len() >= 1 by {
                    if i < kept0.len() {
                        assert(kept@[i] == kept0[i]);
                    } else {
                        assert(kept@[i] == room1);
                    }
                }
                // the purged client is absent from every kept room in scope
                assert forall|n: Seq<char>| !untouched_by_purge(client_id, n, client_id, scope)
                    implies !seq_member_of(kept@, client_id, n) by {
                    if keep {
                        lemma_member_of_push(kept0, room1, client_id, n);
                        if room1.room_name@ == n {
                            assert(affected);
                            assert(!room1.room_clients@.contains(client_id));
                        }
                    }
                }
                // all other membership is carried over exactly
                assert forall|id: u64, n: Seq<char>| untouched_by_purge(id, n, client_id, scope)
                    implies seq_member_of(
                    if keep {
                        kept0.push(room1)
                    } else {
                        kept0
                    },
                    id,
                    n,
                ) == seq_member_of(orig.take(k).push(orig[k]), id, n) by {
                    lemma_member_of_push(orig.take(k), orig[k], id, n);
                    if keep {
                        lemma_member_of_push(kept0, room1, id, n);
                        if id == client_id {
                            // in scope Some, this pair names another room
                            assert(scope matches Some(nm) && n != nm);
                            if orig[k].room_name@ == n {
                                assert(!affected);
                                assert(room1.room_clients@ == members0);
                            }
                        } else {
                            if orig[k].room_name@ == n {
                                assert(room1.room_clients@.contains(id) == members0.contains(id));
                            }
                        }
                    } else {
                        // dropped room: it held nobody but the purged client
                        if orig[k].room_name@ == n && members0.contains(id) {
                            assert(id == client_id);
                            assert(scope matches Some(nm) && n != nm);
                            assert(orig[k].room_name@ == nm_of(scope));
                            assert(false);
                        }
                    }
                }
                assert(kept@ == if keep {
                    kept0.push(room1)
                } else {
                    kept0
                });
                k = k + 1;
            }
        }
        proof {
            assert(orig.take(k) =~= orig);
        }
        self.rooms = kept;
    }

    /// Collects, in table order, the names of the rooms `client_id` is a
    /// member of.
    fn list_rooms(&self, client_id: u64) -> (r: Vec<String>)
        ensures
            r@.map_values(|s: String| s@) == names_of_member(self.rooms@, client_id),
    {
        let mut out: Vec<String> = Vec::new();
        let mut i: usize = 0;
        while i < self.rooms.len()
            invariant
                0 <= i <= self.rooms@.len(),
                out@.map_values(|s: String| s@) == names_of_member(
                    self.rooms@.take(i as int),
                    client_id,
                ),
            decreases self.rooms@.len() - i,
        {
            let ghost out0 = out@;
            let ghost prefix = self.rooms@.take(i as int);
            if vec_u64_contains(&self.rooms[i].room_clients, client_id) {
                out.push(self.rooms[i].room_name.clone());
            }
            proof {
                let prefix1 = self.rooms@.take(i + 1);
                assert(prefix1.drop_last() =~= prefix);
                assert(prefix1.last() == self.rooms@[i as int]);
                assert(out@.map_values(|s: String| s@) =~= names_of_member(prefix1, client_id));
            }
            i += 1;
        }
        proof {
            assert(self.rooms@.take(self.rooms@.len() as int) =~= self.rooms@);
        }
        out
    }

    /// Delivers a text payload to the named room's members: to every member
    /// except the sender, or to every member when `include_sender` is set. A
    /// missing room means no delivery at all; the table itself never changes.
    fn send_room_text(
        &self,
        clients: &mut Vec<Connection>,
        client_id: u64,
        room_name: &String,
        text: &str,
        include_sender: bool,
    )
        requires
            self.wf(),
        ensures
            !self.has_room(room_name@) ==> final(clients)@ == old(clients)@,
            self.has_room(room_name@) ==> delivered_text(
                old(clients)@,
                final(clients)@,
                if include_sender {
                    None
                } else {
                    Some(client_id)
                },
                Some(self.members_of(room_name@)),
                text@,
            ),
    {
        let found = self.find_room(room_name);
        match found {
            Some(i) => {
                proof {
                    let j = self.room_index(room_name@);
                    assert(0 <= j < self.rooms@.len() && self.rooms@[j].room_name@
                        == room_name@) by {
                        assert(self.rooms@[i as int].room_name@ == room_name@);
                    }
                    assert(j == i as int);
                }
                let except = if include_sender {
                    None
                } else {
                    Some(client_id)
                };
                fanout_text(clients, text, except, Some(&self.rooms[i].room_clients));
            },
            None => {},
        }
    }

    /// Delivers a binary payload to the named room's members, as
    /// `send_room_text` does a text payload.
    fn send_room_binary(
        &self,
        clients: &mut Vec<Connection>,
        client_id: u64,
        room_name: &String,
        bytes: &Vec<u8>,
        include_sender: bool,
    )
        requires
            self.wf(),
        ensures
            !self.has_room(room_name@) ==> final(clients)@ == old(clients)@,
            self.has_room(room_name@) ==> delivered_binary(
                old(clients)@,
                final(clients)@,
                if include_sender {
                    None
                } else {
                    Some(client_id)
                },
                Some(self.members_of(room_name@)),
                bytes@,
            ),
    {
        let found = self.find_room(room_name);
        match found {
            Some(i) => {
                proof {
                    let j = self.room_index(room_name@);
                    assert(0 <= j < self.rooms@.len() && self.rooms@[j].room_name@
                        == room_name@) by {
                        assert(self.rooms@[i as int].room_name@ == room_name@);
                    }
                    assert(j == i as int);
                }
                let except = if include_sender {
                    None
                } else {
                    Some(client_id)
                };
                fanout_binary(clients, bytes, except, Some(&self.rooms[i].room_clients));
            },
            None => {},
        }
    }

    /// The coordinator's step: consumes one event from the channel and
    /// performs the corresponding table mutation, room delivery, or query.
    ///
    /// Joins insert the member, creating the room when needed. Leaves remove
    /// the member and drop an emptied room. LeaveAll does so for every room
    /// at once: afterwards the client is a member of nowhere. The send events
    /// deliver to the room's members — skipping the sender unless the event
    /// is an emit — and a send to a missing room is dropped. ListRooms
    /// returns, in table order, the names of the rooms the client is in;
    /// the shell sends that reply on the client's reply channel. Events are
    /// consumed one at a time in channel order, so deliveries from earlier
    /// events reach every member's outbox before deliveries from later ones.
    pub fn process_event(&mut self, event: RoomEvents, clients: &mut Vec<Connection>) -> (reply:
        Option<Vec<String>>)
        requires
            old(self).wf(),
        ensures
            final(self).wf(),
            final(clients)@.len() == old(clients)@.len(),
            match event {
                RoomEvents::JoinRoom { client_id, room_name } => {
                    &&& final(self).member_of(client_id, room_name@)
                    &&& forall|id: u64, n: Seq<char>|
                        !(id == client_id && n == room_name@) ==> final(self).member_of(id, n)
                            == old(self).member_of(id, n)
                    &&& forall|n: Seq<char>|
                        final(self).has_room(n) == (old(self).has_room(n) || n == room_name@)
                    &&& final(clients)@ == old(clients)@
                    &&& reply is None
                },
                RoomEvents::TextMessage { client_id, room_name, text } => {
                    &&& *final(self) == *old(self)
                    &&& reply is None
                    &&& (!old(self).has_room(room_name@) ==> final(clients)@ == old(clients)@)
                    &&& (old(self).has_room(room_name@) ==> delivered_text(
                        old(clients)@,
                        final(clients)@,
                        Some(client_id),
                        Some(old(self).members_of(room_name@)),
                        text@,
                    ))
                },
                RoomEvents::EmitTextMessage { client_id, room_name, text } => {
                    &&& *final(self) == *old(self)
                    &&& reply is None
                    &&& (!old(self).has_room(room_name@) ==> final(clients)@ == old(clients)@)
                    &&& (old(self).has_room(room_name@) ==> delivered_text(
                        old(clients)@,
                        final(clients)@,
                        None,
                        Some(old(self).members_of(room_name@)),
                        text@,
                    ))
                },
                RoomEvents::BinaryMessage { client_id, room_name, bytes } => {
                    &&& *final(self) == *old(self)
                    &&& reply is None
                    &&& (!old(self).has_room(room_name@) ==> final(clients)@ == old(clients)@)
                    &&& (old(self).has_room(room_name@) ==> delivered_binary(
                        old(clients)@,
                        final(clients)@,
                        Some(client_id),
                        Some(old(self).members_of(room_name@)),
                        bytes@,
                    ))
                },
                RoomEvents::EmitBinaryMessage { client_id, room_name, bytes } => {
                    &&& *final(self) == *old(self)
                    &&& reply is None
                    &&& (!old(self).has_room(room_name@) ==> final(clients)@ == old(clients)@)
                    &&& (old(self).has_room(room_name@) ==> delivered_binary(
                        old(clients)@,
                        final(clients)@,
                        None,
                        Some(old(self).members_of(room_name@)),
                        bytes@,
                    ))
                },
                RoomEvents::LeaveRoom { client_id, room_name } => {
                    &&& !final(self).member_of(client_id, room_name@)
                    &&& forall|id: u64, n: Seq<char>|
                        !(id == client_id && n == room_name@) ==> final(self).member_of(id, n)
                            == old(self).member_of(id, n)
                    &&& final(clients)@ == old(clients)@
                    &&& reply is None
                },
                RoomEvents::LeaveAllRooms { client_id } => {
                    &&& forall|n: Seq<char>| !final(self).member_of(client_id, n)
                    &&& forall|id: u64, n: Seq<char>|
                        id != client_id ==> final(self).member_of(id, n) == old(self).member_of(
                            id,
                            n,
                        )
                    &&& final(clients)@ == old(clients)@
                    &&& reply is None
                },
                RoomEvents::ListRooms { client_id } => {
                    &&& *final(self) == *old(self)
                    &&& final(clients)@ == old(clients)@
                    &&& reply matches Some(names) && names@.map_values(|s: String| s@)
                        == names_of_member(old(self).rooms@, client_id)
                },
            },
    {
        match event {
            RoomEvents::JoinRoom { client_id, room_name } => {
                self.join(client_id, room_name);
                None
            },
            RoomEvents::TextMessage { client_id, room_name, text } => {
                self.send_room_text(clients, client_id, &room_name, text.as_str(), false);
                None
            },
            RoomEvents::EmitTextMessage { client_id, room_name, text } => {
                self.send_room_text(clients, client_id, &room_name, text.as_str(), true);
                None
            },
            RoomEvents::BinaryMessage { client_id, room_name, bytes } => {
                self.send_room_binary(clients, client_id, &room_name, &bytes, false);
                None
            },
            RoomEvents::EmitBinaryMessage { client_id, room_name, bytes } => {
                self.send_room_binary(clients, client_id, &room_name, &bytes, true);
                None
            },
            RoomEvents::LeaveRoom { client_id, room_name } => {
                self.purge_member(client_id, Some(&room_name));
                None
            },
            RoomEvents::LeaveAllRooms { client_id } => {
                self.purge_member(client_id, None);
                None
            },
            RoomEvents::ListRooms { client_id } => Some(self.list_rooms(client_id)),
        }
    }
}

/// Every room in a well-formed table has at least one member: the coordinator
/// drops a room at the very step that empties it, so the table never holds an
/// empty room.
pub proof fn lemma_rooms_nonempty(t: RoomTable)
    requires
        t.wf(),
    ensures
        forall|i: int|
            0 <= i < t.rooms@.len() ==> (#[trigger] t.rooms@[i]).room_clients@.len() >= 1,
{
}

/// Leaving all rooms is atomic: once a client is a member of no room — as
/// the coordinator ensures after a LeaveAll — a ListRooms query from that
/// client reports the empty sequence.
pub proof fn lemma_absent_client_lists_no_rooms(t: RoomTable, client_id: u64)
    requires
        forall|n: Seq<char>| !t.member_of(client_id, n),
    ensures
        names_of_member(t.rooms@, client_id) == Seq::<Seq<char>>::empty(),
{
    assert forall|n: Seq<char>| !seq_member_of(t.rooms@, client_id, n) by {
        assert(!t.member_of(client_id, n));
    }
    lemma_no_membership_no_names(t.rooms@, client_id);
}

/// Room delivery is FIFO: the coordinator processes events one at a time and
/// every delivery appends to a member's outbox, so when one send is processed
/// and then another, the member holds the first send's frame at a smaller
/// index than the second's.
///
/// `out0` is a member's outbox before the first send, `out1` after it, `out2`
/// after the second.
pub proof fn lemma_room_fifo(out0: Seq<Frame>, out1: Seq<Frame>, out2: Seq<Frame>)
    requires
        out1.len() == out0.len() + 1,
        out1.subrange(0, out0.len() as int) == out0,
        out2.len() == out1.len() + 1,
        out2.subrange(0, out1.len() as int) == out1,
    ensures
        out0.len() < out1.len() < out2.len(),
        out2[out0.len() as int] == out1.last(),
        out2[out1.len() as int] == out2.last(),
{
    assert(out2[out0.len() as int] == out2.subrange(0, out1.len() as int)[out0.len() as int]);
}

/// The name a scoped purge is confined to; meaningful only for a scoped one.
spec fn nm_of(scope: Option<Seq<char>>) -> Seq<char> {
    scope->Some_0
}

} // verus!
