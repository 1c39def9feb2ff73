//! The server: id allocation, the client registry, and connection
//! installation and teardown.
//!
//! [`Wynd`] models the process-wide server state. The accept loop itself —
//! binding, handshakes under their timeout, task spawning — lives in the
//! unverified shell; after each successful handshake the shell calls
//! [`Wynd::handle_connection`] to allocate the id and install the connection,
//! and on ingest-loop exit it calls [`Wynd::close_connection`], the close
//! hook: registry removal plus the LeaveAll event for the room coordinator.

use vstd::prelude::*;
use vstd::string::StrSliceExecFns;

use crate::conn::{ConnState, Connection, Frame};
use crate::handle::ConnectionHandle;
use crate::room::{RoomEvents, RoomTable};

verus! {

/// The id `x` belongs to some connection in the registry.
pub open spec fn conn_in_registry(cs: Seq<Connection>, x: u64) -> bool {
    exists|i: int| 0 <= i < cs.len() && (#[trigger] cs[i]).id == x
}

/// The process-wide server state: the id counter, the client registry — the
/// source of truth for "all currently connected clients" — and the room
/// table the coordinator owns.
pub struct Wynd {
    /// The next connection id to assign; ids are assigned in increasing
    /// order, so each is unique for the process lifetime.
    pub next_connection_id: u64,
    /// The client registry: one entry per live connection, in accept order.
    pub clients: Vec<Connection>,
    /// The room table, owned by the room coordinator task.
    pub rooms: RoomTable,
    /// Every id handed out so far, in issue order.
    pub issued: Ghost<Seq<u64>>,
}

impl Wynd {
    /// The server invariant.
    ///
    /// Ids: the record of issued ids holds position `i` at entry `i`, so
    /// issued ids are exactly `0 .. next_connection_id` and pairwise
    /// distinct. Registry: every entry carries an issued id, no id twice,
    /// and no entry is CLOSED — a connection is in the registry exactly
    /// while it is CONNECTING, OPEN, or CLOSING; the close transition
    /// removes it in the same step that marks it CLOSED. The room table is
    /// well-formed.
    pub open spec fn wf(self) -> bool {
        &&& self.issued@.len() == self.next_connection_id as int
        &&& forall|i: int| 0 <= i < self.issued@.len() ==> self.issued@[i] == i as u64
        &&& forall|i: int|
            0 <= i < self.clients@.len() ==> (#[trigger] self.clients@[i]).state
                != ConnState::CLOSED
        &&& forall|i: int|
            0 <= i < self.clients@.len() ==> (#[trigger] self.clients@[i]).id
                < self.next_connection_id
        &&& forall|i: int, j: int|
            0 <= i < j < self.clients@.len() ==> (#[trigger] self.clients@[i]).id != (
            #[trigger] self.clients@[j]).id
        &&& self.rooms.wf()
    }

    /// Creates a server with no connections, no rooms, and the id counter at
    /// zero.
    pub fn new() -> (r: Self)
        ensures
            r.wf(),
            r.next_connection_id == 0,
            r.clients@ == Seq::<Connection>::empty(),
            r.rooms.rooms@.len() == 0,
            r.issued@ == Seq::<u64>::empty(),
    {
        Wynd {
            next_connection_id: 0,
            clients: Vec::new(),
            rooms: RoomTable::new(),
            issued: Ghost(Seq::empty()),
        }
    }

    /// Installs a connection whose handshake succeeded: allocates the next
    /// id — fresh, never issued before — adds the CONNECTING connection to
    /// the registry, and returns the id with the handle that shares it.
    pub fn handle_connection(&mut self, addr: String) -> (r: (u64, ConnectionHandle))
        requires
            old(self).wf(),
            old(self).next_connection_id < u64::MAX,
        ensures
            final(self).wf(),
            r.0 == old(self).next_connection_id,
            !old(self).issued@.contains(r.0),
            final(self).issued@ == old(self).issued@.push(r.0),
            final(self).next_connection_id == r.0 + 1,
            final(self).rooms == old(self).rooms,
            final(self).clients@.len() == old(self).clients@.len() + 1,
            final(self).clients@.subrange(0, old(self).clients@.len() as int) == old(
                self,
            ).clients@,
            final(self).clients@.last().id == r.0,
            final(self).clients@.last().addr@ == addr@,
            final(self).clients@.last().state == ConnState::CONNECTING,
            final(self).clients@.last().outbox@ == Seq::<Frame>::empty(),
            r.1.id == r.0,
            r.1.addr@ == addr@,
            r.1.broadcast.current_client_id == r.0,
    {
        let id = self.next_connection_id;
        self.next_connection_id = id + 1;
        proof {
            if self.issued@.contains(id) {
                let i = choose|i: int| 0 <= i < self.issued@.len() && self.issued@[i] == id;
                assert(self.issued@[i] == i as u64);
                assert(false);
            }
        }
        let handle = ConnectionHandle::new(id, addr.clone());
        let conn = Connection::new(id, addr);
        self.clients.push(conn);
        proof {
            self.issued@ = self.issued@.push(id);
            assert(final(self).clients@.subrange(0, old(self).clients@.len() as int) =~= old(
                self,
            ).clients@);
        }
        (id, handle)
    }

    /// The close hook, run once when a connection's ingest loop exits: the
    /// close transition. Removes the entry from the registry and marks it
    /// CLOSED in the same step — so the registry never holds a CLOSED
    /// connection — and yields the LeaveAll event the shell must enqueue to
    /// the room coordinator. Every other connection is untouched.
    pub fn close_connection(&mut self, id: u64) -> (r: (Option<Connection>, RoomEvents))
        requires
            old(self).wf(),
        ensures
            final(self).wf(),
            final(self).next_connection_id == old(self).next_connection_id,
            final(self).issued == old(self).issued,
            final(self).rooms == old(self).rooms,
            r.1 matches RoomEvents::LeaveAllRooms { client_id } && client_id == id,
            !conn_in_registry(final(self).clients@, id),
            match r.0 {
                Some(c) => {
                    &&& c.id == id
                    &&& c.state == ConnState::CLOSED
                    &&& exists|idx: int|
                        {
                            &&& 0 <= idx < old(self).clients@.len()
                            &&& (#[trigger] old(self).clients@[idx]).id == id
                            &&& final(self).clients@ == old(self).clients@.remove(idx)
                            &&& c.addr == old(self).clients@[idx].addr
                            &&& c.outbox == old(self).clients@[idx].outbox
                        }
                },
                None => {
                    &&& !conn_in_registry(old(self).clients@, id)
                    &&& final(self).clients@ == old(self).clients@
                },
            },
    {
        let event = RoomEvents::LeaveAllRooms { client_id: id };
        let mut i: usize = 0;
        while i < self.clients.len()
            invariant
                old(self).wf(),
                *self == *old(self),
                event == (RoomEvents::LeaveAllRooms { client_id: id }),
                0 <= i <= self.clients@.len(),
                forall|j: int| 0 <= j < i ==> (#[trigger] self.clients@[j]).id != id,
            decreases self.clients@.len() - i,
        {
            if self.clients[i].id == id {
                let mut conn = self.clients.remove(i);
                conn.state = ConnState::CLOSED;
                proof {
                    let cs0 = old(self).clients@;
                    let cs1 = self.clients@;
                    cs0.remove_ensures(i as int);
                    if conn_in_registry(cs1, id) {
                        let j = choose|j: int| 0 <= j < cs1.len() && (#[trigger] cs1[j]).id == id;
                        if j < i {
                            assert(cs1[j] == cs0[j]);
                        } else {
                            assert(cs1[j] == cs0[j + 1]);
                            assert(cs0[i as int].id != cs0[j + 1].id);
                        }
                        assert(false);
                    }
                    assert(final(self).wf()) by {
                        assert forall|a: int|
                            0 <= a < cs1.len() implies (#[trigger] cs1[a]).state
                            != ConnState::CLOSED && cs1[a].id < self.next_connection_id by {
                            if a < i {
                                assert(cs1[a] == cs0[a]);
                            } else {
                                assert(cs1[a] == cs0[a + 1]);
                            }
                        }
                        assert forall|a: int, b: int| 0 <= a < b < cs1.len() implies (
                        #[trigger] cs1[a]).id != (#[trigger] cs1[b]).id by {
                            let a0: int = if a < i {
                                a
                            } else {
                                a + 1
                            };
                            let b0: int = if b < i {
                                b
                            } else {
                                b + 1
                            };
                            assert(cs1[a] == cs0[a0]);
                            assert(cs1[b] == cs0[b0]);
                            assert(cs0[a0].id != cs0[b0].id);
                        }
                    }
                }
                return (Some(conn), event);
            }
            i += 1;
        }
        proof {
            if conn_in_registry(self.clients@, id) {
                let j = choose|j: int|
                    0 <= j < self.clients@.len() && (#[trigger] self.clients@[j]).id == id;
                assert(false);
            }
        }
        (None, event)
    }

    /// The transition CONNECTING -> OPEN for the registry entry carrying
    /// `id`, taken just before the user's open handler runs. Every other
    /// connection — and an entry not currently CONNECTING — is untouched.
    pub fn open_connection(&mut self, id: u64)
        requires
            old(self).wf(),
        ensures
            final(self).wf(),
            final(self).next_connection_id == old(self).next_connection_id,
            final(self).issued == old(self).issued,
            final(self).rooms == old(self).rooms,
            final(self).clients@.len() == old(self).clients@.len(),
            forall|i: int|
                0 <= i < old(self).clients@.len() ==> if old(self).clients@[i].id == id
                    && old(self).clients@[i].state == ConnState::CONNECTING {
                    &&& (#[trigger] final(self).clients@[i]).id == old(self).clients@[i].id
                    &&& final(self).clients@[i].addr == old(self).clients@[i].addr
                    &&& final(self).clients@[i].outbox == old(self).clients@[i].outbox
                    &&& final(self).clients@[i].state == ConnState::OPEN
                } else {
                    final(self).clients@[i] == old(self).clients@[i]
                },
    {
        let n = self.clients.len();
        let mut i: usize = 0;
        while i < n
            invariant
                old(self).wf(),
                n == old(self).clients@.len(),
                self.next_connection_id == old(self).next_connection_id,
                self.issued == old(self).issued,
                self.rooms == old(self).rooms,
                0 <= i <= n,
                self.clients@.len() == n,
                forall|j: int|
                    0 <= j < i ==> if old(self).clients@[j].id == id && old(self).clients@[j].state
                        == ConnState::CONNECTING {
                        (#[trigger] self.clients@[j]).id == old(self).clients@[j].id
                            && self.clients@[j].addr == old(self).clients@[j].addr
                            && self.clients@[j].outbox == old(self).clients@[j].outbox
                            && self.clients@[j].state == ConnState::OPEN
                    } else {
                        self.clients@[j] == old(self).clients@[j]
                    },
                forall|j: int| i <= j < n ==> #[trigger] self.clients@[j] == old(self).clients@[j],
            decreases n - i,
        {
            if self.clients[i].id == id && matches!(self.clients[i].state, ConnState::CONNECTING) {
                let c = &mut self.clients[i];
                c.state = ConnState::OPEN;
            }
            i += 1;
        }
        proof {
            assert(final(self).wf()) by {
                assert forall|a: int|
                    0 <= a < self.clients@.len() implies (#[trigger] self.clients@[a]).state
                    != ConnState::CLOSED && self.clients@[a].id < self.next_connection_id by {
                    assert(old(self).clients@[a].state != ConnState::CLOSED);
                }
                assert forall|a: int, b: int| 0 <= a < b < self.clients@.len() implies (
                #[trigger] self.clients@[a]).id != (#[trigger] self.clients@[b]).id by {
                    assert(self.clients@[a].id == old(self).clients@[a].id);
                    assert(self.clients@[b].id == old(self).clients@[b].id);
                }
            }
        }
    }
}

/// Connection ids are pairwise distinct for the process lifetime: each issued
/// id equals its position in the issue order, so no two issues agree.
pub proof fn lemma_issued_ids_pairwise_distinct(w: Wynd)
    requires
        w.wf(),
    ensures
        forall|i: int, j: int| 0 <= i < j < w.issued@.len() ==> w.issued@[i] != w.issued@[j],
{
}

/// Registry membership matches lifecycle state: every registry entry is
/// CONNECTING, OPEN, or CLOSING — never CLOSED. A connection enters at
/// CONNECTING and the close transition removes it in the step that marks it
/// CLOSED, so a connection is in the registry exactly while its state is one
/// of the three live ones.
pub proof fn lemma_registry_entries_never_closed(w: Wynd)
    requires
        w.wf(),
    ensures
        forall|i: int|
            0 <= i < w.clients@.len() ==> (#[trigger] w.clients@[i]).state != ConnState::CLOSED,
{
}

/// The word "websocket", case-insensitively: what an HTTP Upgrade header must
/// name for a WebSocket handshake.
pub open spec fn is_websocket_word(s: Seq<char>) -> bool {
    &&& s.len() == 9
    &&& (s[0] == 'w' || s[0] == 'W')
    &&& (s[1] == 'e' || s[1] == 'E')
    &&& (s[2] == 'b' || s[2] == 'B')
    &&& (s[3] == 's' || s[3] == 'S')
    &&& (s[4] == 'o' || s[4] == 'O')
    &&& (s[5] == 'c' || s[5] == 'C')
    &&& (s[6] == 'k' || s[6] == 'K')
    &&& (s[7] == 'e' || s[7] == 'E')
    &&& (s[8] == 't' || s[8] == 'T')
}

/// True when `h` spells "websocket" in any ASCII case mix.
fn header_names_websocket(h: &str) -> (r: bool)
    ensures
        r == is_websocket_word(h@),
{
    let n = h.unicode_len();
    if n != 9 {
        return false;
    }
    let c0 = h.get_char(0);
    let c1 = h.get_char(1);
    let c2 = h.get_char(2);
    let c3 = h.get_char(3);
    let c4 = h.get_char(4);
    let c5 = h.get_char(5);
    let c6 = h.get_char(6);
    let c7 = h.get_char(7);
    let c8 = h.get_char(8);
    (c0 == 'w' || c0 == 'W') && (c1 == 'e' || c1 == 'E') && (c2 == 'b' || c2 == 'B') && (c3 == 's'
        || c3 == 'S') && (c4 == 'o' || c4 == 'O') && (c5 == 'c' || c5 == 'C') && (c6 == 'k' || c6
        == 'K') && (c7 == 'e' || c7 == 'E') && (c8 == 't' || c8 == 'T')
}

/// Decides whether an HTTP request is a WebSocket upgrade request: its
/// Upgrade header must name "websocket" (ASCII case-insensitively) and the
/// Sec-WebSocket-Key and Sec-WebSocket-Version headers must be present.
/// Anything else is answered with HTTP 400 by the shell.
pub fn is_websocket_upgrade_request(upgrade: Option<&str>, has_key: bool, has_version: bool) -> (r:
    bool)
    ensures
        r == ((upgrade matches Some(h) && is_websocket_word(h@)) && has_key && has_version),
{
    let upgrade_ok = match upgrade {
        Some(h) => header_names_websocket(h),
        None => false,
    };
    upgrade_ok && has_key && has_version
}

} // verus!
