//! Connection handles and broadcast fan-out.
//!
//! A [`ConnectionHandle`] is the capability handed to user callbacks for
//! acting on one connection: sending, closing, and building room requests.
//! Its [`Broadcaster`] delivers a message to every client in a registry
//! snapshot, either excluding the connection the handle was reached through
//! (`text`, `binary`) or including it (`emit_text`, `emit_binary`).

use vstd::prelude::*;
use vstd::string::StringExecFns;

use crate::conn::{
    outbox_appended_binary, outbox_appended_text, ConnState, Connection, Frame,
};
use crate::room::{RoomEvents, RoomMethods};
use crate::types::WyndError;

verus! {

/// True when `x` occurs in `v`.
pub fn vec_u64_contains(v: &Vec<u64>, x: u64) -> (r: bool)
    ensures
        r == v@.contains(x),
{
    let mut i: usize = 0;
    while i < v.len()
        invariant
            0 <= i <= v@.len(),
            forall|j: int| 0 <= j < i ==> v@[j] != x,
        decreases v@.len() - i,
    {
        if v[i] == x {
            return true;
        }
        i += 1;
    }
    false
}

/// Whether a fan-out with exclusion `except` and membership filter `members`
/// delivers to connection `c`: the connection is not closed, is not the
/// excluded sender, and is a member where a membership list applies.
pub open spec fn is_recipient(c: Connection, except: Option<u64>, members: Option<Seq<u64>>) -> bool {
    &&& c.state != ConnState::CLOSED
    &&& match except {
        Some(e) => c.id != e,
        None => true,
    }
    &&& match members {
        Some(m) => m.contains(c.id),
        None => true,
    }
}

/// The membership filter as a spec value.
pub open spec fn members_view(members: Option<&Vec<u64>>) -> Option<Seq<u64>> {
    match members {
        Some(m) => Some(m@),
        None => None,
    }
}

/// One text fan-out step: every recipient among `cs0` (per [`is_recipient`])
/// gained exactly one text frame carrying `msg`, and every other connection
/// is untouched.
pub open spec fn delivered_text(
    cs0: Seq<Connection>,
    cs1: Seq<Connection>,
    except: Option<u64>,
    members: Option<Seq<u64>>,
    msg: Seq<char>,
) -> bool {
    &&& cs1.len() == cs0.len()
    &&& forall|i: int|
        0 <= i < cs0.len() ==> if is_recipient(cs0[i], except, members) {
            outbox_appended_text(cs0[i], #[trigger] cs1[i], msg)
        } else {
            cs1[i] == cs0[i]
        }
}

/// One binary fan-out step, as [`delivered_text`] with a binary frame.
pub open spec fn delivered_binary(
    cs0: Seq<Connection>,
    cs1: Seq<Connection>,
    except: Option<u64>,
    members: Option<Seq<u64>>,
    bytes: Seq<u8>,
) -> bool {
    &&& cs1.len() == cs0.len()
    &&& forall|i: int|
        0 <= i < cs0.len() ==> if is_recipient(cs0[i], except, members) {
            outbox_appended_binary(cs0[i], #[trigger] cs1[i], bytes)
        } else {
            cs1[i] == cs0[i]
        }
}

/// Delivers one text frame to every recipient among `clients`.
///
/// A recipient is every connection that is not closed, is not the excluded
/// sender, and — when a membership list is given — appears in it. Every
/// recipient's outbox gains exactly one text frame carrying `msg`; every
/// other connection is untouched. Delivery is best-effort: a closed
/// connection is skipped, never an error.
pub(crate) fn fanout_text(
    clients: &mut Vec<Connection>,
    msg: &str,
    except: Option<u64>,
    members: Option<&Vec<u64>>,
)
    ensures
        delivered_text(old(clients)@, final(clients)@, except, members_view(members), msg@),
{
    let n = clients.len();
    let mut i: usize = 0;
    while i < n
        invariant
            n == old(clients)@.len(),
            0 <= i <= n,
            clients@.len() == n,
            forall|j: int|
                0 <= j < i ==> if is_recipient(old(clients)@[j], except, members_view(members)) {
                    outbox_appended_text(old(clients)@[j], #[trigger] clients@[j], msg@)
                } else {
                    clients@[j] == old(clients)@[j]
                },
            forall|j: int| i <= j < n ==> #[trigger] clients@[j] == old(clients)@[j],
        decreases n - i,
    {
        let excluded = match except {
            Some(e) => clients[i].id == e,
            None => false,
        };
        let member_ok = match members {
            Some(m) => vec_u64_contains(m, clients[i].id),
            None => true,
        };
        let closed = matches!(clients[i].state, ConnState::CLOSED);
        if !excluded && member_ok && !closed {
            let ghost before = clients@;
            let c = &mut clients[i];
            c.outbox.push(Frame::Text(String::from_str(msg)));
            proof {
                assert(clients@[i as int].outbox@.subrange(
                    0,
                    before[i as int].outbox@.len() as int,
                ) =~= before[i as int].outbox@);
            }
        }
        i += 1;
    }
}

/// Delivers one binary frame to every recipient among `clients`; the
/// recipient rule and the untouched-others guarantee are those of
/// [`fanout_text`].
pub(crate) fn fanout_binary(
    clients: &mut Vec<Connection>,
    bytes: &Vec<u8>,
    except: Option<u64>,
    members: Option<&Vec<u64>>,
)
    ensures
        delivered_binary(old(clients)@, final(clients)@, except, members_view(members), bytes@),
{
    let n = clients.len();
    let mut i: usize = 0;
    while i < n
        invariant
            n == old(clients)@.len(),
            0 <= i <= n,
            clients@.len() == n,
            forall|j: int|
                0 <= j < i ==> if is_recipient(old(clients)@[j], except, members_view(members)) {
                    outbox_appended_binary(old(clients)@[j], #[trigger] clients@[j], bytes@)
                } else {
                    clients@[j] == old(clients)@[j]
                },
            forall|j: int| i <= j < n ==> #[trigger] clients@[j] == old(clients)@[j],
        decreases n - i,
    {
        let excluded = match except {
            Some(e) => clients[i].id == e,
            None => false,
        };
        let member_ok = match members {
            Some(m) => vec_u64_contains(m, clients[i].id),
            None => true,
        };
        let closed = matches!(clients[i].state, ConnState::CLOSED);
        if !excluded && member_ok && !closed {
            let ghost before = clients@;
            let c = &mut clients[i];
            c.outbox.push(Frame::Binary(bytes.clone()));
            proof {
                assert(clients@[i as int].outbox@.subrange(
                    0,
                    before[i as int].outbox@.len() as int,
                ) =~= before[i as int].outbox@);
            }
        }
        i += 1;
    }
}

/// Delivery to every client in a registry snapshot, bound to the id of the
/// connection the handle was reached through.
pub struct Broadcaster {
    /// The id whose handle this broadcaster belongs to; `text` and `binary`
    /// exclude it, `emit_text` and `emit_binary` include it.
    pub current_client_id: u64,
}

impl Clone for Broadcaster {
    /// Cloning keeps the bound id: a clone still excludes the original id.
    fn clone(&self) -> (r: Self)
        ensures
            r == *self,
    {
        Broadcaster { current_client_id: self.current_client_id }
    }
}

impl Broadcaster {
    /// Delivers `text` to every connected client in the snapshot except the
    /// one this broadcaster is bound to.
    pub fn text(&self, clients: &mut Vec<Connection>, text: &str)
        ensures
            final(clients)@.len() == old(clients)@.len(),
            forall|i: int|
                0 <= i < old(clients)@.len() ==> if old(clients)@[i].id != self.current_client_id
                    && old(clients)@[i].state != ConnState::CLOSED {
                    outbox_appended_text(old(clients)@[i], #[trigger] final(clients)@[i], text@)
                } else {
                    final(clients)@[i] == old(clients)@[i]
                },
    {
        fanout_text(clients, text, Some(self.current_client_id), None);
    }

    /// Delivers `text` to every connected client in the snapshot, the bound
    /// connection included.
    pub fn emit_text(&self, clients: &mut Vec<Connection>, text: &str)
        ensures
            final(clients)@.len() == old(clients)@.len(),
            forall|i: int|
                0 <= i < old(clients)@.len() ==> if old(clients)@[i].state != ConnState::CLOSED {
                    outbox_appended_text(old(clients)@[i], #[trigger] final(clients)@[i], text@)
                } else {
                    final(clients)@[i] == old(clients)@[i]
                },
    {
        fanout_text(clients, text, None, None);
    }

    /// Delivers `bytes` to every connected client in the snapshot except the
    /// one this broadcaster is bound to.
    pub fn binary(&self, clients: &mut Vec<Connection>, bytes: &Vec<u8>)
        ensures
            final(clients)@.len() == old(clients)@.len(),
            forall|i: int|
                0 <= i < old(clients)@.len() ==> if old(clients)@[i].id != self.current_client_id
                    && old(clients)@[i].state != ConnState::CLOSED {
                    outbox_appended_binary(old(clients)@[i], #[trigger] final(clients)@[i], bytes@)
                } else {
                    final(clients)@[i] == old(clients)@[i]
                },
    {
        fanout_binary(clients, bytes, Some(self.current_client_id), None);
    }

    /// Delivers `bytes` to every connected client in the snapshot, the bound
    /// connection included.
    pub fn emit_binary(&self, clients: &mut Vec<Connection>, bytes: &Vec<u8>)
        ensures
            final(clients)@.len() == old(clients)@.len(),
            forall|i: int|
                0 <= i < old(clients)@.len() ==> if old(clients)@[i].state != ConnState::CLOSED {
                    outbox_appended_binary(old(clients)@[i], #[trigger] final(clients)@[i], bytes@)
                } else {
                    final(clients)@[i] == old(clients)@[i]
                },
    {
        fanout_binary(clients, bytes, None, None);
    }
}

/// The capability for acting on one connection from user callbacks: identity,
/// send and close operations on the shared connection state, the broadcaster,
/// and constructors for room requests.
///
/// Handles are freely clonable; every clone acts on the same connection.
pub struct ConnectionHandle {
    /// Unique identifier of the connection this handle belongs to.
    pub id: u64,
    /// The remote address of the connection, as text.
    pub addr: String,
    /// Broadcaster bound to this handle's connection id.
    pub broadcast: Broadcaster,
}

impl Clone for ConnectionHandle {
    /// Cloning shares the underlying connection: the clone carries the same
    /// id, address, and broadcaster binding.
    fn clone(&self) -> (r: Self)
        ensures
            r.id == self.id,
            r.addr@ == self.addr@,
            r.broadcast == self.broadcast,
    {
        ConnectionHandle {
            id: self.id,
            addr: self.addr.clone(),
            broadcast: self.broadcast.clone(),
        }
    }
}

impl ConnectionHandle {
    /// Creates the handle for a connection; its broadcaster is bound to the
    /// same id.
    pub fn new(id: u64, addr: String) -> (r: Self)
        ensures
            r.id == id,
            r.addr@ == addr@,
            r.broadcast.current_client_id == id,
    {
        ConnectionHandle { id, addr, broadcast: Broadcaster { current_client_id: id } }
    }

    /// The unique identifier of the connection this handle belongs to.
    pub fn id(&self) -> (r: u64)
        ensures
            r == self.id,
    {
        self.id
    }

    /// The remote address of the connection, as text.
    pub fn addr(&self) -> (r: &str)
        ensures
            r@ == self.addr@,
    {
        self.addr.as_str()
    }

    /// The current lifecycle state of the shared connection.
    pub fn state(&self, conn: &Connection) -> (r: ConnState)
        requires
            conn.id == self.id,
        ensures
            r == conn.state,
    {
        conn.state()
    }

    /// Sends one text frame on the shared connection.
    ///
    /// Succeeds on every connection that is not CLOSED, appending exactly one
    /// complete text frame to the writer; on a CLOSED connection it fails
    /// with a connection-closed error and changes nothing. It never panics.
    pub fn send_text(&self, conn: &mut Connection, text: &str) -> (r: Result<(), WyndError>)
        requires
            old(conn).id == self.id,
        ensures
            old(conn).state != ConnState::CLOSED ==> r is Ok && outbox_appended_text(
                *old(conn),
                *final(conn),
                text@,
            ),
            old(conn).state == ConnState::CLOSED ==> *final(conn) == *old(conn) && (
            r matches Err(e) && e.inner@ == "connection closed"@),
    {
        if matches!(conn.state, ConnState::CLOSED) {
            Err(WyndError::new(String::from_str("connection closed")))
        } else {
            let ghost before = conn.outbox@;
            conn.outbox.push(Frame::Text(String::from_str(text)));
            proof {
                assert(conn.outbox@.subrange(0, before.len() as int) =~= before);
            }
            Ok(())
        }
    }

    /// Sends one binary frame on the shared connection; success and failure
    /// are as for `send_text`.
    pub fn send_binary(&self, conn: &mut Connection, data: Vec<u8>) -> (r: Result<(), WyndError>)
        requires
            old(conn).id == self.id,
        ensures
            old(conn).state != ConnState::CLOSED ==> r is Ok && outbox_appended_binary(
                *old(conn),
                *final(conn),
                data@,
            ),
            old(conn).state == ConnState::CLOSED ==> *final(conn) == *old(conn) && (
            r matches Err(e) && e.inner@ == "connection closed"@),
    {
        if matches!(conn.state, ConnState::CLOSED) {
            Err(WyndError::new(String::from_str("connection closed")))
        } else {
            let ghost before = conn.outbox@;
            conn.outbox.push(Frame::Binary(data));
            proof {
                assert(conn.outbox@.subrange(0, before.len() as int) =~= before);
            }
            Ok(())
        }
    }

    /// Initiates a graceful close: moves the connection to CLOSING, then
    /// writes one close frame. On a CLOSED connection it fails with a
    /// connection-closed error and changes nothing; the state never retreats.
    pub fn close(&self, conn: &mut Connection) -> (r: Result<(), WyndError>)
        requires
            old(conn).id == self.id,
        ensures
            old(conn).state.rank() <= final(conn).state.rank(),
            old(conn).state != ConnState::CLOSED ==> {
                &&& r is Ok
                &&& final(conn).id == old(conn).id && final(conn).addr == old(conn).addr
                &&& final(conn).state == ConnState::CLOSING
                &&& final(conn).outbox@.len() == old(conn).outbox@.len() + 1
                &&& final(conn).outbox@.subrange(0, old(conn).outbox@.len() as int) == old(
                    conn,
                ).outbox@
                &&& final(conn).outbox@.last() matches Frame::Close(body) && body is None
            },
            old(conn).state == ConnState::CLOSED ==> *final(conn) == *old(conn) && (
            r matches Err(e) && e.inner@ == "connection closed"@),
    {
        if matches!(conn.state, ConnState::CLOSED) {
            Err(WyndError::new(String::from_str("connection closed")))
        } else {
            conn.state = ConnState::CLOSING;
            let ghost before = conn.outbox@;
            conn.outbox.push(Frame::Close(None));
            proof {
                assert(conn.outbox@.subrange(0, before.len() as int) =~= before);
            }
            Ok(())
        }
    }

    /// Builds the request to join a room; the shell enqueues it to the room
    /// coordinator.
    pub fn join(&self, room: &str) -> (r: RoomEvents)
        ensures
            r matches RoomEvents::JoinRoom { client_id, room_name } && client_id == self.id
                && room_name@ == room@,
    {
        RoomEvents::JoinRoom { client_id: self.id, room_name: String::from_str(room) }
    }

    /// Builds the request to leave a room; the shell enqueues it to the room
    /// coordinator.
    pub fn leave(&self, room: &str) -> (r: RoomEvents)
        ensures
            r matches RoomEvents::LeaveRoom { client_id, room_name } && client_id == self.id
                && room_name@ == room@,
    {
        RoomEvents::LeaveRoom { client_id: self.id, room_name: String::from_str(room) }
    }

    /// Builds the request to leave every room this connection has joined;
    /// the shell enqueues it to the room coordinator.
    pub fn leave_all_rooms(&self) -> (r: RoomEvents)
        ensures
            r matches RoomEvents::LeaveAllRooms { client_id } && client_id == self.id,
    {
        RoomEvents::LeaveAllRooms { client_id: self.id }
    }

    /// Builds the query for the rooms this connection is a member of; the
    /// shell enqueues it and awaits the name list on this connection's reply
    /// channel.
    pub fn joined_rooms(&self) -> (r: RoomEvents)
        ensures
            r matches RoomEvents::ListRooms { client_id } && client_id == self.id,
    {
        RoomEvents::ListRooms { client_id: self.id }
    }

    /// A sender bound to a specific room, for room-wide delivery from this
    /// connection.
    pub fn to(&self, room_name: &str) -> (r: RoomMethods)
        ensures
            r.id == self.id,
            r.room_name@ == room_name@,
    {
        RoomMethods { room_name: String::from_str(room_name), id: self.id }
    }
}

} // verus!
