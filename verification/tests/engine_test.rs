use wynd::conn::{CloseFrame, ConnState, Connection, Frame, IngestAction, WebSocketConn};
use wynd::handle::ConnectionHandle;
use wynd::wynd::{is_websocket_upgrade_request, Wynd};

fn text_frames(conn: &Connection) -> Vec<String> {
    let mut out = Vec::new();
    for f in conn.outbox.iter() {
        if let Frame::Text(t) = f {
            out.push(t.clone());
        }
    }
    out
}

#[test]
fn test_connection_creation() {
    let connection = Connection::new(42, "127.0.0.1:8080".to_string());

    assert_eq!(connection.id(), 42);
    assert_eq!(connection.addr(), "127.0.0.1:8080");
    assert!(matches!(connection.state(), ConnState::CONNECTING));
    assert!(connection.outbox.is_empty());
}

#[test]
fn test_connection_handle_creation() {
    let handle = ConnectionHandle::new(123, "127.0.0.1:8080".to_string());

    assert_eq!(handle.id(), 123);
    assert_eq!(handle.addr(), "127.0.0.1:8080");
    assert_eq!(handle.broadcast.current_client_id, 123);
}

#[test]
fn test_connection_id_counter() {
    let mut wynd = Wynd::new();

    assert_eq!(wynd.next_connection_id, 0);

    let (id1, _) = wynd.handle_connection("127.0.0.1:5001".to_string());
    let (id2, _) = wynd.handle_connection("127.0.0.1:5002".to_string());
    let (id3, _) = wynd.handle_connection("127.0.0.1:5003".to_string());

    assert_eq!(id1, 0);
    assert_eq!(id2, 1);
    assert_eq!(id3, 2);
    assert_eq!(wynd.next_connection_id, 3);
}

#[test]
fn test_open_transition() {
    let mut wynd = Wynd::new();
    let (id, _handle) = wynd.handle_connection("127.0.0.1:5004".to_string());
    assert!(matches!(wynd.clients[0].state(), ConnState::CONNECTING));
    wynd.open_connection(id);
    assert!(matches!(wynd.clients[0].state(), ConnState::OPEN));
}

#[test]
fn test_echo() {
    let mut wynd = Wynd::new();
    let (id, handle) = wynd.handle_connection("127.0.0.1:6001".to_string());
    wynd.open_connection(id);

    let conn = &mut wynd.clients[0];
    let step = conn.ingest_frame(Frame::Text("hello".to_string()));
    assert!(!step.exit);
    let msg = match step.action {
        IngestAction::DispatchText(e) => e.data,
        _ => panic!("expected a text dispatch"),
    };
    handle.send_text(conn, &format!("Echo: {}", msg)).unwrap();

    assert_eq!(text_frames(conn), vec!["Echo: hello".to_string()]);
}

#[test]
fn test_broadcast_exclude_self() {
    let mut wynd = Wynd::new();
    let (a, ha) = wynd.handle_connection("127.0.0.1:6002".to_string());
    let (b, _hb) = wynd.handle_connection("127.0.0.1:6003".to_string());
    let (c, _hc) = wynd.handle_connection("127.0.0.1:6004".to_string());
    wynd.open_connection(a);
    wynd.open_connection(b);
    wynd.open_connection(c);

    ha.broadcast.text(&mut wynd.clients, "x");

    assert!(text_frames(&wynd.clients[0]).is_empty());
    assert_eq!(text_frames(&wynd.clients[1]), vec!["x".to_string()]);
    assert_eq!(text_frames(&wynd.clients[2]), vec!["x".to_string()]);
}

#[test]
fn test_broadcast_clone_still_excludes_origin() {
    let mut wynd = Wynd::new();
    let (a, ha) = wynd.handle_connection("127.0.0.1:6005".to_string());
    let (b, _hb) = wynd.handle_connection("127.0.0.1:6006".to_string());
    wynd.open_connection(a);
    wynd.open_connection(b);

    let clone = ha.clone();
    clone.broadcast.text(&mut wynd.clients, "from clone");

    assert!(text_frames(&wynd.clients[0]).is_empty());
    assert_eq!(text_frames(&wynd.clients[1]), vec!["from clone".to_string()]);
}

#[test]
fn test_emit_include_all() {
    let mut wynd = Wynd::new();
    let (a, ha) = wynd.handle_connection("127.0.0.1:6007".to_string());
    let (b, _hb) = wynd.handle_connection("127.0.0.1:6008".to_string());
    let (c, _hc) = wynd.handle_connection("127.0.0.1:6009".to_string());
    wynd.open_connection(a);
    wynd.open_connection(b);
    wynd.open_connection(c);

    ha.broadcast.emit_text(&mut wynd.clients, "x");

    assert_eq!(text_frames(&wynd.clients[0]), vec!["x".to_string()]);
    assert_eq!(text_frames(&wynd.clients[1]), vec!["x".to_string()]);
    assert_eq!(text_frames(&wynd.clients[2]), vec!["x".to_string()]);
}

#[test]
fn test_broadcast_binary_exclude_self() {
    let mut wynd = Wynd::new();
    let (a, ha) = wynd.handle_connection("127.0.0.1:6010".to_string());
    let (b, _hb) = wynd.handle_connection("127.0.0.1:6011".to_string());
    wynd.open_connection(a);
    wynd.open_connection(b);

    ha.broadcast.binary(&mut wynd.clients, &vec![9u8, 8, 7]);

    assert!(wynd.clients[0].outbox.is_empty());
    assert_eq!(wynd.clients[1].outbox.len(), 1);
    match &wynd.clients[1].outbox[0] {
        Frame::Binary(bytes) => assert_eq!(bytes, &vec![9u8, 8, 7]),
        _ => panic!("expected a binary frame"),
    }
}

#[test]
fn test_room_membership() {
    let mut wynd = Wynd::new();
    let (a, ha) = wynd.handle_connection("127.0.0.1:6012".to_string());
    let (b, hb) = wynd.handle_connection("127.0.0.1:6013".to_string());
    wynd.open_connection(a);
    wynd.open_connection(b);

    wynd.rooms.process_event(ha.join("r1"), &mut wynd.clients);
    wynd.rooms.process_event(ha.join("r2"), &mut wynd.clients);
    wynd.rooms.process_event(hb.join("r1"), &mut wynd.clients);

    let ev = ha.to("r1").text("hi");
    wynd.rooms.process_event(ev, &mut wynd.clients);

    assert!(text_frames(&wynd.clients[0]).is_empty());
    assert_eq!(text_frames(&wynd.clients[1]), vec!["hi".to_string()]);

    let reply = wynd
        .rooms
        .process_event(ha.joined_rooms(), &mut wynd.clients)
        .expect("a list-rooms query must be answered");
    assert_eq!(reply.len(), 2);
    assert!(reply.contains(&"r1".to_string()));
    assert!(reply.contains(&"r2".to_string()));
}

#[test]
fn test_room_emit_includes_sender() {
    let mut wynd = Wynd::new();
    let (a, ha) = wynd.handle_connection("127.0.0.1:6014".to_string());
    let (b, hb) = wynd.handle_connection("127.0.0.1:6015".to_string());
    wynd.open_connection(a);
    wynd.open_connection(b);

    wynd.rooms.process_event(ha.join("r1"), &mut wynd.clients);
    wynd.rooms.process_event(hb.join("r1"), &mut wynd.clients);

    let ev = ha.to("r1").emit_text("x");
    wynd.rooms.process_event(ev, &mut wynd.clients);

    assert_eq!(text_frames(&wynd.clients[0]), vec!["x".to_string()]);
    assert_eq!(text_frames(&wynd.clients[1]), vec!["x".to_string()]);
}

#[test]
fn test_room_binary_roundtrip() {
    let mut wynd = Wynd::new();
    let (a, ha) = wynd.handle_connection("127.0.0.1:6016".to_string());
    let (b, hb) = wynd.handle_connection("127.0.0.1:6017".to_string());
    wynd.open_connection(a);
    wynd.open_connection(b);

    wynd.rooms.process_event(ha.join("r1"), &mut wynd.clients);
    wynd.rooms.process_event(hb.join("r1"), &mut wynd.clients);

    let ev = ha.to("r1").binary(vec![1u8, 2, 3]);
    wynd.rooms.process_event(ev, &mut wynd.clients);

    assert!(wynd.clients[0].outbox.is_empty());
    match &wynd.clients[1].outbox[0] {
        Frame::Binary(bytes) => assert_eq!(bytes, &vec![1u8, 2, 3]),
        _ => panic!("expected a binary frame"),
    }
}

#[test]
fn test_room_fifo_order() {
    let mut wynd = Wynd::new();
    let (a, ha) = wynd.handle_connection("127.0.0.1:6018".to_string());
    let (b, hb) = wynd.handle_connection("127.0.0.1:6019".to_string());
    wynd.open_connection(a);
    wynd.open_connection(b);

    wynd.rooms.process_event(ha.join("r1"), &mut wynd.clients);
    wynd.rooms.process_event(hb.join("r1"), &mut wynd.clients);

    let e1 = ha.to("r1").text("first");
    let e2 = ha.to("r1").text("second");
    wynd.rooms.process_event(e1, &mut wynd.clients);
    wynd.rooms.process_event(e2, &mut wynd.clients);

    assert_eq!(
        text_frames(&wynd.clients[1]),
        vec!["first".to_string(), "second".to_string()]
    );
}

#[test]
fn test_room_send_to_missing_room_dropped() {
    let mut wynd = Wynd::new();
    let (a, ha) = wynd.handle_connection("127.0.0.1:6020".to_string());
    wynd.open_connection(a);

    let ev = ha.to("nowhere").text("lost");
    let reply = wynd.rooms.process_event(ev, &mut wynd.clients);

    assert!(reply.is_none());
    assert!(wynd.clients[0].outbox.is_empty());
    assert_eq!(wynd.rooms.rooms.len(), 0);
}

#[test]
fn test_leave_room_and_empty_room_removed() {
    let mut wynd = Wynd::new();
    let (a, ha) = wynd.handle_connection("127.0.0.1:6021".to_string());
    wynd.open_connection(a);

    wynd.rooms.process_event(ha.join("r1"), &mut wynd.clients);
    wynd.rooms.process_event(ha.join("r2"), &mut wynd.clients);
    assert_eq!(wynd.rooms.rooms.len(), 2);

    wynd.rooms.process_event(ha.leave("r1"), &mut wynd.clients);
    assert_eq!(wynd.rooms.rooms.len(), 1);

    let reply = wynd
        .rooms
        .process_event(ha.joined_rooms(), &mut wynd.clients)
        .expect("a list-rooms query must be answered");
    assert_eq!(reply, vec!["r2".to_string()]);
}

#[test]
fn test_leave_all_rooms_atomic() {
    let mut wynd = Wynd::new();
    let (a, ha) = wynd.handle_connection("127.0.0.1:6022".to_string());
    let (b, hb) = wynd.handle_connection("127.0.0.1:6023".to_string());
    wynd.open_connection(a);
    wynd.open_connection(b);

    wynd.rooms.process_event(ha.join("r1"), &mut wynd.clients);
    wynd.rooms.process_event(ha.join("r2"), &mut wynd.clients);
    wynd.rooms.process_event(hb.join("r1"), &mut wynd.clients);

    wynd.rooms.process_event(ha.leave_all_rooms(), &mut wynd.clients);

    let reply = wynd
        .rooms
        .process_event(ha.joined_rooms(), &mut wynd.clients)
        .expect("a list-rooms query must be answered");
    assert!(reply.is_empty());

    // r2 emptied and was dropped; r1 keeps its remaining member
    assert_eq!(wynd.rooms.rooms.len(), 1);
    assert_eq!(wynd.rooms.rooms[0].room_name, "r1");
    assert_eq!(wynd.rooms.rooms[0].room_clients, vec![b]);
}

#[test]
fn test_disconnect_cleanup() {
    let mut wynd = Wynd::new();
    let (a, ha) = wynd.handle_connection("127.0.0.1:6024".to_string());
    let (b, hb) = wynd.handle_connection("127.0.0.1:6025".to_string());
    wynd.open_connection(a);
    wynd.open_connection(b);

    wynd.rooms.process_event(ha.join("r1"), &mut wynd.clients);
    wynd.rooms.process_event(hb.join("r1"), &mut wynd.clients);

    let (closed, leave_all) = wynd.close_connection(a);
    let closed = closed.expect("the connection was in the registry");
    assert_eq!(closed.id(), a);
    assert!(matches!(closed.state(), ConnState::CLOSED));

    wynd.rooms.process_event(leave_all, &mut wynd.clients);

    for conn in wynd.clients.iter() {
        assert_ne!(conn.id(), a);
    }
    assert_eq!(wynd.rooms.rooms.len(), 1);
    assert_eq!(wynd.rooms.rooms[0].room_clients, vec![b]);
}

#[test]
fn test_disconnect_cleanup_removes_empty_room() {
    let mut wynd = Wynd::new();
    let (a, ha) = wynd.handle_connection("127.0.0.1:6026".to_string());
    wynd.open_connection(a);

    wynd.rooms.process_event(ha.join("r1"), &mut wynd.clients);
    assert_eq!(wynd.rooms.rooms.len(), 1);

    let (_closed, leave_all) = wynd.close_connection(a);
    wynd.rooms.process_event(leave_all, &mut wynd.clients);

    assert!(wynd.clients.is_empty());
    assert_eq!(wynd.rooms.rooms.len(), 0);
}

#[test]
fn test_ping_pong() {
    let mut conn = Connection::new(7, "127.0.0.1:6027".to_string());
    conn.mark_open();
    let handle = ConnectionHandle::new(7, "127.0.0.1:6027".to_string());

    let step = conn.ingest_frame(Frame::Ping(vec![0xABu8]));
    assert!(matches!(step.action, IngestAction::PongSent));
    assert!(!step.exit);

    handle.send_text(&mut conn, "later").unwrap();

    match &conn.outbox[0] {
        Frame::Pong(p) => assert_eq!(p, &vec![0xABu8]),
        _ => panic!("the pong must precede any later frame"),
    }
    assert!(matches!(&conn.outbox[1], Frame::Text(_)));
}

#[test]
fn test_close_frame_defaults() {
    let mut conn = Connection::new(8, "127.0.0.1:6028".to_string());
    conn.mark_open();

    let step = conn.ingest_frame(Frame::Close(None));
    assert!(step.exit);
    match step.action {
        IngestAction::DispatchClose(e) => {
            assert_eq!(e.code, 1005);
            assert_eq!(e.reason, "No status received");
        },
        _ => panic!("expected a close dispatch"),
    }

    let mut conn2 = Connection::new(9, "127.0.0.1:6029".to_string());
    conn2.mark_open();
    let step2 = conn2.ingest_frame(Frame::Close(Some(CloseFrame {
        code: 1001,
        reason: "going away".to_string(),
    })));
    assert!(step2.exit);
    match step2.action {
        IngestAction::DispatchClose(e) => {
            assert_eq!(e.code, 1001);
            assert_eq!(e.reason, "going away");
        },
        _ => panic!("expected a close dispatch"),
    }
}

#[test]
fn test_inbound_pong_is_noop() {
    let mut conn = Connection::new(10, "127.0.0.1:6030".to_string());
    conn.mark_open();
    let step = conn.ingest_frame(Frame::Pong(vec![1u8]));
    assert!(matches!(step.action, IngestAction::NoAction));
    assert!(!step.exit);
    assert!(conn.outbox.is_empty());
}

#[test]
fn test_send_on_closed_connection_fails() {
    let mut conn = Connection::new(11, "127.0.0.1:6031".to_string());
    conn.state = ConnState::CLOSED;
    let handle = ConnectionHandle::new(11, "127.0.0.1:6031".to_string());

    let r = handle.send_text(&mut conn, "nope");
    assert_eq!(r.unwrap_err().as_str(), "connection closed");

    let r = handle.send_binary(&mut conn, vec![1u8]);
    assert_eq!(r.unwrap_err().as_str(), "connection closed");

    let r = handle.close(&mut conn);
    assert_eq!(r.unwrap_err().as_str(), "connection closed");

    assert!(conn.outbox.is_empty());
}

#[test]
fn test_close_connection() {
    let mut conn = Connection::new(12, "127.0.0.1:6032".to_string());
    conn.mark_open();
    let handle = ConnectionHandle::new(12, "127.0.0.1:6032".to_string());

    handle.close(&mut conn).unwrap();

    assert!(matches!(conn.state(), ConnState::CLOSING));
    assert!(matches!(&conn.outbox[0], Frame::Close(None)));
}

#[test]
fn test_send_text_message() {
    let mut conn = Connection::new(1, "127.0.0.1:6033".to_string());
    conn.mark_open();
    let handle = ConnectionHandle::new(1, "127.0.0.1:6033".to_string());

    handle.send_text(&mut conn, "Hello, World!").unwrap();

    assert_eq!(text_frames(&conn), vec!["Hello, World!".to_string()]);
}

#[test]
fn test_send_binary_message() {
    let mut conn = Connection::new(1, "127.0.0.1:6034".to_string());
    conn.mark_open();
    let handle = ConnectionHandle::new(1, "127.0.0.1:6034".to_string());

    let data = vec![1u8, 2, 3, 4, 5];
    handle.send_binary(&mut conn, data.clone()).unwrap();

    assert_eq!(conn.outbox.len(), 1);
    match &conn.outbox[0] {
        Frame::Binary(bytes) => assert_eq!(bytes, &data),
        _ => panic!("expected a binary frame"),
    }
}

#[test]
fn test_writer_sends_complete_frames_in_order() {
    let mut conn = Connection::new(2, "127.0.0.1:6035".to_string());
    conn.mark_open();
    let handle = ConnectionHandle::new(2, "127.0.0.1:6035".to_string());

    handle.send_text(&mut conn, "one").unwrap();
    handle.send_text(&mut conn, "two").unwrap();

    assert_eq!(
        text_frames(&conn),
        vec!["one".to_string(), "two".to_string()]
    );
}

#[test]
fn test_websocket_conn_id_shape() {
    let conn = WebSocketConn::new();
    assert_eq!(conn.id.len(), 36);
    let bytes = conn.id.as_bytes();
    assert_eq!(bytes[8], b'-');
    assert_eq!(bytes[13], b'-');
    assert_eq!(bytes[18], b'-');
    assert_eq!(bytes[23], b'-');

    let other = WebSocketConn::new();
    assert_ne!(conn.id, other.id);
}

#[test]
fn test_upgrade_request_check() {
    assert!(is_websocket_upgrade_request(Some("websocket"), true, true));
    assert!(is_websocket_upgrade_request(Some("WebSocket"), true, true));
    assert!(is_websocket_upgrade_request(Some("WEBSOCKET"), true, true));
    assert!(!is_websocket_upgrade_request(Some("websockets"), true, true));
    assert!(!is_websocket_upgrade_request(Some("http"), true, true));
    assert!(!is_websocket_upgrade_request(None, true, true));
    assert!(!is_websocket_upgrade_request(Some("websocket"), false, true));
    assert!(!is_websocket_upgrade_request(Some("websocket"), true, false));
}

#[test]
fn test_rejoin_is_harmless() {
    let mut wynd = Wynd::new();
    let (a, ha) = wynd.handle_connection("127.0.0.1:6036".to_string());
    wynd.open_connection(a);

    wynd.rooms.process_event(ha.join("r1"), &mut wynd.clients);
    wynd.rooms.process_event(ha.join("r1"), &mut wynd.clients);

    assert_eq!(wynd.rooms.rooms.len(), 1);
    assert_eq!(wynd.rooms.rooms[0].room_clients, vec![a]);
}
