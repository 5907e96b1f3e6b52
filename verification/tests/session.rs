use std::collections::HashMap;

use rooms_server::registry::RoomRegistry;
use rooms_server::session::{
    connection_action, cursor_to_relay, event_frame, is_own_cursor, is_own_event,
    requested_user_id, room_id_from_path, session_user_id, stamp_cursor, ConnectionAction,
    ConnectionInput,
};
use rooms_server::types::{CursorUpdate, Element, JoinMetadata, RoomCommand, RoomEvent};

fn metadata_with_id(id: Option<&str>) -> JoinMetadata {
    JoinMetadata { user_id: id.map(|s| s.to_string()), user_name: "n".to_string(), extra_properties: HashMap::new() }
}

#[test]
fn room_paths() {
    assert_eq!(room_id_from_path("/rooms/abc"), Some("abc".to_string()));
    assert_eq!(room_id_from_path("/rooms/ümlaut-1"), Some("ümlaut-1".to_string()));
    assert_eq!(room_id_from_path("/rooms/"), None);
    assert_eq!(room_id_from_path("/rooms/a/b"), None);
    assert_eq!(room_id_from_path("/rooms/a/"), None);
    assert_eq!(room_id_from_path("/room/abc"), None);
    assert_eq!(room_id_from_path("rooms/abc"), None);
    assert_eq!(room_id_from_path(""), None);
}

#[test]
fn user_ids() {
    assert_eq!(requested_user_id(&metadata_with_id(Some("alice"))), Some("alice".to_string()));
    assert_eq!(requested_user_id(&metadata_with_id(Some(""))), None);
    assert_eq!(requested_user_id(&metadata_with_id(None)), None);
    assert_eq!(session_user_id(&metadata_with_id(Some("alice"))), "alice");
    let a = session_user_id(&metadata_with_id(Some("")));
    let b = session_user_id(&metadata_with_id(None));
    for id in [&a, &b] {
        let chars: Vec<char> = id.chars().collect();
        assert_eq!(chars.len(), 36);
        for (i, c) in chars.iter().enumerate() {
            if [8, 13, 18, 23].contains(&i) {
                assert_eq!(*c, '-');
            } else {
                assert!(c.is_ascii_digit() || ('a'..='f').contains(c));
            }
        }
        assert_eq!(chars[14], '4');
        assert!(['8', '9', 'a', 'b'].contains(&chars[19]));
    }
    assert_ne!(a, b);
}

#[test]
fn own_events_and_cursors_are_recognised() {
    let joined = RoomEvent::UserJoined { user_id: "u1".to_string(), user_name: "A".to_string(), extra_properties: HashMap::new() };
    let left = RoomEvent::UserLeft { user_id: "u2".to_string(), user_name: "B".to_string(), extra_properties: HashMap::new() };
    let updated = RoomEvent::ElementUpdated {
        user_id: "u1".to_string(),
        element: Element { id: "e".to_string(), version: 1, extra_properties: HashMap::new() },
    };
    let u1 = "u1".to_string();
    assert!(is_own_event(&joined, &u1));
    assert!(!is_own_event(&left, &u1));
    assert!(is_own_event(&updated, &u1));
    let cursor = CursorUpdate { user_id: "u2".to_string(), x_bits: 5, y_bits: 6 };
    assert!(!is_own_cursor(&cursor, &u1));
    assert!(is_own_cursor(&cursor, &"u2".to_string()));
}

#[test]
fn relayed_cursor_carries_sender_id() {
    let sent = CursorUpdate { user_id: "spoofed".to_string(), x_bits: 1.5f32.to_bits(), y_bits: (-2.0f32).to_bits() };
    let stamped = stamp_cursor(sent, &"real".to_string());
    assert_eq!(stamped.user_id, "real");
    assert_eq!(f32::from_bits(stamped.x_bits), 1.5);
    assert_eq!(f32::from_bits(stamped.y_bits), -2.0);
    assert!(is_own_cursor(&stamped, &"real".to_string()));
}

#[test]
fn connection_actions() {
    let me = "me".to_string();
    assert!(matches!(connection_action(ConnectionInput::Closed, &me), ConnectionAction::Stop));
    assert!(matches!(connection_action(ConnectionInput::StreamAccepted, &me), ConnectionAction::ReadElementStream));
    assert!(matches!(connection_action(ConnectionInput::StreamFailed, &me), ConnectionAction::Stop));
    assert!(matches!(connection_action(ConnectionInput::DatagramsFailed, &me), ConnectionAction::Stop));
    assert!(matches!(connection_action(ConnectionInput::Datagram(None), &me), ConnectionAction::SkipDatagram));
    let cursor = CursorUpdate { user_id: "x".to_string(), x_bits: 9, y_bits: 10 };
    match connection_action(ConnectionInput::Datagram(Some(cursor)), &me) {
        ConnectionAction::QueueCursor(RoomCommand::BroadcastCursor { cursor }) => {
            assert_eq!(cursor.user_id, "me");
            assert_eq!((cursor.x_bits, cursor.y_bits), (9, 10));
        }
        _ => panic!("a decoded cursor is queued"),
    }
}

#[test]
fn cursor_actor_relays_cursors_and_stops_otherwise() {
    let cursor = CursorUpdate { user_id: "a".to_string(), x_bits: 1, y_bits: 2 };
    let relayed = cursor_to_relay(RoomCommand::BroadcastCursor { cursor }).expect("relayed");
    assert_eq!(relayed.user_id, "a");
    let other = RoomCommand::Leave { user_id: "a".to_string(), metadata: metadata_with_id(None) };
    assert!(cursor_to_relay(other).is_none());
}

#[test]
fn event_frames() {
    assert_eq!(event_frame(&[]), vec![0, 0, 0, 0]);
    assert_eq!(event_frame(&[1, 2, 3]), vec![0, 0, 0, 3, 1, 2, 3]);
    let payload = vec![7u8; 300];
    let frame = event_frame(&payload);
    assert_eq!(&frame[..4], &[0, 0, 1, 44]);
    assert_eq!(&frame[4..], &payload[..]);
    let big = vec![0u8; 0x1_0203];
    let frame = event_frame(&big);
    assert_eq!(u32::from_be_bytes([frame[0], frame[1], frame[2], frame[3]]), 0x1_0203);
    assert_eq!(frame.len(), 4 + 0x1_0203);
}

#[test]
fn registry_makes_each_room_once() {
    let mut registry = RoomRegistry::new();
    let (first, inbox) = registry.get_or_create("r1");
    let mut inbox = inbox.expect("a new room comes with its inbox");
    let (again, none) = registry.get_or_create("r1");
    assert!(none.is_none());
    assert!(again.command_tx.same_channel(&first.command_tx));
    assert!(again.event_tx.same_channel(&first.event_tx));
    let (other, other_inbox) = registry.get_or_create("r2");
    assert!(other_inbox.is_some());
    assert!(!other.command_tx.same_channel(&first.command_tx));
    let cursor = CursorUpdate { user_id: "u".to_string(), x_bits: 0, y_bits: 0 };
    assert!(again.cursor_command_tx.try_send(RoomCommand::BroadcastCursor { cursor }).is_ok());
    assert!(matches!(inbox.cursor_command_rx.try_recv(), Ok(RoomCommand::BroadcastCursor { .. })));
    assert!(inbox.command_rx.try_recv().is_err());
}

#[test]
fn cursor_actor_relays_the_cursors_before_the_first_other_command() {
    let commands = vec![
        RoomCommand::BroadcastCursor { cursor: CursorUpdate { user_id: "a".to_string(), x_bits: 1, y_bits: 2 } },
        RoomCommand::BroadcastCursor { cursor: CursorUpdate { user_id: "b".to_string(), x_bits: 3, y_bits: 4 } },
        RoomCommand::Leave { user_id: "a".to_string(), metadata: metadata_with_id(None) },
        RoomCommand::BroadcastCursor { cursor: CursorUpdate { user_id: "c".to_string(), x_bits: 5, y_bits: 6 } },
    ];
    let mut relayed = Vec::new();
    for command in commands {
        match cursor_to_relay(command) {
            Some(c) => relayed.push((c.user_id, c.x_bits, c.y_bits)),
            None => break,
        }
    }
    assert_eq!(relayed, vec![("a".to_string(), 1, 2), ("b".to_string(), 3, 4)]);
}

#[test]
fn registry_keeps_rooms_across_other_requests() {
    let mut registry = RoomRegistry::new();
    let (r1, _) = registry.get_or_create("r1");
    let (_, _) = registry.get_or_create("r2");
    let (_, _) = registry.get_or_create("r3");
    let (again, inbox) = registry.get_or_create("r1");
    assert!(inbox.is_none());
    assert!(again.command_tx.same_channel(&r1.command_tx));
    assert!(again.cursor_command_tx.same_channel(&r1.cursor_command_tx));
    assert!(again.event_tx.same_channel(&r1.event_tx));
    assert!(again.cursor_tx.same_channel(&r1.cursor_tx));
}
