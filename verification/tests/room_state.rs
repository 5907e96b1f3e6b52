use std::collections::HashMap;

use rooms_server::room::RoomState;
use rooms_server::types::{Element, JoinMetadata, RoomCommand, RoomEvent, RoomJoinResponse};
use tokio::sync::oneshot;

fn element(id: &str, version: u32) -> Element {
    let mut extra = HashMap::new();
    extra.insert("kind".to_string(), rmpv::Value::from("rect"));
    Element { id: id.to_string(), version, extra_properties: extra }
}

fn metadata(name: &str) -> JoinMetadata {
    JoinMetadata { user_id: None, user_name: name.to_string(), extra_properties: HashMap::new() }
}

fn join(
    room: &mut RoomState,
    user: &str,
    name: &str,
) -> (Result<RoomJoinResponse, String>, Option<RoomEvent>) {
    let (tx, mut rx) = oneshot::channel();
    let out = room.handle(RoomCommand::Join {
        user_id: user.to_string(),
        metadata: metadata(name),
        response_tx: tx,
    });
    let (reply_tx, reply) = out.reply.expect("a join is always answered");
    let reply_copy = match &reply {
        Ok(resp) => Ok(RoomJoinResponse {
            snapshot: rooms_server::types::RoomSnapshot {
                user_id: resp.snapshot.user_id.clone(),
                elements: resp.snapshot.elements.clone(),
            },
            existing_members: resp.existing_members.clone(),
        }),
        Err(msg) => Err(msg.clone()),
    };
    assert!(reply_tx.send(reply).is_ok());
    let received = rx.try_recv().expect("the answer goes to the join's own channel");
    assert_eq!(received.is_ok(), reply_copy.is_ok());
    (reply_copy, out.event)
}

#[test]
fn first_join_gets_empty_snapshot_and_is_announced() {
    let mut room = RoomState::new();
    let (reply, event) = join(&mut room, "u1", "Ann");
    let resp = reply.expect("first join is accepted");
    assert_eq!(resp.snapshot.user_id, "u1");
    assert!(resp.snapshot.elements.is_empty());
    assert!(resp.existing_members.is_empty());
    match event {
        Some(RoomEvent::UserJoined { user_id, user_name, .. }) => {
            assert_eq!(user_id, "u1");
            assert_eq!(user_name, "Ann");
        }
        other => panic!("unexpected event {:?}", other),
    }
}

#[test]
fn second_join_of_same_user_is_refused() {
    let mut room = RoomState::new();
    assert!(join(&mut room, "u1", "Ann").0.is_ok());
    let (reply, event) = join(&mut room, "u1", "Ann again");
    assert_eq!(reply.err(), Some("user u1 already has an active session".to_string()));
    assert!(event.is_none());
    // The refused join changed nothing: another user still sees one member.
    let resp = join(&mut room, "u2", "Bob").0.unwrap();
    assert_eq!(resp.existing_members.len(), 1);
}

#[test]
fn joiner_sees_written_elements_and_other_members() {
    let mut room = RoomState::new();
    assert!(join(&mut room, "u1", "Ann").0.is_ok());
    let out = room.handle(RoomCommand::UpdateElement { user_id: "u1".to_string(), element: element("e1", 1) });
    assert!(out.reply.is_none());
    match out.event {
        Some(RoomEvent::ElementUpdated { user_id, element }) => {
            assert_eq!(user_id, "u1");
            assert_eq!(element.id, "e1");
        }
        other => panic!("unexpected event {:?}", other),
    }
    room.handle(RoomCommand::UpdateElement { user_id: "u1".to_string(), element: element("e2", 1) });
    room.handle(RoomCommand::UpdateElement { user_id: "u1".to_string(), element: element("e1", 2) });
    let resp = join(&mut room, "u2", "Bob").0.unwrap();
    let ids: Vec<(String, u32)> =
        resp.snapshot.elements.iter().map(|e| (e.id.clone(), e.version)).collect();
    assert_eq!(ids, vec![("e1".to_string(), 2), ("e2".to_string(), 1)]);
    assert_eq!(resp.snapshot.elements[0].extra_properties.get("kind"), Some(&rmpv::Value::from("rect")));
    assert_eq!(resp.existing_members.len(), 1);
    match &resp.existing_members[0] {
        RoomEvent::UserJoined { user_id, user_name, .. } => {
            assert_eq!(user_id, "u1");
            assert_eq!(user_name, "Ann");
        }
        other => panic!("unexpected member event {:?}", other),
    }
}

#[test]
fn leave_ends_the_session_so_the_user_can_rejoin() {
    let mut room = RoomState::new();
    assert!(join(&mut room, "u1", "Ann").0.is_ok());
    assert!(join(&mut room, "u2", "Bob").0.is_ok());
    let out = room.handle(RoomCommand::Leave { user_id: "u1".to_string(), metadata: metadata("Ann") });
    assert!(out.reply.is_none());
    match out.event {
        Some(RoomEvent::UserLeft { user_id, user_name, .. }) => {
            assert_eq!(user_id, "u1");
            assert_eq!(user_name, "Ann");
        }
        other => panic!("unexpected event {:?}", other),
    }
    let resp = join(&mut room, "u1", "Ann").0.expect("rejoin after leaving is accepted");
    assert_eq!(resp.existing_members.len(), 1);
    match &resp.existing_members[0] {
        RoomEvent::UserJoined { user_id, .. } => assert_eq!(user_id, "u2"),
        other => panic!("unexpected member event {:?}", other),
    }
}

#[test]
fn leave_of_unknown_user_is_still_announced() {
    let mut room = RoomState::new();
    let out = room.handle(RoomCommand::Leave { user_id: "ghost".to_string(), metadata: metadata("G") });
    assert!(matches!(out.event, Some(RoomEvent::UserLeft { .. })));
}

#[test]
fn cursor_commands_leave_the_room_alone() {
    let mut room = RoomState::new();
    assert!(join(&mut room, "u1", "Ann").0.is_ok());
    let out = room.handle(RoomCommand::BroadcastCursor {
        cursor: rooms_server::types::CursorUpdate { user_id: "u1".to_string(), x_bits: 1, y_bits: 2 },
    });
    assert!(out.reply.is_none());
    assert!(out.event.is_none());
    assert!(join(&mut room, "u1", "Ann").0.is_err());
}

#[test]
fn writing_same_element_twice_keeps_one_copy() {
    let mut room = RoomState::new();
    room.handle(RoomCommand::UpdateElement { user_id: "u1".to_string(), element: element("e1", 3) });
    room.handle(RoomCommand::UpdateElement { user_id: "u1".to_string(), element: element("e1", 3) });
    let resp = join(&mut room, "u9", "Z").0.unwrap();
    assert_eq!(resp.snapshot.elements.len(), 1);
    assert_eq!(resp.snapshot.elements[0].version, 3);
}

#[test]
fn element_id_and_clone_and_default_metadata() {
    let e = element("abc", 7);
    assert_eq!(e.id(), "abc");
    let c = e.clone();
    assert_eq!(c.id, "abc");
    assert_eq!(c.version, 7);
    assert_eq!(c.extra_properties, e.extra_properties);
    let m = JoinMetadata::default();
    assert!(m.user_id.is_none());
    assert!(m.user_name.is_empty());
    assert!(m.extra_properties.is_empty());
}

#[test]
fn membership_follows_the_history_of_joins_and_leaves() {
    let mut room = RoomState::new();
    assert!(join(&mut room, "u1", "Ann").0.is_ok());
    assert!(join(&mut room, "u2", "Bob").0.is_ok());
    room.handle(RoomCommand::Leave { user_id: "u1".to_string(), metadata: metadata("Ann") });
    assert!(join(&mut room, "u2", "Bob").0.is_err());
    assert!(join(&mut room, "u1", "Ann").0.is_ok());
    room.handle(RoomCommand::Leave { user_id: "u2".to_string(), metadata: metadata("Bob") });
    room.handle(RoomCommand::Leave { user_id: "u1".to_string(), metadata: metadata("Ann") });
    let resp = join(&mut room, "u3", "Cy").0.unwrap();
    assert!(resp.existing_members.is_empty());
}
