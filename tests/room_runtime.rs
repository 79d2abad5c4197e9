use ws_server::ids::{ClientId, RoomId};
use ws_server::message::{Message, PresentationClientMessage, ServerMessageType};
use ws_server::outcome::{plan_outcome, BrokerCall, BrokerPayload, TransactionOutcome};
use ws_server::presence::{Cursor, PresenceUpdate};
use ws_server::room::{Presentation, PresentationClientData, RoomError};
use ws_server::room_manager::RoomManager;
use ws_server::storage::{PresentationStorage, StorageDiff, StorageError};

fn meta(name: &str) -> PresentationClientData {
    PresentationClientData { user_id: name.to_string(), name: name.to_string() }
}

fn room(id: &str) -> Presentation {
    let slides = vec!["{}".to_string(), "{}".to_string(), "{}".to_string(), "{}".to_string()];
    Presentation::new(RoomId::from_string(id), 100, 100, PresentationStorage::new(0, slides))
}

fn command(room: &str, payload: PresentationClientMessage) -> Message<PresentationClientMessage> {
    Message {
        room_id: RoomId::from_string(room),
        payload,
        datetime: 0,
        sender_id: None,
        request_id: None,
        broadcast: None,
    }
}

fn cursor_update(x: i64, y: i64) -> PresentationClientMessage {
    PresentationClientMessage::UpdatePresence { update: PresenceUpdate { cursor: Some(Some(Cursor { x, y })) } }
}

#[test]
fn add_client_then_duplicate_is_refused() {
    let mut r = room("room_x");
    assert!(r.is_empty());
    r.add_client_at(ClientId::from_string("A"), meta("A"), 200).unwrap();
    assert!(!r.is_empty());
    assert_eq!(r.last_activity_at(), 200);
    match r.add_client_at(ClientId::from_string("A"), meta("A"), 300) {
        Err(RoomError::ClientAlreadyPresent(c)) => assert_eq!(c.as_str(), "A"),
        other => panic!("unexpected {:?}", other),
    }
    assert_eq!(r.last_activity_at(), 200);
}

#[test]
fn remove_missing_client_is_refused() {
    let mut r = room("room_x");
    match r.remove_client_at(&ClientId::from_string("ghost"), 5) {
        Err(RoomError::ClientNotFound(c)) => assert_eq!(c.as_str(), "ghost"),
        other => panic!("unexpected {:?}", other),
    }
}

#[test]
fn every_presence_entry_belongs_to_a_member() {
    let mut r = room("room_x");
    r.add_client_at(ClientId::from_string("A"), meta("A"), 1).unwrap();
    r.add_client_at(ClientId::from_string("B"), meta("B"), 2).unwrap();
    r.remove_client_at(&ClientId::from_string("A"), 3).unwrap();
    let members = r.get_connected_clients();
    assert_eq!(members.len(), 1);
    assert_eq!(members[0].as_str(), "B");
    assert!(r.get_presence(&ClientId::from_string("A")).is_none());
    assert!(r.get_presence(&ClientId::from_string("B")).is_some());
    assert_eq!(r.get_all_presence().len(), 1);
}

#[test]
fn empty_exactly_when_no_clients() {
    let mut r = room("room_x");
    assert!(r.is_empty());
    r.add_client_at(ClientId::from_string("A"), meta("A"), 1).unwrap();
    assert!(!r.is_empty());
    r.remove_client_at(&ClientId::from_string("A"), 2).unwrap();
    assert!(r.is_empty());
}

#[test]
fn last_activity_never_goes_back() {
    let mut r = room("room_x");
    r.add_client_at(ClientId::from_string("A"), meta("A"), 500).unwrap();
    assert_eq!(r.last_activity_at(), 500);
    r.apply_client_message_at(&ClientId::from_string("A"), command("room_x", PresentationClientMessage::ChangeSlide { slide_index: 1 }), 400)
        .unwrap();
    assert_eq!(r.last_activity_at(), 500);
    r.apply_client_message_at(&ClientId::from_string("A"), command("room_x", PresentationClientMessage::ChangeSlide { slide_index: 2 }), 900)
        .unwrap();
    assert_eq!(r.last_activity_at(), 900);
    assert!(r.last_activity_at() >= r.created_at());
}

#[test]
fn join_then_leave_restores_the_room() {
    let mut r = room("room_x");
    r.add_client_at(ClientId::from_string("B"), meta("B"), 1).unwrap();
    r.apply_client_message_at(&ClientId::from_string("B"), command("room_x", cursor_update(1, 2)), 2).unwrap();
    let before_b = *r.get_presence(&ClientId::from_string("B")).unwrap();
    r.add_client_at(ClientId::from_string("C"), meta("C"), 3).unwrap();
    let left = r.remove_client_at(&ClientId::from_string("C"), 4).unwrap();
    assert_eq!(left.name, "C");
    assert_eq!(*r.get_presence(&ClientId::from_string("B")).unwrap(), before_b);
    assert_eq!(r.get_connected_clients().len(), 1);
    assert_eq!(r.storage().current_slide(), 0);
    assert_eq!(r.storage().slide_data().len(), 4);
}

#[test]
fn unknown_and_lifecycle_commands_send_nothing() {
    let mut r = room("room_x");
    r.add_client_at(ClientId::from_string("A"), meta("A"), 1).unwrap();
    for payload in [PresentationClientMessage::Unknown, PresentationClientMessage::JoinPresentation, PresentationClientMessage::LeavePresentation] {
        let out = r.apply_client_message_at(&ClientId::from_string("A"), command("room_x", payload), 2).unwrap();
        assert!(matches!(out, TransactionOutcome::Nothing));
    }
}

#[test]
fn command_from_non_member_is_refused() {
    let mut r = room("room_x");
    let out = r.apply_client_message_at(&ClientId::from_string("Z"), command("room_x", PresentationClientMessage::ChangeSlide { slide_index: 2 }), 7);
    assert!(matches!(out, Err(RoomError::ClientNotFound(_))));
    assert_eq!(r.storage().current_slide(), 0);
    assert_eq!(r.last_activity_at(), 100);
}

#[test]
fn storage_update_is_broadcast_on_its_own_channel() {
    let mut r = room("room_x");
    r.add_client_at(ClientId::from_string("A"), meta("A"), 1).unwrap();
    let diff = StorageDiff { base_slide_count: 4, current_slide: Some(2), slide_data: None };
    let out = r.apply_client_message_at(&ClientId::from_string("A"), command("room_x", PresentationClientMessage::UpdateStorage { diff }), 2).unwrap();
    assert_eq!(r.storage().current_slide(), 2);
    let calls = plan_outcome(&RoomId::from_string("room_x"), &ClientId::from_string("A"), out);
    assert_eq!(calls.len(), 1);
    match &calls[0] {
        BrokerCall::Broadcast { room_id, msg_name, payload, exclude } => {
            assert_eq!(room_id, "room_x");
            assert_eq!(msg_name, "storage_update");
            assert!(matches!(payload, BrokerPayload::StorageUpdate(d) if d.current_slide == Some(2)));
            assert_eq!(exclude.len(), 1);
            assert_eq!(exclude[0].as_str(), "A");
        }
        other => panic!("unexpected {:?}", other),
    }
}

#[test]
fn stale_storage_update_is_refused_and_changes_nothing() {
    let mut r = room("room_x");
    r.add_client_at(ClientId::from_string("A"), meta("A"), 1).unwrap();
    let diff = StorageDiff { base_slide_count: 9, current_slide: Some(2), slide_data: None };
    let out = r.apply_client_message_at(&ClientId::from_string("A"), command("room_x", PresentationClientMessage::UpdateStorage { diff }), 50);
    assert!(matches!(out, Err(RoomError::StorageError(StorageError::ApplyDiffError(_)))));
    assert_eq!(r.storage().current_slide(), 0);
    assert_eq!(r.last_activity_at(), 100);
}

#[test]
fn empty_multiple_sends_nothing() {
    let none: TransactionOutcome<ServerMessageType, StorageDiff> = TransactionOutcome::Nothing;
    let empty: TransactionOutcome<ServerMessageType, StorageDiff> = TransactionOutcome::Multiple(vec![]);
    let rid = RoomId::from_string("room_x");
    let a = ClientId::from_string("A");
    assert_eq!(plan_outcome(&rid, &a, none).len(), 0);
    assert_eq!(plan_outcome(&rid, &a, empty).len(), 0);
}

#[test]
fn multiple_is_interpreted_in_order() {
    let rid = RoomId::from_string("room_x");
    let a = ClientId::from_string("A");
    let event = |k: usize| Message {
        room_id: RoomId::from_string("room_x"),
        payload: ServerMessageType::SlideChanged { slide_index: k },
        datetime: 1,
        sender_id: None,
        request_id: None,
        broadcast: None,
    };
    let outcome: TransactionOutcome<ServerMessageType, StorageDiff> = TransactionOutcome::Multiple(vec![
        TransactionOutcome::Broadcast { message: event(1), exclude_sender: false },
        TransactionOutcome::Multiple(vec![TransactionOutcome::Nothing]),
        TransactionOutcome::SendTo { clients: vec![ClientId::from_string("B")], message: event(2) },
        TransactionOutcome::BroadcastStorageUpdate {
            diff: StorageDiff { base_slide_count: 0, current_slide: None, slide_data: None },
            exclude_sender: true,
        },
    ]);
    let calls = plan_outcome(&rid, &a, outcome);
    assert_eq!(calls.len(), 3);
    match &calls[0] {
        BrokerCall::Broadcast { msg_name, exclude, .. } => {
            assert_eq!(msg_name, "SlideChanged");
            assert!(exclude.is_empty());
        }
        other => panic!("unexpected {:?}", other),
    }
    match &calls[1] {
        BrokerCall::Send { recipients, msg_name, .. } => {
            assert_eq!(msg_name, "SlideChanged");
            assert_eq!(recipients.len(), 1);
            assert_eq!(recipients[0].as_str(), "B");
        }
        other => panic!("unexpected {:?}", other),
    }
    assert!(matches!(&calls[2], BrokerCall::Broadcast { msg_name, .. } if msg_name == "storage_update"));
}

fn manager_with(room_name: &str, members: &[&str]) -> RoomManager<Presentation> {
    let mut m: RoomManager<Presentation> = RoomManager::new();
    m.register_room(RoomId::from_string(room_name), room(room_name)).unwrap();
    for (t, c) in members.iter().enumerate() {
        m.join_room_at(&RoomId::from_string(room_name), ClientId::from_string(c), meta(c), t as i64 + 1).unwrap();
    }
    m
}

#[test]
fn join_and_broadcast() {
    let mut m: RoomManager<Presentation> = RoomManager::new();
    m.register_room(RoomId::from_string("room_x"), room("room_x")).unwrap();
    assert_eq!(m.get_room_snapshot(&RoomId::from_string("room_x")).unwrap().room_type(), "presentation");
    m.join_room_at(&RoomId::from_string("room_x"), ClientId::from_string("A"), meta("A"), 1).unwrap();
    let calls = m.join_room_at(&RoomId::from_string("room_x"), ClientId::from_string("B"), meta("B"), 2).unwrap();
    assert_eq!(calls.len(), 1);
    match &calls[0] {
        BrokerCall::Broadcast { room_id, msg_name, payload, exclude } => {
            assert_eq!(room_id, "room_x");
            assert_eq!(msg_name, "RoomJoined");
            assert_eq!(exclude.len(), 1);
            assert_eq!(exclude[0].as_str(), "B");
            match payload {
                BrokerPayload::Event(msg) => match &msg.payload {
                    ServerMessageType::RoomJoined { room_id, socket_id, .. } => {
                        assert_eq!(room_id.as_str(), "room_x");
                        assert_eq!(socket_id, "B");
                    }
                    other => panic!("unexpected {:?}", other),
                },
                other => panic!("unexpected {:?}", other),
            }
        }
        other => panic!("unexpected {:?}", other),
    }
}

#[test]
fn slide_change_fan_out() {
    let mut m = manager_with("room_x", &["A", "B", "C"]);
    let mut msg = command("room_x", PresentationClientMessage::ChangeSlide { slide_index: 3 });
    msg.request_id = Some("req-1".to_string());
    let calls = m.handle_client_message_at(&RoomId::from_string("room_x"), &ClientId::from_string("A"), msg, 10).unwrap();
    let snapshot = m.get_room_snapshot(&RoomId::from_string("room_x")).unwrap();
    assert_eq!(snapshot.storage().current_slide(), 3);
    assert_eq!(calls.len(), 1);
    match &calls[0] {
        BrokerCall::Broadcast { room_id, msg_name, payload, exclude } => {
            assert_eq!(room_id, "room_x");
            assert_eq!(msg_name, "SlideChanged");
            assert_eq!(exclude.len(), 1);
            assert_eq!(exclude[0].as_str(), "A");
            match payload {
                BrokerPayload::Event(e) => {
                    assert!(matches!(e.payload, ServerMessageType::SlideChanged { slide_index: 3 }));
                    assert_eq!(e.request_id.as_deref(), Some("req-1"));
                    assert_eq!(e.sender_id.as_deref(), Some("A"));
                }
                other => panic!("unexpected {:?}", other),
            }
        }
        other => panic!("unexpected {:?}", other),
    }
}

#[test]
fn presence_no_op() {
    let mut m = manager_with("room_x", &["A", "B", "C"]);
    let rid = RoomId::from_string("room_x");
    let a = ClientId::from_string("A");
    let first = m.handle_client_message_at(&rid, &a, command("room_x", cursor_update(10, 20)), 5).unwrap();
    assert_eq!(first.len(), 1);
    let again = m.handle_client_message_at(&rid, &a, command("room_x", cursor_update(10, 20)), 6).unwrap();
    assert!(again.is_empty());
    let snap = m.get_room_snapshot(&rid).unwrap();
    assert_eq!(snap.get_presence(&a).unwrap().cursor, Some(Cursor { x: 10, y: 20 }));
}

#[test]
fn concurrent_commands_in_one_room_are_serialized() {
    let mut m = manager_with("room_x", &["A", "B"]);
    let rid = RoomId::from_string("room_x");
    let first = m
        .handle_client_message_at(&rid, &ClientId::from_string("A"), command("room_x", PresentationClientMessage::ChangeSlide { slide_index: 5 }), 10)
        .unwrap();
    let second = m
        .handle_client_message_at(&rid, &ClientId::from_string("B"), command("room_x", PresentationClientMessage::ChangeSlide { slide_index: 7 }), 11)
        .unwrap();
    assert_eq!(m.get_room_snapshot(&rid).unwrap().storage().current_slide(), 7);
    let slide = |calls: &Vec<BrokerCall<ServerMessageType, StorageDiff>>| match &calls[0] {
        BrokerCall::Broadcast { payload: BrokerPayload::Event(e), .. } => match e.payload {
            ServerMessageType::SlideChanged { slide_index } => slide_index,
            _ => panic!("not a slide change"),
        },
        _ => panic!("not a broadcast"),
    };
    assert_eq!(slide(&first), 5);
    assert_eq!(slide(&second), 7);
}

#[test]
fn reaper_removes_empty_room_only() {
    let mut m = manager_with("room_x", &["A"]);
    m.register_room(RoomId::from_string("room_y"), room("room_y")).unwrap();
    m.register_room(RoomId::from_string("room_z"), room("room_z")).unwrap();
    m.join_room_at(&RoomId::from_string("room_z"), ClientId::from_string("Q"), meta("Q"), 1).unwrap();
    let leave = m.leave_room_at(&RoomId::from_string("room_x"), &ClientId::from_string("A"), 9).unwrap();
    assert!(matches!(&leave[0], BrokerCall::Broadcast { msg_name, exclude, .. } if msg_name == "RoomLeft" && exclude.is_empty()));
    let removed = m.reap();
    assert_eq!(removed.len(), 2);
    assert_eq!(m.len(), 1);
    assert!(m.get_room(&RoomId::from_string("room_z")).is_ok());
    let out = m.handle_client_message_at(&RoomId::from_string("room_x"), &ClientId::from_string("A"), command("room_x", PresentationClientMessage::ChangeSlide { slide_index: 1 }), 20);
    match out {
        Err(RoomError::RoomNotFound(r)) => assert_eq!(r.as_str(), "room_x"),
        other => panic!("unexpected {:?}", other),
    }
}

#[test]
fn remove_if_empty_rechecks_membership() {
    let mut m = manager_with("room_x", &["A"]);
    assert!(!m.remove_if_empty(&RoomId::from_string("room_x")));
    assert_eq!(m.len(), 1);
    m.leave_room_at(&RoomId::from_string("room_x"), &ClientId::from_string("A"), 3).unwrap();
    assert!(m.remove_if_empty(&RoomId::from_string("room_x")));
    assert_eq!(m.len(), 0);
}

#[test]
fn snapshot_round_trip_through_record() {
    let mut r = room("room_x");
    r.add_client_at(ClientId::from_string("A"), meta("A"), 1).unwrap();
    r.apply_client_message_at(&ClientId::from_string("A"), command("room_x", PresentationClientMessage::ChangeSlide { slide_index: 2 }), 2).unwrap();
    let record = r.to_record();
    assert_eq!(record.room_type, "presentation");
    let back = Presentation::from_record(record).unwrap();
    assert_eq!(back.id().as_str(), "room_x");
    assert_eq!(back.created_at(), 100);
    assert_eq!(back.storage().current_slide(), 2);
    assert_eq!(back.storage().slide_data(), r.storage().slide_data());
    assert!(back.is_empty());
}

#[test]
fn record_of_another_kind_is_refused() {
    let mut record = room("room_x").to_record();
    record.room_type = "video".to_string();
    assert!(matches!(Presentation::from_record(record), Err(RoomError::StorageError(StorageError::IncompatibleTypes))));
}

#[test]
fn manager_registry_errors() {
    let mut m: RoomManager<Presentation> = RoomManager::new();
    m.register_room(RoomId::from_string("r1"), room("r1")).unwrap();
    match m.register_room(RoomId::from_string("r1"), room("r1")) {
        Err(RoomError::RoomAlreadyExists(r)) => assert_eq!(r.as_str(), "r1"),
        other => panic!("unexpected {:?}", other),
    }
    assert!(matches!(m.get_room(&RoomId::from_string("r2")), Err(RoomError::RoomNotFound(_))));
    assert!(matches!(m.update_room(&RoomId::from_string("r2"), room("r2")), Err(RoomError::RoomNotFound(_))));
    assert!(m.update_room(&RoomId::from_string("r1"), room("r1")).is_ok());
    assert!(matches!(
        m.join_room_at(&RoomId::from_string("r2"), ClientId::from_string("A"), meta("A"), 1),
        Err(RoomError::RoomNotFound(_))
    ));
    m.join_room_at(&RoomId::from_string("r1"), ClientId::from_string("A"), meta("A"), 1).unwrap();
    assert!(matches!(
        m.join_room_at(&RoomId::from_string("r1"), ClientId::from_string("A"), meta("A"), 2),
        Err(RoomError::ClientAlreadyPresent(_))
    ));
    assert!(matches!(m.leave_room_at(&RoomId::from_string("r1"), &ClientId::from_string("B"), 3), Err(RoomError::ClientNotFound(_))));
    m.remove_room(&RoomId::from_string("r1"));
    m.remove_room(&RoomId::from_string("r1"));
    assert_eq!(m.len(), 0);
    assert_eq!(m.room_ids().len(), 0);
}

#[test]
fn clock_driven_calls_stamp_current_time() {
    let mut m = manager_with("room_x", &["A"]);
    let rid = RoomId::from_string("room_x");
    let calls = m.handle_client_message(&rid, &ClientId::from_string("A"), command("room_x", PresentationClientMessage::ChangeSlide { slide_index: 1 })).unwrap();
    match &calls[0] {
        BrokerCall::Broadcast { payload: BrokerPayload::Event(e), .. } => assert!(e.datetime > 1_600_000_000_000),
        other => panic!("unexpected {:?}", other),
    }
    let mut r = room("room_y");
    r.add_client(ClientId::from_string("B"), meta("B")).unwrap();
    assert!(r.last_activity_at() > 1_600_000_000_000);
    r.remove_client(&ClientId::from_string("B")).unwrap();
    assert!(r.is_empty());
}
