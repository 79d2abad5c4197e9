use ws_server::crdt::{GCounter, LWWElementSet};
use ws_server::events::{PresentationCommand, PresentationEvent, RoomCommandLike, RoomEventLike, Video, VideoEvent};
use ws_server::ids::{RoomId, RoomIdError};
use ws_server::message::{ClientMessageTypeLike, PresentationClientMessage, ServerMessageType, ServerMessageTypeLike};
use ws_server::presence::{Cursor, PresenceLike, PresenceUpdate, PresentationPresence};
use ws_server::search::{join, TextSearchIndexConfig};
use ws_server::storage::{PresentationStorage, StorageError, StorageLike, StorageSnapshot};
use ws_server::transaction::{Transaction, TransactionManager};

fn slides(texts: &[&str]) -> Vec<String> {
    texts.iter().map(|t| t.to_string()).collect()
}

#[test]
fn new_room_id_has_prefix_and_uuid() {
    let a = RoomId::new();
    let b = RoomId::new();
    assert!(a.as_str().starts_with("room_"));
    assert_eq!(a.as_str().len(), 41);
    assert_ne!(a.as_str(), b.as_str());
}

#[test]
fn room_id_string_round_trip() {
    let id = RoomId::from_string("room_x");
    assert_eq!(id.as_str(), "room_x");
    assert_eq!(id.into_string(), "room_x");
    assert_eq!(RoomId::try_from("org:room".to_string()).unwrap().as_str(), "org:room");
    assert!(matches!(RoomId::try_from(String::new()), Err(RoomIdError::Empty)));
    assert!(matches!(RoomId::try_from("a b".to_string()), Err(RoomIdError::NotPrintable)));
}

#[test]
fn presence_update_reports_change() {
    let mut p = PresentationPresence::default_state();
    assert!(p.update(PresenceUpdate { cursor: Some(Some(Cursor { x: 10, y: 20 })) }, 50));
    assert_eq!(p.last_updated(), 50);
    assert!(!p.update(PresenceUpdate { cursor: Some(Some(Cursor { x: 10, y: 20 })) }, 60));
    assert_eq!(p.last_updated(), 50);
    assert!(!p.update(PresenceUpdate { cursor: None }, 70));
    assert!(p.update(PresenceUpdate { cursor: Some(None) }, 40));
    assert_eq!(p.to_network_format(), None);
    assert_eq!(p.last_updated(), 50);
}

#[test]
fn presence_merge_takes_newer_cursor() {
    let mut p = PresentationPresence { cursor: Some(Cursor { x: 1, y: 1 }), last_updated: 10 };
    let older = PresentationPresence { cursor: Some(Cursor { x: 9, y: 9 }), last_updated: 5 };
    assert!(!p.merge(&older));
    let newer = PresentationPresence { cursor: Some(Cursor { x: 3, y: 4 }), last_updated: 20 };
    assert!(p.merge(&newer));
    assert_eq!(p, newer);
    assert_eq!(p.presence_type_id(), "presentation");
}

#[test]
fn diff_then_apply_gives_target() {
    let a = PresentationStorage::new(0, slides(&["s1", "s2"]));
    let b = PresentationStorage::new(1, slides(&["s1", "s2b", "s3"]));
    let d = a.diff(&b);
    assert_eq!(d.base_slide_count, 2);
    assert_eq!(d.current_slide, Some(1));
    let mut c = a.duplicate();
    c.apply_diff(&d).unwrap();
    assert_eq!(c.current_slide(), 1);
    assert_eq!(c.slide_data(), b.slide_data());
    let same = a.diff(&a);
    assert!(same.current_slide.is_none() && same.slide_data.is_none());
}

#[test]
fn apply_diff_for_other_base_is_refused() {
    let a = PresentationStorage::new(0, slides(&["s1"]));
    let b = PresentationStorage::new(2, slides(&["s1", "s2", "s3"]));
    let d = b.diff(&a);
    let mut c = a.duplicate();
    assert!(matches!(c.apply_diff(&d), Err(StorageError::ApplyDiffError(_))));
    assert_eq!(c.current_slide(), 0);
}

#[test]
fn snapshot_then_restore_is_identity() {
    let s = PresentationStorage::new(3, slides(&["a", "b", "c", "d"]));
    let snap = s.snapshot();
    assert_eq!(snap.storage_type, "presentation");
    let back = PresentationStorage::from_snapshot(snap).unwrap();
    assert_eq!(back.current_slide(), 3);
    assert_eq!(back.slide_data(), s.slide_data());
    assert_eq!(s.storage_type_id(), "presentation");
}

#[test]
fn restore_of_other_kind_is_refused() {
    let snap = StorageSnapshot { storage_type: "crdt-map".to_string(), current_slide: 0, slide_data: vec![] };
    assert!(matches!(PresentationStorage::from_snapshot(snap), Err(StorageError::IncompatibleTypes)));
}

#[test]
fn merge_requires_same_slides() {
    let mut a = PresentationStorage::new(0, slides(&["x"]));
    let b = PresentationStorage::new(4, slides(&["x"]));
    assert_eq!(a.merge(&b), Ok(true));
    assert_eq!(a.current_slide(), 4);
    assert_eq!(a.merge(&b), Ok(false));
    let c = PresentationStorage::new(4, slides(&["y"]));
    assert!(matches!(a.merge(&c), Err(StorageError::MergeConflict(_))));
}

fn entry(n: u64) -> Transaction<u64> {
    Transaction { id: format!("t{}", n), client_id: "A".to_string(), timestamp: n, msg: n }
}

#[test]
fn history_evicts_oldest_beyond_max() {
    let mut log: TransactionManager<u64> = TransactionManager::new(3);
    for n in 0..4 {
        log.add_transaction(entry(n));
    }
    let h = log.get_history();
    assert_eq!(h.len(), 3);
    assert_eq!(h[0].msg, 1);
    assert_eq!(h[2].msg, 3);
}

#[test]
fn push_clears_undone() {
    let mut log: TransactionManager<u64> = TransactionManager::new(5);
    log.add_transaction(entry(1));
    log.add_transaction(entry(2));
    assert_eq!(log.undo().unwrap().msg, 2);
    log.add_transaction(entry(3));
    assert!(log.redo().is_none());
    assert_eq!(log.get_history().len(), 2);
}

#[test]
fn undo_then_redo() {
    let mut log: TransactionManager<u64> = TransactionManager::new(5);
    assert!(log.undo().is_none());
    log.add_transaction(entry(1));
    assert_eq!(log.undo().unwrap().msg, 1);
    assert!(log.get_history().is_empty());
    assert_eq!(log.redo().unwrap().msg, 1);
    assert_eq!(log.get_history().len(), 1);
    assert!(log.redo().is_none());
}

#[test]
fn new_transaction_is_stamped() {
    let t = Transaction::new("A".to_string(), 7u64);
    assert_eq!(t.id.len(), 36);
    assert_eq!(t.client_id, "A");
    assert_eq!(t.msg, 7);
    assert!(t.timestamp > 1_600_000_000_000);
}

#[test]
fn gcounter_sums_and_merges() {
    let mut a = GCounter::new();
    assert_eq!(a.value(), 0);
    a.increment("x", 3);
    a.increment("y", 4);
    a.increment("x", 2);
    assert_eq!(a.value(), 9);
    let mut b = GCounter::new();
    b.increment("x", 1);
    b.increment("z", 10);
    a.merge(&b);
    assert_eq!(a.value(), 5 + 4 + 10);
}

#[test]
fn lww_set_add_remove_merge() {
    let mut s = LWWElementSet::new();
    s.add("a".to_string(), 1);
    s.add("b".to_string(), 1);
    s.remove("a".to_string(), 2);
    assert!(!s.contains("a"));
    assert!(s.contains("b"));
    assert!(!s.contains("c"));
    s.remove("b".to_string(), 1);
    assert!(s.contains("b"));
    assert!(s.elements().is_empty());
    let mut t = LWWElementSet::new();
    t.add("a".to_string(), 5);
    s.merge(&t);
    assert!(s.contains("a"));
    assert_eq!(s.elements(), vec!["a".to_string()]);
}

#[test]
fn analyzer_query_text() {
    let c = TextSearchIndexConfig::default();
    assert_eq!(c.build_analyzer_query(), "DEFINE ANALYZER text_analyzer TOKENIZERS blank FILTERS lowercase, snowball(english)");
}

#[test]
fn index_query_text() {
    let mut c = TextSearchIndexConfig::default();
    assert_eq!(
        c.build_index_query("posts", "body"),
        "DEFINE INDEX idx_posts_body \n            ON posts \n            FIELDS body\n            SEARCH ANALYZER text_analyzer BM25 HIGHLIGHTS"
    );
    c.enable_highlights = false;
    assert!(c.build_index_query("t", "f").ends_with("BM25 "));
}

#[test]
fn join_separates_parts() {
    assert_eq!(join(&vec![], ", "), "");
    assert_eq!(join(&vec!["a"], ", "), "a");
    assert_eq!(join(&vec!["a", "b", "c"], "-"), "a-b-c");
}

#[test]
fn message_names() {
    assert_eq!(PresentationClientMessage::ChangeSlide { slide_index: 1 }.name(), "ChangeSlide");
    assert_eq!(PresentationClientMessage::Unknown.name(), "Unknown");
    assert_eq!(ServerMessageType::SlideChanged { slide_index: 1 }.name(), "SlideChanged");
    assert_eq!(ServerMessageType::Notification.name(), "Notification");
    assert_eq!(PresentationEvent::SlideChanged { slide_index: 2 }.event_name(), "SlideChanged");
    assert_eq!(VideoEvent::VideoStarted.event_name(), "VideoStarted");
    assert_eq!(PresentationCommand::command_name(), "presentation");
}

#[test]
fn video_room_holds_its_fields() {
    let v = Video::new(RoomId::from_string("v1"), "s1".to_string(), "https://media.example/v.mp4".to_string());
    assert_eq!(v.room_id.as_str(), "v1");
    assert_eq!(v.video_url, "https://media.example/v.mp4");
}
