use view_state::collection::{same_snapshot, Collection};
use view_state::page::CollectionId;
use view_state::sync::{
    startup_snapshot, CollectionSyncLoop, SyncAction, SyncEvent, SyncPhase, DEFAULT_INTERVAL_MS,
};

fn collection(id: &str, content: &[u8]) -> Collection {
    Collection { id: CollectionId(id.to_string()), content: content.to_vec() }
}

fn xyz() -> Vec<Collection> {
    vec![collection("x", b"1"), collection("y", b"2"), collection("z", b"3")]
}

#[test]
fn the_default_interval_is_half_a_second() {
    assert_eq!(DEFAULT_INTERVAL_MS, 500);
}

#[test]
fn snapshots_are_compared_by_value() {
    assert!(same_snapshot(&xyz(), &xyz()));
    assert!(same_snapshot(&Vec::new(), &Vec::new()));
    assert!(!same_snapshot(&xyz(), &Vec::new()));
    let mut shorter = xyz();
    shorter.pop();
    assert!(!same_snapshot(&xyz(), &shorter));
    let mut reordered = xyz();
    reordered.swap(0, 1);
    assert!(!same_snapshot(&xyz(), &reordered));
    let mut other_content = xyz();
    other_content[2].content = b"4".to_vec();
    assert!(!same_snapshot(&xyz(), &other_content));
    let mut other_id = xyz();
    other_id[0].id = CollectionId("w".to_string());
    assert!(!same_snapshot(&xyz(), &other_id));
}

#[test]
fn collections_are_equal_by_identifier_and_content() {
    assert_eq!(collection("x", b"1"), collection("x", b"1"));
    assert_ne!(collection("x", b"1"), collection("x", b"2"));
    assert_ne!(collection("x", b"1"), collection("y", b"1"));
    assert_eq!(collection("x", b"1").get_collection_id(), CollectionId("x".to_string()));
}

#[test]
fn a_failed_scan_starts_with_no_collection() {
    assert!(startup_snapshot(None).is_empty());
    assert_eq!(startup_snapshot(Some(xyz())), xyz());
    let sync = CollectionSyncLoop::new(None, DEFAULT_INTERVAL_MS);
    assert!(sync.collections().is_empty());
    assert!(!sync.has_observed());
    assert_eq!(sync.phase(), SyncPhase::Idle);
    assert_eq!(sync.interval_ms(), 500);
}

#[test]
fn the_scan_seeds_the_published_list() {
    let sync = CollectionSyncLoop::new(Some(xyz()), 250);
    assert_eq!(*sync.collections(), xyz());
    assert!(!sync.has_observed());
    assert_eq!(sync.interval_ms(), 250);
}

#[test]
fn waking_up_asks_for_a_read() {
    let mut sync = CollectionSyncLoop::new(Some(xyz()), 500);
    assert_eq!(sync.step(SyncEvent::Wake), SyncAction::Read);
    assert_eq!(sync.phase(), SyncPhase::Polling);
    assert_eq!(*sync.collections(), xyz());
    assert!(!sync.has_observed());
}

#[test]
fn the_first_answer_is_published() {
    let mut sync = CollectionSyncLoop::new(None, 500);
    sync.step(SyncEvent::Wake);
    assert_eq!(sync.step(SyncEvent::Snapshot(Vec::new())), SyncAction::PublishThenSleep(500));
    assert!(sync.has_observed());
    assert_eq!(sync.phase(), SyncPhase::Idle);
    assert!(sync.collections().is_empty());
}

#[test]
fn equal_answers_are_published_once() {
    let mut sync = CollectionSyncLoop::new(None, 500);
    sync.step(SyncEvent::Wake);
    assert_eq!(sync.step(SyncEvent::Snapshot(xyz())), SyncAction::PublishThenSleep(500));
    sync.step(SyncEvent::Wake);
    assert_eq!(sync.step(SyncEvent::Snapshot(xyz())), SyncAction::Sleep(500));
    assert_eq!(*sync.collections(), xyz());
    sync.step(SyncEvent::Wake);
    assert_eq!(sync.step(SyncEvent::Snapshot(xyz())), SyncAction::Sleep(500));
    assert_eq!(*sync.collections(), xyz());
}

#[test]
fn a_changed_answer_replaces_the_published_list() {
    let mut sync = CollectionSyncLoop::new(Some(xyz()), 125);
    sync.step(SyncEvent::Wake);
    sync.step(SyncEvent::Snapshot(xyz()));
    let mut changed = xyz();
    changed[1].content = b"changed".to_vec();
    sync.step(SyncEvent::Wake);
    assert_eq!(
        sync.step(SyncEvent::Snapshot(changed.clone())),
        SyncAction::PublishThenSleep(125)
    );
    assert_eq!(*sync.collections(), changed);
    sync.step(SyncEvent::Wake);
    assert_eq!(sync.step(SyncEvent::Snapshot(xyz())), SyncAction::PublishThenSleep(125));
    assert_eq!(*sync.collections(), xyz());
}

#[test]
fn a_failed_read_keeps_the_list_and_waits() {
    let mut sync = CollectionSyncLoop::new(None, 500);
    sync.step(SyncEvent::Wake);
    sync.step(SyncEvent::Snapshot(xyz()));
    sync.step(SyncEvent::Wake);
    assert_eq!(sync.step(SyncEvent::ReadFailed), SyncAction::Sleep(500));
    assert_eq!(sync.phase(), SyncPhase::Idle);
    assert_eq!(*sync.collections(), xyz());
    sync.step(SyncEvent::Wake);
    assert_eq!(sync.step(SyncEvent::Snapshot(xyz())), SyncAction::Sleep(500));
}

#[test]
fn a_failed_first_read_leaves_the_first_answer_to_publish() {
    let mut sync = CollectionSyncLoop::new(Some(xyz()), 500);
    sync.step(SyncEvent::Wake);
    assert_eq!(sync.step(SyncEvent::ReadFailed), SyncAction::Sleep(500));
    assert!(!sync.has_observed());
    sync.step(SyncEvent::Wake);
    assert_eq!(sync.step(SyncEvent::Snapshot(xyz())), SyncAction::PublishThenSleep(500));
    assert!(sync.has_observed());
}
