use gm_master::transfer::{
    percent, ChunkOutcome, DownloadProgress, DownloadSession, TransferStatus, TransferTracker,
};

fn ids(list: &[DownloadProgress]) -> Vec<String> {
    let mut v: Vec<String> = list.iter().map(|p| p.trainer_id.clone()).collect();
    v.sort();
    v
}

#[test]
fn percentages_are_whole_and_capped() {
    assert_eq!(percent(0, None), 0);
    assert_eq!(percent(500, None), 0);
    assert_eq!(percent(50, Some(200)), 25);
    assert_eq!(percent(199, Some(200)), 99);
    assert_eq!(percent(200, Some(200)), 100);
    assert_eq!(percent(300, Some(200)), 100);
    assert_eq!(percent(u64::MAX - 1, Some(u64::MAX)), 99);
}

#[test]
fn active_transfers_are_exactly_the_unfinished_ones() {
    let mut tracker = TransferTracker::new();
    let (a, _) = DownloadSession::begin(&mut tracker, "a", Some(10), 0);
    let (b, _) = DownloadSession::begin(&mut tracker, "b", None, 0);
    let (_c, _) = DownloadSession::begin(&mut tracker, "c", Some(5), 0);
    assert_eq!(ids(&tracker.get_active_downloads()), vec!["a", "b", "c"]);
    a.finish(&mut tracker);
    assert_eq!(ids(&tracker.get_active_downloads()), vec!["b", "c"]);
    assert!(tracker.cancel_download("c"));
    assert!(!tracker.cancel_download("c"));
    assert_eq!(ids(&tracker.get_active_downloads()), vec!["b"]);
    b.fail(&mut tracker);
    assert!(tracker.get_active_downloads().is_empty());
}

#[test]
fn registering_an_id_again_replaces_its_entry() {
    let mut tracker = TransferTracker::new();
    DownloadSession::begin(&mut tracker, "a", Some(10), 0);
    DownloadSession::begin(&mut tracker, "a", Some(20), 5);
    let list = tracker.get_active_downloads();
    assert_eq!(list.len(), 1);
    assert_eq!(list[0].total_bytes, Some(20));
}

#[test]
fn clearing_reports_how_many_were_dropped() {
    let mut tracker = TransferTracker::new();
    DownloadSession::begin(&mut tracker, "a", None, 0);
    DownloadSession::begin(&mut tracker, "b", None, 0);
    assert_eq!(tracker.clear_all_downloads(), 2);
    assert_eq!(tracker.clear_all_downloads(), 0);
    assert!(!tracker.contains("a"));
}

#[test]
fn first_snapshot_is_registered_with_zero_bytes() {
    let mut tracker = TransferTracker::new();
    let (s, first) = DownloadSession::begin(&mut tracker, "t1", Some(1000), 42);
    assert_eq!(first.trainer_id, "t1");
    assert_eq!(first.progress, 0);
    assert_eq!(first.downloaded_bytes, 0);
    assert_eq!(first.total_bytes, Some(1000));
    assert_eq!(first.status, TransferStatus::Downloading);
    assert_eq!(first.speed, None);
    assert_eq!(tracker.get_active_downloads(), vec![first]);
    assert_eq!(s.last_notify_ms, 42);
}

#[test]
fn snapshots_are_published_at_most_every_200_ms() {
    let mut tracker = TransferTracker::new();
    let (mut s, _) = DownloadSession::begin(&mut tracker, "t", Some(1000), 0);
    assert_eq!(s.on_chunk(&mut tracker, 100, 50), ChunkOutcome::Continue);
    assert_eq!(s.on_chunk(&mut tracker, 100, 199), ChunkOutcome::Continue);
    match s.on_chunk(&mut tracker, 100, 200) {
        ChunkOutcome::Publish(p) => {
            assert_eq!(p.downloaded_bytes, 300);
            assert_eq!(p.progress, 30);
            assert_eq!(p.speed, None);
            assert_eq!(tracker.get_active_downloads(), vec![p]);
        }
        other => panic!("expected a snapshot, got {:?}", other),
    }
    assert_eq!(s.on_chunk(&mut tracker, 100, 300), ChunkOutcome::Continue);
    assert_eq!(s.downloaded_bytes, 400);
}

#[test]
fn speed_is_measured_once_a_second() {
    let mut tracker = TransferTracker::new();
    let (mut s, _) = DownloadSession::begin(&mut tracker, "t", None, 0);
    match s.on_chunk(&mut tracker, 2048, 1000) {
        ChunkOutcome::Publish(p) => {
            assert_eq!(p.speed, Some(2));
            assert_eq!(p.progress, 0);
        }
        other => panic!("expected a snapshot, got {:?}", other),
    }
    assert_eq!(s.last_speed_bytes, 2048);
    match s.on_chunk(&mut tracker, 10240, 1500) {
        ChunkOutcome::Publish(p) => assert_eq!(p.speed, None),
        other => panic!("expected a snapshot, got {:?}", other),
    }
    match s.on_chunk(&mut tracker, 0, 3000) {
        ChunkOutcome::Publish(p) => assert_eq!(p.speed, Some(5)),
        other => panic!("expected a snapshot, got {:?}", other),
    }
}

#[test]
fn a_cancelled_transfer_stops_at_its_next_chunk() {
    let mut tracker = TransferTracker::new();
    let (mut s, _) = DownloadSession::begin(&mut tracker, "t", Some(100), 0);
    assert!(tracker.cancel_download("t"));
    assert_eq!(s.on_chunk(&mut tracker, 10, 500), ChunkOutcome::Cancelled);
    assert_eq!(s.downloaded_bytes, 0);
}

#[test]
fn finishing_publishes_a_complete_snapshot_and_unregisters() {
    let mut tracker = TransferTracker::new();
    let (mut s, _) = DownloadSession::begin(&mut tracker, "t", None, 0);
    s.on_chunk(&mut tracker, 77, 10);
    let done = s.finish(&mut tracker);
    assert_eq!(done.status, TransferStatus::Completed);
    assert_eq!(done.progress, 100);
    assert_eq!(done.downloaded_bytes, 77);
    assert!(!tracker.contains("t"));
    assert_eq!(TransferStatus::Completed.as_str(), "completed");
}
