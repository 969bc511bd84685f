use remit_core::consumer::plan_dispatch;
use remit_core::consumer::FileEventConsumer;
use remit_core::consumer::LoopPhase;
use remit_core::events::FileAction;
use remit_core::events::FileEvent;
use remit_core::system_path::SystemPath;
use remit_core::tracker::DirectoryTracker;
use remit_core::watcher::classify_poll;
use remit_core::watcher::collect_events;
use remit_core::watcher::decode_notifications;
use remit_core::watcher::utf16_to_string;
use remit_core::watcher::watcher_step;
use remit_core::watcher::PollStatus;
use remit_core::watcher::WatcherStep;
use remit_core::ThreadStatus;

fn put_u32(buf: &mut Vec<u8>, off: usize, v: u32) {
    let b = v.to_le_bytes();
    buf[off] = b[0];
    buf[off + 1] = b[1];
    buf[off + 2] = b[2];
    buf[off + 3] = b[3];
}

/// Writes one notification record at `off` and returns the offset just past
/// its name.
fn write_record(buf: &mut Vec<u8>, off: usize, next: u32, action: u32, name: &str) -> usize {
    let units: Vec<u16> = name.encode_utf16().collect();
    put_u32(buf, off, next);
    put_u32(buf, off + 4, action);
    put_u32(buf, off + 8, (units.len() * 2) as u32);
    let mut p = off + 12;
    for u in units {
        let b = u.to_le_bytes();
        buf[p] = b[0];
        buf[p + 1] = b[1];
        p += 2;
    }
    p
}

fn path_of(s: &str) -> SystemPath {
    let mut p = SystemPath::new();
    p.set_path(s.to_string());
    p
}

#[test]
fn decode_single_modified_record() {
    let mut buf = vec![0u8; 2048];
    write_record(&mut buf, 0, 0, 3, "report.csv");
    let records = decode_notifications(&buf, 64);
    assert_eq!(records.len(), 1);
    assert_eq!(records[0].action_code(), 3);
    assert_eq!(records[0].name().as_str(), "report.csv");
}

#[test]
fn decode_skips_action_zero_and_follows_chain() {
    let mut buf = vec![0u8; 2048];
    write_record(&mut buf, 0, 64, 0, "ignored.txt");
    write_record(&mut buf, 64, 96, 1, "new.txt");
    write_record(&mut buf, 160, 0, 2, "gone.txt");
    // the second record's offset points at 64 + 96 = 160
    let records = decode_notifications(&buf, 200);
    assert_eq!(records.len(), 2);
    assert_eq!(records[0].action_code(), 1);
    assert_eq!(records[0].name().as_str(), "new.txt");
    assert_eq!(records[1].action_code(), 2);
    assert_eq!(records[1].name().as_str(), "gone.txt");
}

#[test]
fn decode_without_data_yields_nothing() {
    let mut buf = vec![0u8; 2048];
    write_record(&mut buf, 0, 0, 3, "report.csv");
    assert_eq!(decode_notifications(&buf, 0).len(), 0);
}

#[test]
fn decode_stops_at_truncated_record() {
    let mut buf = vec![0u8; 16];
    // claims a 200-byte name that does not fit
    put_u32(&mut buf, 0, 0);
    put_u32(&mut buf, 4, 3);
    put_u32(&mut buf, 8, 200);
    assert_eq!(decode_notifications(&buf, 16).len(), 0);
}

#[test]
fn utf16_decoding_handles_pairs_and_lone_surrogates() {
    let plain: Vec<u16> = "grüße.txt".encode_utf16().collect();
    assert_eq!(utf16_to_string(&plain), "grüße.txt");
    let paired: Vec<u16> = "🗁".encode_utf16().collect();
    assert_eq!(paired.len(), 2);
    assert_eq!(utf16_to_string(&paired), "🗁");
    let lone: Vec<u16> = vec![0xD800u16, 'a' as u16];
    assert_eq!(utf16_to_string(&lone), "\u{FFFD}a");
}

// Watching root `/data` with remote root `/srv/data`: one Modified record for
// `report.csv` becomes one event with both full paths, and the next consumer
// tick plans exactly one upload of that file between those directories.
#[test]
fn modified_record_becomes_one_upload() {
    let mut buf = vec![0u8; 2048];
    write_record(&mut buf, 0, 0, 3, "report.csv");
    let local_root = path_of("/data");
    let remote_root = path_of("/srv/data");
    let events = collect_events(&buf, 64, &local_root, &remote_root);
    assert_eq!(events.len(), 1);
    assert!(matches!(events[0].action(), FileAction::Modified));
    assert_eq!(events[0].local_path().as_str(), "/data/report.csv");
    assert_eq!(events[0].remote_path().as_str(), "/srv/data/report.csv");

    let mut consumer = FileEventConsumer::new();
    consumer.start();
    for e in events {
        consumer.add_event(e);
    }
    let (batch, phase) = consumer.tick(LoopPhase::Running);
    assert!(matches!(phase, LoopPhase::Running));
    assert_eq!(batch.len(), 1);

    let mut uploads: Vec<(String, String, String)> = Vec::new();
    for e in &batch {
        if let Some(req) = plan_dispatch(e, Some(false)) {
            uploads.push((req.local_dir.get_path(), req.remote_dir.get_path(), req.filename));
        }
    }
    assert_eq!(
        uploads,
        vec![("/data".to_string(), "/srv/data".to_string(), "report.csv".to_string())]
    );
}

// A Removed record is decoded into an event but never reaches dispatch: the
// consumer filters it out.
#[test]
fn removed_record_is_filtered_before_dispatch() {
    let mut buf = vec![0u8; 2048];
    write_record(&mut buf, 0, 0, 2, "old.txt");
    let local_root = path_of("/data");
    let remote_root = path_of("/srv/data");
    let events = collect_events(&buf, 64, &local_root, &remote_root);
    assert_eq!(events.len(), 1);
    assert!(matches!(events[0].action(), FileAction::Removed));
    assert_eq!(events[0].local_path().as_str(), "/data/old.txt");
    assert!(plan_dispatch(&events[0], Some(false)).is_none());
}

#[test]
fn directory_events_and_unreadable_entries_are_filtered() {
    let e = FileEvent::new(
        FileAction::Modified,
        "/data/subdir".to_string(),
        "/srv/data/subdir".to_string(),
    );
    assert!(plan_dispatch(&e, Some(true)).is_none());
    assert!(plan_dispatch(&e, None).is_none());
    assert!(plan_dispatch(&e, Some(false)).is_some());
}

// A batch of five where dispatch fails on the third: all five are still
// attempted, each exactly once — the batch is decided before any dispatch
// outcome is known.
#[test]
fn dispatch_failure_does_not_stop_the_batch() {
    let mut consumer = FileEventConsumer::new();
    consumer.start();
    for name in ["one", "two", "three", "four", "five"] {
        consumer.add_event(FileEvent::new(
            FileAction::Added,
            format!("/data/{}", name),
            format!("/srv/data/{}", name),
        ));
    }
    let (batch, _) = consumer.tick(LoopPhase::Running);
    assert_eq!(batch.len(), 5);
    let mut attempts: Vec<String> = Vec::new();
    let mut failures = 0;
    for (i, e) in batch.iter().enumerate() {
        if let Some(req) = plan_dispatch(e, Some(false)) {
            attempts.push(req.filename);
            let dispatch_succeeded = i != 2;
            if !dispatch_succeeded {
                // the failed event is dropped, not retried; the loop goes on
                failures += 1;
            }
        }
    }
    assert_eq!(failures, 1);
    let mut sorted = attempts.clone();
    sorted.sort();
    sorted.dedup();
    assert_eq!(attempts.len(), 5);
    assert_eq!(sorted.len(), 5);
}

// Once a loop observes Kill it exits, and setting the flag back to Resume
// does not resurrect the exited loop instance.
#[test]
fn kill_is_terminal_for_a_loop() {
    let mut consumer = FileEventConsumer::new();
    consumer.add_event(FileEvent::new(
        FileAction::Added,
        "/data/a".to_string(),
        "/srv/data/a".to_string(),
    ));
    consumer.end();
    let (batch, phase) = consumer.tick(LoopPhase::Running);
    assert_eq!(batch.len(), 0);
    assert!(matches!(phase, LoopPhase::Exited));
    // the flag goes back to Resume, but the exited loop stays exited
    consumer.start();
    let (batch2, phase2) = consumer.tick(LoopPhase::Exited);
    assert_eq!(batch2.len(), 0);
    assert!(matches!(phase2, LoopPhase::Exited));
    // the event was never handed out
    assert_eq!(consumer.get_data_reference().len(), 1);
}

#[test]
fn paused_consumer_drains_nothing() {
    let mut consumer = FileEventConsumer::new();
    consumer.add_event(FileEvent::new(
        FileAction::Added,
        "/data/a".to_string(),
        "/srv/data/a".to_string(),
    ));
    let (batch, phase) = consumer.tick(LoopPhase::Running);
    assert_eq!(batch.len(), 0);
    assert!(matches!(phase, LoopPhase::Running));
    assert_eq!(consumer.get_data_reference().len(), 1);
}

#[test]
fn watcher_steps_follow_control_and_poll() {
    assert!(matches!(
        watcher_step(ThreadStatus::Kill, true, PollStatus::NotReady),
        WatcherStep::Exit
    ));
    assert!(matches!(
        watcher_step(ThreadStatus::Pause, false, PollStatus::NotReady),
        WatcherStep::Idle
    ));
    assert!(matches!(
        watcher_step(ThreadStatus::Resume, false, PollStatus::NotReady),
        WatcherStep::IssueRequest
    ));
    assert!(matches!(
        watcher_step(ThreadStatus::Resume, true, PollStatus::NotReady),
        WatcherStep::KeepWaiting
    ));
    assert!(matches!(
        watcher_step(ThreadStatus::Resume, true, PollStatus::Complete),
        WatcherStep::ProcessBuffer
    ));
    assert!(matches!(
        watcher_step(ThreadStatus::Resume, true, PollStatus::Failed(5)),
        WatcherStep::Fail(5)
    ));
}

#[test]
fn poll_classification() {
    assert!(matches!(classify_poll(true, 0), PollStatus::Complete));
    assert!(matches!(classify_poll(false, 996), PollStatus::NotReady));
    assert!(matches!(classify_poll(false, 5), PollStatus::Failed(5)));
}

// Stopping with three events queued and never drained leaves an empty queue
// and makes zero dispatch calls.
#[test]
fn stop_tracking_discards_queued_events() {
    let mut tracker = DirectoryTracker::new(path_of("/data"));
    assert!(!tracker.tracking_active());
    let watch = path_of("/data");
    tracker.start_tracking(&watch);
    assert!(tracker.tracking_active());
    for name in ["a", "b", "c"] {
        tracker.consumer_mut().add_event(FileEvent::new(
            FileAction::Added,
            format!("/data/{}", name),
            format!("/srv/data/{}", name),
        ));
    }
    assert_eq!(tracker.consumer_mut().get_data_reference().len(), 3);
    tracker.stop_tracking();
    assert!(matches!(tracker.watcher_status(), ThreadStatus::Kill));
    assert_eq!(tracker.consumer_mut().get_data_reference().len(), 0);
    // the paused consumer's next tick dispatches nothing
    let (batch, _) = tracker.consumer_mut().tick(LoopPhase::Running);
    assert_eq!(batch.len(), 0);
    // the watcher loop reports its exit; only then may a new watch start
    tracker.watcher_exited();
    assert!(!tracker.tracking_active());
    tracker.start_tracking(&watch);
    assert!(tracker.tracking_active());
}
