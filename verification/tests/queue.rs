use remit_core::events::EventQueue;
use remit_core::events::FileAction;
use remit_core::events::FileEvent;

fn event(name: &str) -> FileEvent {
    FileEvent::new(
        FileAction::Modified,
        format!("/data/{}", name),
        format!("/srv/data/{}", name),
    )
}

fn names(batch: &Vec<FileEvent>) -> Vec<String> {
    let mut r = Vec::new();
    for e in batch {
        r.push(e.local_path().clone());
    }
    r
}

#[test]
fn drain_with_room_returns_everything_and_empties() {
    let mut q = EventQueue::new();
    q.push(event("a"));
    q.push(event("b"));
    q.push(event("c"));
    let batch = q.drain_batch(10);
    // the same three events come back, merely in popped order
    let mut got = names(&batch);
    got.sort();
    assert_eq!(got, vec!["/data/a".to_string(), "/data/b".to_string(), "/data/c".to_string()]);
    assert_eq!(q.len(), 0);
    // a second drain finds nothing
    assert_eq!(q.drain_batch(10).len(), 0);
}

#[test]
fn drain_partial_pops_most_recent_first() {
    let mut q = EventQueue::new();
    q.push(event("a"));
    q.push(event("b"));
    q.push(event("c"));
    q.push(event("d"));
    let batch = q.drain_batch(2);
    assert_eq!(names(&batch), vec!["/data/d".to_string(), "/data/c".to_string()]);
    // the remainder stays, oldest first
    assert_eq!(q.len(), 2);
    let rest = q.drain_batch(2);
    assert_eq!(names(&rest), vec!["/data/b".to_string(), "/data/a".to_string()]);
}

#[test]
fn drain_zero_takes_nothing() {
    let mut q = EventQueue::new();
    q.push(event("a"));
    let batch = q.drain_batch(0);
    assert_eq!(batch.len(), 0);
    assert_eq!(q.len(), 1);
}

#[test]
fn clear_discards_without_returning() {
    let mut q = EventQueue::new();
    q.push(event("a"));
    q.push(event("b"));
    q.clear();
    assert_eq!(q.len(), 0);
    assert_eq!(q.drain_batch(5).len(), 0);
}

#[test]
fn event_fields_are_kept() {
    let e = FileEvent::new(
        FileAction::Added,
        "/data/x.txt".to_string(),
        "/srv/data/x.txt".to_string(),
    );
    assert!(matches!(e.action(), FileAction::Added));
    assert_eq!(e.local_path().as_str(), "/data/x.txt");
    assert_eq!(e.remote_path().as_str(), "/srv/data/x.txt");
}
