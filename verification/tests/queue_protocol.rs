use immortalis::queue::{ArchivalQueue, CollectionQueue};

#[test]
fn enqueue_is_idempotent() {
    let mut q = ArchivalQueue::new();
    assert!(q.enqueue("https://www.youtube.com/watch?v=a".to_string(), 100));
    assert!(!q.enqueue("https://www.youtube.com/watch?v=a".to_string(), 200));
    assert_eq!(q.rows().len(), 1);
    assert_eq!(q.rows()[0].url, "https://www.youtube.com/watch?v=a");
    assert_eq!(q.rows()[0].scheduled_at, 100);
    assert_eq!(q.rows()[0].not_before, 100);
}

#[test]
fn one_claim_per_cycle() {
    // One eligible row, several claimants in the same poll cycle: exactly
    // one wins, the others come back empty.
    let mut q = ArchivalQueue::new();
    q.enqueue("https://www.youtube.com/watch?v=a".to_string(), 100);
    let now = 101;
    let lease = 600;
    let first = q.claim(now, lease);
    assert!(first.is_some());
    assert_eq!(first.unwrap().url, "https://www.youtube.com/watch?v=a");
    assert!(q.claim(now, lease).is_none());
    assert!(q.claim(now, lease).is_none());
}

#[test]
fn lease_expiry_reclaims_work() {
    // A claimed row whose worker never completes becomes eligible again
    // after exactly the lease timeout, not before.
    let mut q = ArchivalQueue::new();
    q.enqueue("https://www.youtube.com/watch?v=a".to_string(), 100);
    let claimed = q.claim(101, 600).unwrap();
    assert_eq!(q.rows()[0].not_before, 101 + 600);
    // At the last instant of the lease the row is still protected.
    assert!(q.claim(701, 600).is_none());
    // One instant later it is claimable again, by anyone.
    let reclaimed = q.claim(702, 600);
    assert!(reclaimed.is_some());
    assert_eq!(reclaimed.unwrap().id, claimed.id);
}

#[test]
fn claim_returns_preclaim_data() {
    let mut q = ArchivalQueue::new();
    q.enqueue("https://www.youtube.com/watch?v=a".to_string(), 100);
    let row = q.claim(150, 600).unwrap();
    // The caller sees the row as it was before the lease was taken.
    assert_eq!(row.not_before, 100);
    assert_eq!(q.rows()[0].not_before, 750);
}

#[test]
fn backoff_on_failure_keeps_row() {
    let mut q = ArchivalQueue::new();
    q.enqueue("https://www.youtube.com/watch?v=a".to_string(), 100);
    let row = q.claim(101, 600).unwrap();
    assert!(q.apply_backoff(row.id, 101, 6000));
    assert_eq!(q.rows().len(), 1);
    assert_eq!(q.rows()[0].not_before, 101 + 6000);
    // A backoff for a row that is gone is a no-op.
    assert!(!q.apply_backoff(row.id + 1, 101, 6000));
}

#[test]
fn complete_deletes_idempotently() {
    let mut q = ArchivalQueue::new();
    q.enqueue("https://www.youtube.com/watch?v=a".to_string(), 100);
    q.enqueue("https://www.youtube.com/watch?v=b".to_string(), 100);
    let row = q.claim(101, 600).unwrap();
    assert!(q.complete(row.id));
    assert_eq!(q.rows().len(), 1);
    // Deleting the same row again, as a stale worker would, is a no-op.
    assert!(!q.complete(row.id));
    assert_eq!(q.rows().len(), 1);
}

#[test]
fn collection_queue_claims_by_last_checked() {
    let mut q = CollectionQueue::new();
    assert!(q.enqueue("https://www.youtube.com/@test".to_string(), 50));
    assert!(!q.enqueue("https://www.youtube.com/@test".to_string(), 60));
    assert_eq!(q.rows().len(), 1);
    assert_eq!(q.rows()[0].last_checked, None);
    // A never-checked collection is claimable at once.
    let claimed = q.claim(100, 600).unwrap();
    assert_eq!(claimed.url, "https://www.youtube.com/@test");
    assert_eq!(q.rows()[0].last_checked, Some(700));
    // Under lease nothing is claimable; after expiry it comes back.
    assert!(q.claim(100, 600).is_none());
    assert!(q.claim(700, 600).is_none());
    assert!(q.claim(701, 600).is_some());
    // Collections are never deleted by the protocol.
    assert_eq!(q.rows().len(), 1);
}
