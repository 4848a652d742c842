use immortalis::queue::{ArchivalQueue, CollectionQueue};
use immortalis::records::{InsertableVideo, SimpleDate, VideoStatus};
use immortalis::store::Archive;
use immortalis::tracker::{
    TrackerAction, TrackerEvent, TrackerState, ingest_discovered, process_discovered_url,
    tracker_step,
};

fn known_video(url: &str) -> InsertableVideo {
    InsertableVideo {
        title: "t".to_string(),
        channel: "c".to_string(),
        views: 1,
        upload_date: SimpleDate { year: 2023, month: 1, day: 15 },
        archived_date: 100,
        duration: 10,
        original_url: url.to_string(),
        status: VideoStatus::Archived,
        file_id: 1,
        thumbnail_id: 2,
    }
}

#[test]
fn discovery_deduplicates_archived_urls() {
    // A URL already present among the archived videos is not scheduled again.
    let mut archive = Archive::new();
    archive.insert_video(known_video("https://www.youtube.com/watch?v=known"));
    let mut aq = ArchivalQueue::new();
    let mut cq = CollectionQueue::new();
    let members = vec![
        "https://www.youtube.com/watch?v=known".to_string(),
        "https://www.youtube.com/watch?v=fresh".to_string(),
    ];
    ingest_discovered(&archive, &mut aq, &mut cq, &members, 100);
    assert_eq!(aq.rows().len(), 1);
    assert_eq!(aq.rows()[0].url, "https://www.youtube.com/watch?v=fresh");
}

#[test]
fn discovery_routes_by_classification() {
    let archive = Archive::new();
    let mut aq = ArchivalQueue::new();
    let mut cq = CollectionQueue::new();
    let members = vec![
        // A sub-collection goes under recurring discovery.
        "https://www.youtube.com/@other/videos".to_string(),
        // A plain video is scheduled.
        "https://www.youtube.com/watch?v=a".to_string(),
        // An ambiguous URL takes both paths.
        "https://www.youtube.com/watch?v=b&list=PL".to_string(),
        // Garbage is dropped silently.
        "https://somewhere.else/x".to_string(),
    ];
    ingest_discovered(&archive, &mut aq, &mut cq, &members, 100);
    assert_eq!(aq.rows().len(), 2);
    assert_eq!(aq.rows()[0].url, "https://www.youtube.com/watch?v=a");
    assert_eq!(aq.rows()[1].url, "https://www.youtube.com/watch?v=b&list=PL");
    assert_eq!(cq.rows().len(), 2);
    assert_eq!(cq.rows()[0].url, "https://www.youtube.com/@other/videos");
    assert_eq!(cq.rows()[1].url, "https://www.youtube.com/watch?v=b&list=PL");
}

#[test]
fn discovery_is_idempotent_per_url() {
    let archive = Archive::new();
    let mut aq = ArchivalQueue::new();
    let mut cq = CollectionQueue::new();
    let url = "https://www.youtube.com/watch?v=a".to_string();
    process_discovered_url(&archive, &mut aq, &mut cq, url.clone(), 100);
    process_discovered_url(&archive, &mut aq, &mut cq, url, 200);
    assert_eq!(aq.rows().len(), 1);
}

#[test]
fn tracker_walks_claim_resolve_ingest() {
    let archive = Archive::new();
    let mut aq = ArchivalQueue::new();
    let mut cq = CollectionQueue::new();
    cq.enqueue("https://www.youtube.com/@test".to_string(), 50);

    // The tick claims the collection under the recheck lease.
    let (state, action) = tracker_step(
        TrackerState::Idle,
        TrackerEvent::Tick,
        &archive,
        &mut aq,
        &mut cq,
        100,
        600,
    );
    match &action {
        TrackerAction::Resolve { url } => assert_eq!(url, "https://www.youtube.com/@test"),
        other => panic!("expected a resolve action, got {:?}", other),
    }
    assert_eq!(cq.rows()[0].last_checked, Some(700));

    // The resolver answers; members are routed, the worker proceeds.
    let members = vec!["https://www.youtube.com/watch?v=a".to_string()];
    let (state2, action2) = tracker_step(
        state,
        TrackerEvent::MembersResolved { members: Some(members) },
        &archive,
        &mut aq,
        &mut cq,
        110,
        600,
    );
    assert!(matches!(state2, TrackerState::Idle));
    assert!(matches!(action2, TrackerAction::Proceed));
    assert_eq!(aq.rows().len(), 1);

    // With nothing eligible, the worker sleeps.
    let (_, action3) = tracker_step(
        TrackerState::Idle,
        TrackerEvent::Tick,
        &archive,
        &mut aq,
        &mut cq,
        120,
        600,
    );
    assert!(matches!(action3, TrackerAction::Sleep));
}

#[test]
fn tracker_resolver_failure_leaves_lease() {
    let archive = Archive::new();
    let mut aq = ArchivalQueue::new();
    let mut cq = CollectionQueue::new();
    cq.enqueue("https://www.youtube.com/@test".to_string(), 50);
    let (state, _) = tracker_step(
        TrackerState::Idle,
        TrackerEvent::Tick,
        &archive,
        &mut aq,
        &mut cq,
        100,
        600,
    );
    // The resolver fails: nothing is inserted and no backoff is applied;
    // the claim's lease alone makes the collection come back later.
    let (_, action) = tracker_step(
        state,
        TrackerEvent::MembersResolved { members: None },
        &archive,
        &mut aq,
        &mut cq,
        110,
        600,
    );
    assert!(matches!(action, immortalis::tracker::TrackerAction::Sleep));
    assert_eq!(aq.rows().len(), 0);
    assert_eq!(cq.rows()[0].last_checked, Some(700));
}
