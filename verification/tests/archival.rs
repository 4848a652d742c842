use immortalis::archiver::{ArchiverAction, ArchiverEvent, ArchiverState, archiver_step};
use immortalis::queue::ArchivalQueue;
use immortalis::records::{File, InsertableVideo, SimpleDate, VideoMetadata, VideoStatus};
use immortalis::store::Archive;

fn metadata(url: &str, duration_seconds: i32) -> VideoMetadata {
    VideoMetadata {
        title: "A Title".to_string(),
        channel: "A Channel".to_string(),
        view_count: 42,
        upload_date: "20230115".to_string(),
        duration_seconds,
        thumbnail_url: "https://img.example/thumb.jpg?x=1".to_string(),
        filesize: Some(1000),
        filesize_approx: Some(900),
        webpage_url: url.to_string(),
    }
}

const LEASE: i64 = 600;
const BACKOFF: i64 = 6000;

fn step(
    state: ArchiverState,
    event: ArchiverEvent,
    aq: &mut ArchivalQueue,
    archive: &mut Archive,
    now: i64,
) -> (ArchiverState, ArchiverAction) {
    archiver_step(state, event, aq, archive, now, LEASE, BACKOFF, false)
}

#[test]
fn ordinary_item_reaches_archived() {
    // A non-live item ends `Archived` with its capture-time duration and the
    // queue row gone.
    let url = "https://www.youtube.com/watch?v=a";
    let mut aq = ArchivalQueue::new();
    let mut archive = Archive::new();
    aq.enqueue(url.to_string(), 100);

    let (s1, a1) = step(ArchiverState::Idle, ArchiverEvent::Tick, &mut aq, &mut archive, 101);
    assert!(matches!(a1, ArchiverAction::ResolveMetadata { .. }));

    let (s2, a2) = step(
        s1,
        ArchiverEvent::MetadataResolved { meta: Some(metadata(url, 120)) },
        &mut aq,
        &mut archive,
        102,
    );
    match &a2 {
        ArchiverAction::FetchThumbnail { url } => {
            assert_eq!(url, "https://img.example/thumb.jpg?x=1")
        },
        other => panic!("expected a thumbnail fetch, got {:?}", other),
    }

    let (s3, a3) = step(
        s2,
        ArchiverEvent::ThumbnailStored { id: 7, extension: "jpg".to_string(), size: 555 },
        &mut aq,
        &mut archive,
        103,
    );
    let file_id = match &a3 {
        ArchiverAction::Download { url: durl, file_id } => {
            assert_eq!(durl, url);
            *file_id
        },
        other => panic!("expected a download action, got {:?}", other),
    };
    // The provisional records are in place.
    assert_eq!(archive.files().len(), 2);
    assert_eq!(archive.files()[0].id, 7);
    assert_eq!(archive.files()[0].file_extension, "jpg");
    assert_eq!(archive.files()[0].size, 555);
    assert_eq!(archive.files()[1].id, file_id);
    assert_eq!(archive.files()[1].file_extension, "mkv");
    assert_eq!(archive.files()[1].size, 1000);
    assert_eq!(archive.videos().len(), 1);
    assert_eq!(archive.videos()[0].status, VideoStatus::BeingArchived);
    assert_eq!(archive.videos()[0].duration, 120);

    let (s4, a4) = step(
        s3,
        ArchiverEvent::DownloadFinished { size: 2222 },
        &mut aq,
        &mut archive,
        104,
    );
    assert!(matches!(s4, ArchiverState::Idle));
    assert!(matches!(a4, ArchiverAction::Proceed));
    // The file size is corrected, the video is final, the schedule is gone.
    assert_eq!(archive.files()[1].size, 2222);
    assert_eq!(archive.videos()[0].status, VideoStatus::Archived);
    assert_eq!(archive.videos()[0].duration, 120);
    assert_eq!(aq.rows().len(), 0);
}

#[test]
fn live_item_gets_duration_patched() {
    // An item captured with the duration-unknown sentinel is re-resolved
    // after the download and ends `Archived` with the final duration.
    let url = "https://www.youtube.com/watch?v=live";
    let mut aq = ArchivalQueue::new();
    let mut archive = Archive::new();
    aq.enqueue(url.to_string(), 100);

    let (s1, _) = step(ArchiverState::Idle, ArchiverEvent::Tick, &mut aq, &mut archive, 101);
    let (s2, _) = step(
        s1,
        ArchiverEvent::MetadataResolved { meta: Some(metadata(url, 0)) },
        &mut aq,
        &mut archive,
        102,
    );
    let (s3, _) = step(
        s2,
        ArchiverEvent::ThumbnailStored { id: 9, extension: "png".to_string(), size: 10 },
        &mut aq,
        &mut archive,
        103,
    );
    let (s4, a4) = step(
        s3,
        ArchiverEvent::DownloadFinished { size: 777 },
        &mut aq,
        &mut archive,
        104,
    );
    match &a4 {
        ArchiverAction::ResolveDuration { url: rurl } => assert_eq!(rurl, url),
        other => panic!("expected a duration re-resolution, got {:?}", other),
    }
    // Not finalized yet: still provisional, still queued.
    assert_eq!(archive.videos()[0].status, VideoStatus::BeingArchived);
    assert_eq!(aq.rows().len(), 1);

    let (s5, a5) = step(
        s4,
        ArchiverEvent::DurationResolved { duration: Some(3600) },
        &mut aq,
        &mut archive,
        105,
    );
    assert!(matches!(s5, ArchiverState::Idle));
    assert!(matches!(a5, ArchiverAction::Proceed));
    assert_eq!(archive.videos()[0].status, VideoStatus::Archived);
    assert_eq!(archive.videos()[0].duration, 3600);
    assert_eq!(aq.rows().len(), 0);
}

#[test]
fn resolver_failure_applies_backoff() {
    // A failed resolution sets the row's eligibility to now + backoff and
    // does not delete it.
    let url = "https://www.youtube.com/watch?v=a";
    let mut aq = ArchivalQueue::new();
    let mut archive = Archive::new();
    aq.enqueue(url.to_string(), 100);

    let (s1, _) = step(ArchiverState::Idle, ArchiverEvent::Tick, &mut aq, &mut archive, 101);
    let (s2, a2) = step(
        s1,
        ArchiverEvent::MetadataResolved { meta: None },
        &mut aq,
        &mut archive,
        102,
    );
    assert!(matches!(s2, ArchiverState::Idle));
    assert!(matches!(a2, ArchiverAction::Sleep));
    assert_eq!(aq.rows().len(), 1);
    assert_eq!(aq.rows()[0].not_before, 102 + BACKOFF);
    assert_eq!(archive.videos().len(), 0);
}

#[test]
fn step_failure_leaves_recovery_to_lease() {
    let url = "https://www.youtube.com/watch?v=a";
    let mut aq = ArchivalQueue::new();
    let mut archive = Archive::new();
    aq.enqueue(url.to_string(), 100);
    let (s1, _) = step(ArchiverState::Idle, ArchiverEvent::Tick, &mut aq, &mut archive, 101);
    let (s2, a2) = step(s1, ArchiverEvent::StepFailed, &mut aq, &mut archive, 102);
    assert!(matches!(s2, ArchiverState::Idle));
    assert!(matches!(a2, ArchiverAction::Sleep));
    // The run is abandoned with the lease intact: claimable again only once
    // the lease lapses.
    assert_eq!(aq.rows().len(), 1);
    assert_eq!(aq.rows()[0].not_before, 101 + LEASE);
}

#[test]
fn replayed_run_is_idempotent() {
    // A second worker replaying the whole sequence after a crash finds the
    // idempotent inserts a no-op and finalizes harmlessly.
    let url = "https://www.youtube.com/watch?v=a";
    let mut aq = ArchivalQueue::new();
    let mut archive = Archive::new();
    aq.enqueue(url.to_string(), 100);

    let (s1, _) = step(ArchiverState::Idle, ArchiverEvent::Tick, &mut aq, &mut archive, 101);
    let (s2, _) = step(
        s1,
        ArchiverEvent::MetadataResolved { meta: Some(metadata(url, 120)) },
        &mut aq,
        &mut archive,
        102,
    );
    let (_s3, _) = step(
        s2,
        ArchiverEvent::ThumbnailStored { id: 7, extension: "jpg".to_string(), size: 555 },
        &mut aq,
        &mut archive,
        103,
    );
    // The first worker crashes here. After the lease lapses, a second worker
    // replays the run from the claim.
    let (r1, _) = step(ArchiverState::Idle, ArchiverEvent::Tick, &mut aq, &mut archive, 800);
    let (r2, _) = step(
        r1,
        ArchiverEvent::MetadataResolved { meta: Some(metadata(url, 120)) },
        &mut aq,
        &mut archive,
        801,
    );
    let (r3, _) = step(
        r2,
        ArchiverEvent::ThumbnailStored { id: 8, extension: "jpg".to_string(), size: 555 },
        &mut aq,
        &mut archive,
        802,
    );
    // The duplicate video insert was a no-op: still one video row.
    assert_eq!(archive.videos().len(), 1);
    let (r4, _) = step(
        r3,
        ArchiverEvent::DownloadFinished { size: 2222 },
        &mut aq,
        &mut archive,
        803,
    );
    assert!(matches!(r4, ArchiverState::Idle));
    assert_eq!(archive.videos()[0].status, VideoStatus::Archived);
    assert_eq!(aq.rows().len(), 0);
}

#[test]
fn search_filters_and_joins() {
    let url = "https://www.youtube.com/watch?v=a";
    let mut aq = ArchivalQueue::new();
    let mut archive = Archive::new();
    aq.enqueue(url.to_string(), 100);
    let (s1, _) = step(ArchiverState::Idle, ArchiverEvent::Tick, &mut aq, &mut archive, 101);
    let (s2, _) = step(
        s1,
        ArchiverEvent::MetadataResolved { meta: Some(metadata(url, 120)) },
        &mut aq,
        &mut archive,
        102,
    );
    let (s3, _) = step(
        s2,
        ArchiverEvent::ThumbnailStored { id: 7, extension: "jpg".to_string(), size: 555 },
        &mut aq,
        &mut archive,
        103,
    );
    let _ = step(s3, ArchiverEvent::DownloadFinished { size: 2222 }, &mut aq, &mut archive, 104);

    // The term matches the title ignoring ASCII case; the size comes from
    // the media file row.
    let hits = archive.search(Some("a title"));
    assert_eq!(hits.len(), 1);
    assert_eq!(hits[0].video.title, "A Title");
    assert_eq!(hits[0].video_size, 2222);
    assert_eq!(archive.search(Some("nothing like this")).len(), 0);
    assert_eq!(archive.search(None).len(), 1);
}

#[test]
fn search_sorted_is_newest_first() {
    let mut archive = Archive::new();
    let dates: [i64; 3] = [300, 100, 200];
    for (i, archived_date) in dates.iter().enumerate() {
        let file_id = (i + 1) as u128;
        archive.insert_file(File {
            id: file_id,
            file_name: format!("clip {}", i),
            file_extension: "mkv".to_string(),
            size: 10 * (i as i64 + 1),
        });
        archive.insert_video(InsertableVideo {
            title: format!("clip {}", i),
            channel: "c".to_string(),
            views: 1,
            upload_date: SimpleDate { year: 2023, month: 1, day: 1 },
            archived_date: *archived_date,
            duration: 5,
            original_url: format!("https://www.youtube.com/watch?v={}", i),
            status: VideoStatus::Archived,
            file_id,
            thumbnail_id: 100 + file_id,
        });
    }
    let hits = archive.search_sorted(Some("clip"));
    assert_eq!(hits.len(), 3);
    assert_eq!(hits[0].video.archived_date, 300);
    assert_eq!(hits[1].video.archived_date, 200);
    assert_eq!(hits[2].video.archived_date, 100);
}
