use immortalis::api::{SubmitOutcome, submit, submit_collection};
use immortalis::queue::{ArchivalQueue, CollectionQueue};
use immortalis::records::{InsertableVideo, SimpleDate, VideoStatus};
use immortalis::store::Archive;

fn archived_video(url: &str) -> InsertableVideo {
    InsertableVideo {
        title: "t".to_string(),
        channel: "c".to_string(),
        views: 1,
        upload_date: SimpleDate { year: 2023, month: 1, day: 15 },
        archived_date: 100,
        duration: 10,
        original_url: url.to_string(),
        status: VideoStatus::Archived,
        file_id: 1,
        thumbnail_id: 2,
    }
}

#[test]
fn idempotent_submission() {
    // Submitting the same valid video URL twice yields exactly one queue row.
    let archive = Archive::new();
    let mut queue = ArchivalQueue::new();
    let url = "https://www.youtube.com/watch?v=testVideoId&list=playListId";
    assert_eq!(submit(&archive, &mut queue, url, 100), SubmitOutcome::Accepted);
    assert_eq!(submit(&archive, &mut queue, url, 200), SubmitOutcome::Duplicate);
    assert_eq!(queue.rows().len(), 1);
    // The queued URL is the canonical one: the playlist parameter is gone.
    assert_eq!(queue.rows()[0].url, "https://www.youtube.com/watch?v=testVideoId");
}

#[test]
fn archived_url_is_not_requeued() {
    // A URL whose canonical form is already archived inserts zero new rows.
    let mut archive = Archive::new();
    archive.insert_video(archived_video("https://www.youtube.com/watch?v=testVideoId"));
    let mut queue = ArchivalQueue::new();
    let outcome = submit(
        &archive,
        &mut queue,
        "https://www.youtube.com/watch?v=testVideoId",
        100,
    );
    assert_eq!(outcome, SubmitOutcome::Duplicate);
    assert_eq!(queue.rows().len(), 0);
}

#[test]
fn invalid_submission_is_rejected() {
    let archive = Archive::new();
    let mut queue = ArchivalQueue::new();
    assert_eq!(submit(&archive, &mut queue, "", 100), SubmitOutcome::Rejected);
    assert_eq!(
        submit(&archive, &mut queue, "https://crates.io", 100),
        SubmitOutcome::Rejected
    );
    // A pure collection URL is not a video submission.
    assert_eq!(
        submit(&archive, &mut queue, "https://www.youtube.com/@test", 100),
        SubmitOutcome::Rejected
    );
    assert_eq!(queue.rows().len(), 0);
}

#[test]
fn collection_submission() {
    let mut queue = CollectionQueue::new();
    let url = "https://www.youtube.com/playlist?list=PL";
    assert_eq!(submit_collection(&mut queue, url, 50), SubmitOutcome::Accepted);
    assert_eq!(submit_collection(&mut queue, url, 60), SubmitOutcome::Duplicate);
    assert_eq!(queue.rows().len(), 1);
    assert_eq!(queue.rows()[0].tracking_started_at, 50);
    assert_eq!(queue.rows()[0].last_checked, None);
    // A plain video URL is rejected here.
    assert_eq!(
        submit_collection(&mut queue, "https://www.youtube.com/watch?v=ID", 70),
        SubmitOutcome::Rejected
    );
    assert_eq!(queue.rows().len(), 1);
}
