use vstd::prelude::*;
use crate::queue::{
    ArchivalQueue, ScheduledArchival, backoff_step, claim_step, complete_step, spec_contains_id,
};
use crate::records::{
    File, InsertableVideo, Video, VideoMetadata, VideoStatus, parse_upload_date,
    spec_effective_filesize, spec_parse_upload_date,
};
use crate::store::{Archive, mark_archived_step, set_size_step, spec_has_file, spec_has_video_url};
use vstd::string::StringExecFns;

verus! {

// ---------------------------------------------------------------------------
// Fresh blob identifiers.
// ---------------------------------------------------------------------------

/// Relies on uuid::Uuid::new_v4 and Uuid::as_u128: a freshly generated
/// random identifier. Nothing is promised of the value — the store's
/// idempotent inserts say what any collision would mean.
#[verifier::external_body]
fn new_file_id() -> u128 {
    uuid::Uuid::new_v4().as_u128()
}

// ---------------------------------------------------------------------------
// The persistence phase: provisional records for one resolved item.
// ---------------------------------------------------------------------------

/// One file row was put idempotently: nothing changed when the identifier
/// was already present, else exactly one new row with these fields.
pub open spec fn file_put(
    pre: Seq<File>,
    post: Seq<File>,
    id: u128,
    name: String,
    extension: Seq<char>,
    size: i64,
) -> bool {
    if spec_has_file(pre, id) {
        post == pre
    } else {
        &&& post.len() == pre.len() + 1
        &&& post.subrange(0, pre.len() as int) == pre
        &&& post.last().id == id
        &&& post.last().file_name == name
        &&& post.last().file_extension@ == extension
        &&& post.last().size == size
    }
}

/// The provisional video row was put idempotently: nothing changed when the
/// original URL was already recorded, else exactly one new row carrying the
/// resolved metadata, in state `BeingArchived`.
pub open spec fn video_put(
    pre: Seq<Video>,
    post: Seq<Video>,
    meta: VideoMetadata,
    file_id: u128,
    thumbnail_id: u128,
    now: i64,
) -> bool {
    if spec_has_video_url(pre, meta.webpage_url@) {
        post == pre
    } else {
        &&& post.len() == pre.len() + 1
        &&& post.subrange(0, pre.len() as int) == pre
        &&& post.last().title == meta.title
        &&& post.last().channel == meta.channel
        &&& post.last().views == meta.view_count
        &&& Some(post.last().upload_date) == spec_parse_upload_date(meta.upload_date@)
        &&& post.last().archived_date == now
        &&& post.last().duration == meta.duration_seconds
        &&& post.last().original_url == meta.webpage_url
        &&& post.last().status == VideoStatus::BeingArchived
        &&& post.last().file_id == file_id
        &&& post.last().thumbnail_id == thumbnail_id
    }
}

/// The whole persistence phase: the thumbnail's file row, the media file
/// row with the size estimate and the fixed container extension, and the
/// provisional video row, each put idempotently.
pub open spec fn begin_archival_rel(
    videos0: Seq<Video>,
    videos1: Seq<Video>,
    files0: Seq<File>,
    files1: Seq<File>,
    meta: VideoMetadata,
    thumbnail_id: u128,
    thumbnail_extension: Seq<char>,
    thumbnail_size: i64,
    file_id: u128,
    now: i64,
) -> bool {
    &&& exists|mid: Seq<File>|
        {
            &&& #[trigger] file_put(files0, mid, thumbnail_id, meta.title, thumbnail_extension, thumbnail_size)
            &&& file_put(mid, files1, file_id, meta.title, "mkv"@, spec_effective_filesize(meta))
        }
    &&& video_put(videos0, videos1, meta, file_id, thumbnail_id, now)
}

/// Writes the provisional records for one resolved item: a file row for the
/// stored thumbnail, a file row for the still-missing media with the
/// resolver's size estimate, and the video row in state `BeingArchived`,
/// guarded by the original-URL uniqueness constraint.
pub fn begin_archival(
    archive: &mut Archive,
    meta: VideoMetadata,
    thumbnail_id: u128,
    thumbnail_extension: String,
    thumbnail_size: i64,
    file_id: u128,
    now: i64,
)
    requires
        old(archive).wf(),
        old(archive).spec_next_video_id() < i64::MAX,
        spec_parse_upload_date(meta.upload_date@) is Some,
    ensures
        final(archive).wf(),
        begin_archival_rel(
            old(archive).spec_videos(),
            final(archive).spec_videos(),
            old(archive).spec_files(),
            final(archive).spec_files(),
            meta,
            thumbnail_id,
            thumbnail_extension@,
            thumbnail_size,
            file_id,
            now,
        ),
{
    let ghost videos0 = archive.spec_videos();
    let ghost files0 = archive.spec_files();
    let estimated_size = meta.effective_filesize();
    let _ = archive.insert_file(
        File {
            id: thumbnail_id,
            file_name: meta.title.clone(),
            file_extension: thumbnail_extension,
            size: thumbnail_size,
        },
    );
    let ghost files_mid = archive.spec_files();
    proof {
        if !spec_has_file(files0, thumbnail_id) {
            assert(files_mid.subrange(0, files0.len() as int) =~= files0);
        }
        assert(file_put(
            files0,
            files_mid,
            thumbnail_id,
            meta.title,
            thumbnail_extension@,
            thumbnail_size,
        ));
    }
    let media_extension: String = mkv_extension();
    let _ = archive.insert_file(
        File {
            id: file_id,
            file_name: meta.title.clone(),
            file_extension: media_extension,
            size: estimated_size,
        },
    );
    proof {
        if !spec_has_file(files_mid, file_id) {
            assert(archive.spec_files().subrange(0, files_mid.len() as int) =~= files_mid);
        }
        assert(file_put(
            files_mid,
            archive.spec_files(),
            file_id,
            meta.title,
            "mkv"@,
            spec_effective_filesize(meta),
        ));
    }
    let video = InsertableVideo::new(meta, VideoStatus::BeingArchived, file_id, thumbnail_id, now);
    let _ = archive.insert_video(video);
    proof {
        if !spec_has_video_url(videos0, meta.webpage_url@) {
            assert(archive.spec_videos().subrange(0, videos0.len() as int) =~= videos0);
        }
        assert(video_put(videos0, archive.spec_videos(), meta, file_id, thumbnail_id, now));
    }
}

/// The fixed container extension of archived media files.
fn mkv_extension() -> (r: String)
    ensures
        r@ == "mkv"@,
{
    String::from_str("mkv")
}

// ---------------------------------------------------------------------------
// The archival worker's state machine.
// ---------------------------------------------------------------------------

/// Where one archival worker stands in its run.
#[derive(Debug)]
pub enum ArchiverState {
    /// Between runs.
    Idle,
    /// An entry is held under lease; the resolver is running on it.
    Resolving { entry: ScheduledArchival },
    /// Metadata is resolved; the thumbnail is being fetched and stored.
    FetchingThumbnail { entry: ScheduledArchival, meta: VideoMetadata },
    /// Provisional records are written; the downloader is running.
    Downloading {
        entry: ScheduledArchival,
        video_url: String,
        duration_seconds: i32,
        file_id: u128,
    },
    /// The download finished but the capture-time duration was the unknown
    /// sentinel; the resolver is running again for the final duration.
    ResolvingDuration { entry: ScheduledArchival, video_url: String },
}

/// What the outside world reports to the archival worker.
#[derive(Debug)]
pub enum ArchiverEvent {
    /// The poll timer fired.
    Tick,
    /// The resolver answered with the item's metadata, or failed.
    MetadataResolved { meta: Option<VideoMetadata> },
    /// The thumbnail bytes were fetched and stored under a fresh blob
    /// identifier, with the detected extension and byte length.
    ThumbnailStored { id: u128, extension: String, size: i64 },
    /// The media download finished; the real byte count is known.
    DownloadFinished { size: i64 },
    /// The post-download re-resolution returned the final duration, or
    /// failed.
    DurationResolved { duration: Option<i32> },
    /// Some outside step failed: the run is abandoned; the row's lease will
    /// make it claimable again.
    StepFailed,
}

/// What the archival worker asks the outside world to do next.
#[derive(Debug)]
pub enum ArchiverAction {
    /// Invoke the resolver on this URL and report back.
    ResolveMetadata { url: String },
    /// Fetch the thumbnail at this URL, store it under a fresh blob
    /// identifier, and report identifier, extension and size.
    FetchThumbnail { url: String },
    /// Download the media of this URL into the blob under this identifier
    /// and report the real byte count.
    Download { url: String, file_id: u128 },
    /// Re-resolve this URL for the now-final duration of live content.
    ResolveDuration { url: String },
    /// Nothing eligible or a failure: sleep one idle interval before the
    /// next tick.
    Sleep,
    /// An item was archived: poll again at once.
    Proceed,
}

/// What one step of the archival worker does, given its state and the
/// event. A tick claims an entry under the archiving lease. A resolver
/// failure applies the failure backoff and leaves the row queued. Resolved
/// metadata starts the thumbnail fetch; the stored thumbnail triggers the
/// provisional records and the download; the finished download corrects the
/// file size and, unless the capture-time duration was the unknown
/// sentinel, finalizes: the video becomes `Archived` and the queue row is
/// deleted. The sentinel instead triggers one re-resolution whose answer
/// finalizes with the true duration. Any other failure abandons the run
/// with every store untouched, leaving recovery to the lease.
pub open spec fn archiver_step_spec(
    state: ArchiverState,
    event: ArchiverEvent,
    simulate_download: bool,
    videos0: Seq<Video>,
    videos1: Seq<Video>,
    files0: Seq<File>,
    files1: Seq<File>,
    aq0: Seq<ScheduledArchival>,
    aq1: Seq<ScheduledArchival>,
    r: (ArchiverState, ArchiverAction),
    now: i64,
    lease_seconds: i64,
    backoff_seconds: i64,
) -> bool {
    match (state, event) {
        (ArchiverState::Idle, ArchiverEvent::Tick) => {
            &&& videos1 == videos0
            &&& files1 == files0
            &&& match r {
                (
                    ArchiverState::Resolving { entry },
                    ArchiverAction::ResolveMetadata { url },
                ) => claim_step(aq0, aq1, Some(entry), now, lease_seconds) && url == entry.url,
                (ArchiverState::Idle, ArchiverAction::Sleep) => claim_step(
                    aq0,
                    aq1,
                    None,
                    now,
                    lease_seconds,
                ),
                _ => false,
            }
        },
        (ArchiverState::Resolving { entry }, ArchiverEvent::MetadataResolved { meta: Some(meta) }) => {
            &&& videos1 == videos0
            &&& files1 == files0
            &&& aq1 == aq0
            &&& r == (
                ArchiverState::FetchingThumbnail { entry, meta },
                ArchiverAction::FetchThumbnail { url: meta.thumbnail_url },
            )
        },
        (ArchiverState::Resolving { entry }, ArchiverEvent::MetadataResolved { meta: None }) => {
            &&& videos1 == videos0
            &&& files1 == files0
            &&& backoff_step(aq0, aq1, entry.id, now, backoff_seconds, spec_contains_id(aq0, entry.id))
            &&& r == (ArchiverState::Idle, ArchiverAction::Sleep)
        },
        (
            ArchiverState::FetchingThumbnail { entry, meta },
            ArchiverEvent::ThumbnailStored { id, extension, size },
        ) => {
            if spec_parse_upload_date(meta.upload_date@) is None {
                &&& videos1 == videos0
                &&& files1 == files0
                &&& aq1 == aq0
                &&& r == (ArchiverState::Idle, ArchiverAction::Sleep)
            } else {
                &&& aq1 == aq0
                &&& match r {
                    (
                        ArchiverState::Downloading {
                            entry: entry2,
                            video_url,
                            duration_seconds,
                            file_id,
                        },
                        ArchiverAction::Download { url, file_id: action_file_id },
                    ) => {
                        &&& entry2 == entry
                        &&& video_url == meta.webpage_url
                        &&& duration_seconds == meta.duration_seconds
                        &&& action_file_id == file_id
                        &&& url == entry.url
                        &&& begin_archival_rel(
                            videos0,
                            videos1,
                            files0,
                            files1,
                            meta,
                            id,
                            extension@,
                            size,
                            file_id,
                            now,
                        )
                    },
                    _ => false,
                }
            }
        },
        (
            ArchiverState::Downloading { entry, video_url, duration_seconds, file_id },
            ArchiverEvent::DownloadFinished { size },
        ) => {
            &&& set_size_step(files0, files1, file_id, size, spec_has_file(files0, file_id))
            &&& if duration_seconds != 0 || simulate_download {
                &&& mark_archived_step(
                    videos0,
                    videos1,
                    video_url@,
                    None,
                    spec_has_video_url(videos0, video_url@),
                )
                &&& complete_step(aq0, aq1, entry.id, spec_contains_id(aq0, entry.id))
                &&& r == (ArchiverState::Idle, ArchiverAction::Proceed)
            } else {
                &&& videos1 == videos0
                &&& aq1 == aq0
                &&& r == (
                    ArchiverState::ResolvingDuration { entry, video_url },
                    ArchiverAction::ResolveDuration { url: entry.url },
                )
            }
        },
        (
            ArchiverState::ResolvingDuration { entry, video_url },
            ArchiverEvent::DurationResolved { duration: Some(d) },
        ) => {
            &&& files1 == files0
            &&& mark_archived_step(
                videos0,
                videos1,
                video_url@,
                Some(d),
                spec_has_video_url(videos0, video_url@),
            )
            &&& complete_step(aq0, aq1, entry.id, spec_contains_id(aq0, entry.id))
            &&& r == (ArchiverState::Idle, ArchiverAction::Proceed)
        },
        _ => {
            &&& videos1 == videos0
            &&& files1 == files0
            &&& aq1 == aq0
            &&& r == (ArchiverState::Idle, ArchiverAction::Sleep)
        },
    }
}

/// Drives the archival worker one step.
pub fn archiver_step(
    state: ArchiverState,
    event: ArchiverEvent,
    aq: &mut ArchivalQueue,
    archive: &mut Archive,
    now: i64,
    lease_seconds: i64,
    backoff_seconds: i64,
    simulate_download: bool,
) -> (r: (ArchiverState, ArchiverAction))
    requires
        old(aq).wf(),
        old(archive).wf(),
        old(archive).spec_next_video_id() < i64::MAX,
        0 < lease_seconds,
        now + lease_seconds <= i64::MAX,
        0 <= backoff_seconds,
        now + backoff_seconds <= i64::MAX,
    ensures
        final(aq).wf(),
        final(archive).wf(),
        archiver_step_spec(
            state,
            event,
            simulate_download,
            old(archive).spec_videos(),
            final(archive).spec_videos(),
            old(archive).spec_files(),
            final(archive).spec_files(),
            old(aq)@,
            final(aq)@,
            r,
            now,
            lease_seconds,
            backoff_seconds,
        ),
{
    match (state, event) {
        (ArchiverState::Idle, ArchiverEvent::Tick) => {
            let claimed = aq.claim(now, lease_seconds);
            match claimed {
                Some(e) => {
                    let url = e.url.clone();
                    (ArchiverState::Resolving { entry: e }, ArchiverAction::ResolveMetadata { url })
                },
                None => (ArchiverState::Idle, ArchiverAction::Sleep),
            }
        },
        (
            ArchiverState::Resolving { entry },
            ArchiverEvent::MetadataResolved { meta: Some(meta) },
        ) => {
            let thumbnail_url = meta.thumbnail_url.clone();
            (
                ArchiverState::FetchingThumbnail { entry, meta },
                ArchiverAction::FetchThumbnail { url: thumbnail_url },
            )
        },
        (ArchiverState::Resolving { entry }, ArchiverEvent::MetadataResolved { meta: None }) => {
            let _ = aq.apply_backoff(entry.id, now, backoff_seconds);
            (ArchiverState::Idle, ArchiverAction::Sleep)
        },
        (
            ArchiverState::FetchingThumbnail { entry, meta },
            ArchiverEvent::ThumbnailStored { id, extension, size },
        ) => {
            if parse_upload_date(meta.upload_date.as_str()).is_none() {
                return (ArchiverState::Idle, ArchiverAction::Sleep);
            }
            let file_id = new_file_id();
            let video_url = meta.webpage_url.clone();
            let duration_seconds = meta.duration_seconds;
            let url = entry.url.clone();
            begin_archival(archive, meta, id, extension, size, file_id, now);
            (
                ArchiverState::Downloading { entry, video_url, duration_seconds, file_id },
                ArchiverAction::Download { url, file_id },
            )
        },
        (
            ArchiverState::Downloading { entry, video_url, duration_seconds, file_id },
            ArchiverEvent::DownloadFinished { size },
        ) => {
            let _ = archive.set_file_size(file_id, size);
            if duration_seconds != 0 || simulate_download {
                let _ = archive.mark_archived(video_url.as_str(), None);
                let _ = aq.complete(entry.id);
                (ArchiverState::Idle, ArchiverAction::Proceed)
            } else {
                let url = entry.url.clone();
                (
                    ArchiverState::ResolvingDuration { entry, video_url },
                    ArchiverAction::ResolveDuration { url },
                )
            }
        },
        (
            ArchiverState::ResolvingDuration { entry, video_url },
            ArchiverEvent::DurationResolved { duration: Some(d) },
        ) => {
            let _ = archive.mark_archived(video_url.as_str(), Some(d));
            let _ = aq.complete(entry.id);
            (ArchiverState::Idle, ArchiverAction::Proceed)
        },
        (_, _) => (ArchiverState::Idle, ArchiverAction::Sleep),
    }
}

// ---------------------------------------------------------------------------
// Laws of the archival run.
// ---------------------------------------------------------------------------

/// After a successful run over an item that was not archived before, the
/// video row is final: exactly one row carries the item's URL, its status is
/// `Archived`, and its duration is the capture-time value for ordinary
/// items or the re-resolved value for live captures.
pub proof fn lemma_archival_final_state(
    videos0: Seq<Video>,
    videos_mid: Seq<Video>,
    videos_end: Seq<Video>,
    meta: VideoMetadata,
    file_id: u128,
    thumbnail_id: u128,
    now: i64,
    duration_update: Option<i32>,
    found: bool,
)
    requires
        crate::store::wf_videos(videos_mid),
        !spec_has_video_url(videos0, meta.webpage_url@),
        video_put(videos0, videos_mid, meta, file_id, thumbnail_id, now),
        mark_archived_step(videos_mid, videos_end, meta.webpage_url@, duration_update, found),
    ensures
        exists|i: int|
            {
                &&& 0 <= i < videos_end.len()
                &&& (#[trigger] videos_end[i].original_url@) == meta.webpage_url@
                &&& videos_end[i].status == VideoStatus::Archived
                &&& videos_end[i].duration == (match duration_update {
                    Some(d) => d,
                    None => meta.duration_seconds,
                })
                &&& forall|j: int|
                    0 <= j < videos_end.len() && (#[trigger] videos_end[j].original_url@)
                        == meta.webpage_url@ ==> j == i
            },
{
    let u = meta.webpage_url@;
    let w = videos_mid.len() - 1;
    assert(videos_mid[w].original_url@ == u);
    assert(videos_end[w].original_url@ == u);
    assert(videos_end[w].status == VideoStatus::Archived);
    assert(videos_end[w].duration == (match duration_update {
        Some(d) => d,
        None => meta.duration_seconds,
    })) by {
        assert(videos_mid[w].duration == meta.duration_seconds);
    }
    assert forall|j: int|
        0 <= j < videos_end.len() && (#[trigger] videos_end[j].original_url@) == u implies j
        == w by {
        if j != w {
            assert(videos_end[j].original_url == videos_mid[j].original_url) by {
                if videos_mid[j].original_url@ == u {
                    assert(videos_mid[j].original_url@ != videos_mid[w].original_url@);
                } else {
                    assert(videos_end[j] == videos_mid[j]);
                }
            }
            assert(videos_mid[j].original_url@ != videos_mid[w].original_url@);
        }
    }
}

} // verus!
