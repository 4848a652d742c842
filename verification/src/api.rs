use vstd::prelude::*;
use crate::queue::{
    ArchivalQueue, CollectionQueue, ScheduledArchival, TrackedCollection, coll_enqueue_step,
    enqueue_step, spec_contains_coll_url, spec_contains_url, wf_entries,
};
use crate::store::{Archive, spec_has_video_url};
use crate::records::Video;
use crate::urls::{UrlType, filter_query_pairs, get_url_type, spec_filter_query_pairs, spec_url_type};

verus! {

/// A file read request: which blob, and whether the thumbnail is wanted.
pub struct GetFileRequestData {
    pub file_id: u128,
    pub is_thumbnail: bool,
}

/// A submission request carrying the URL to capture or track.
pub struct ScheduleRequest {
    pub url: String,
}

/// A search request with an optional title term.
pub struct SearchQuery {
    pub term: Option<String>,
}

/// What a submission produced.
#[derive(Clone, Copy, Debug, PartialEq, Eq, Structural)]
pub enum SubmitOutcome {
    /// Newly queued.
    Accepted,
    /// Already archived or already queued; nothing was inserted.
    Duplicate,
    /// Invalid or unparseable URL; it never enters a queue.
    Rejected,
}

/// The canonical form of a submitted video URL: every query parameter but
/// the video identifier is dropped.
pub open spec fn canonical_video_url(url: Seq<char>) -> Option<Seq<char>> {
    spec_filter_query_pairs(url, seq!["v"@])
}

/// What one video submission does: a URL that does not classify as a video
/// or cannot be canonicalized is rejected and nothing changes; an already
/// archived or already queued canonical URL is reported a duplicate and
/// nothing changes; otherwise exactly one queue row is created.
pub open spec fn submit_step(
    videos: Seq<Video>,
    pre: Seq<ScheduledArchival>,
    post: Seq<ScheduledArchival>,
    url: Seq<char>,
    now: i64,
    outcome: SubmitOutcome,
) -> bool {
    let class = spec_url_type(url);
    if class != UrlType::Video && class != UrlType::VideoOrCollection {
        outcome == SubmitOutcome::Rejected && post == pre
    } else {
        match canonical_video_url(url) {
            None => outcome == SubmitOutcome::Rejected && post == pre,
            Some(cu) => {
                if spec_has_video_url(videos, cu) {
                    outcome == SubmitOutcome::Duplicate && post == pre
                } else if spec_contains_url(pre, cu) {
                    outcome == SubmitOutcome::Duplicate && post == pre
                } else {
                    outcome == SubmitOutcome::Accepted && enqueue_step(pre, post, cu, now, true)
                }
            },
        }
    }
}

/// The submission entry point for single items: classifies the URL, trims
/// its query string down to the video identifier, de-duplicates against the
/// archived videos and the queue, and queues the canonical URL.
pub fn submit(
    archive: &Archive,
    queue: &mut ArchivalQueue,
    url: &str,
    now: i64,
) -> (outcome: SubmitOutcome)
    requires
        old(queue).wf(),
        old(queue).spec_next_id() < i64::MAX,
    ensures
        final(queue).wf(),
        submit_step(
            archive.spec_videos(),
            old(queue)@,
            final(queue)@,
            url@,
            now,
            outcome,
        ),
{
    match get_url_type(url) {
        UrlType::Video => {},
        UrlType::VideoOrCollection => {},
        _ => {
            return SubmitOutcome::Rejected;
        },
    }
    let mut names: Vec<&str> = Vec::new();
    names.push("v");
    proof {
        assert(names.deep_view() =~= seq!["v"@]);
    }
    let video_url = match filter_query_pairs(url, names) {
        Some(u) => u,
        None => {
            return SubmitOutcome::Rejected;
        },
    };
    if archive.contains_video_url(video_url.as_str()) {
        return SubmitOutcome::Duplicate;
    }
    if queue.contains_url(video_url.as_str()) {
        return SubmitOutcome::Duplicate;
    }
    let inserted = queue.enqueue(video_url, now);
    assert(inserted);
    SubmitOutcome::Accepted
}

/// What one collection submission does: a URL that does not classify as a
/// collection is rejected; an already tracked URL is a duplicate; otherwise
/// exactly one never-checked collection row is created.
pub open spec fn submit_collection_step(
    pre: Seq<TrackedCollection>,
    post: Seq<TrackedCollection>,
    url: Seq<char>,
    now: i64,
    outcome: SubmitOutcome,
) -> bool {
    let class = spec_url_type(url);
    if class != UrlType::Collection && class != UrlType::VideoOrCollection {
        outcome == SubmitOutcome::Rejected && post == pre
    } else if spec_contains_coll_url(pre, url) {
        outcome == SubmitOutcome::Duplicate && post == pre
    } else {
        outcome == SubmitOutcome::Accepted && coll_enqueue_step(pre, post, url, now, true)
    }
}

/// The submission entry point for collections: classifies the URL and puts
/// it under recurring discovery, idempotently.
pub fn submit_collection(
    queue: &mut CollectionQueue,
    url: &str,
    now: i64,
) -> (outcome: SubmitOutcome)
    requires
        old(queue).wf(),
        old(queue).spec_next_id() < i64::MAX,
    ensures
        final(queue).wf(),
        submit_collection_step(old(queue)@, final(queue)@, url@, now, outcome),
{
    match get_url_type(url) {
        UrlType::Collection => {},
        UrlType::VideoOrCollection => {},
        _ => {
            return SubmitOutcome::Rejected;
        },
    }
    if queue.contains_url(url) {
        return SubmitOutcome::Duplicate;
    }
    let owned = url.to_owned();
    let inserted = queue.enqueue(owned, now);
    assert(inserted);
    SubmitOutcome::Accepted
}

/// Submitting the same valid video URL twice yields exactly one queued row:
/// the first submission is accepted, the second reports a duplicate and
/// leaves the queue exactly as it was.
pub proof fn lemma_idempotent_submission(
    videos: Seq<Video>,
    q0: Seq<ScheduledArchival>,
    q1: Seq<ScheduledArchival>,
    q2: Seq<ScheduledArchival>,
    url: Seq<char>,
    now1: i64,
    now2: i64,
    o1: SubmitOutcome,
    o2: SubmitOutcome,
)
    requires
        wf_entries(q1),
        spec_url_type(url) == UrlType::Video || spec_url_type(url) == UrlType::VideoOrCollection,
        canonical_video_url(url) is Some,
        !spec_has_video_url(videos, canonical_video_url(url)->0),
        !spec_contains_url(q0, canonical_video_url(url)->0),
        submit_step(videos, q0, q1, url, now1, o1),
        submit_step(videos, q1, q2, url, now2, o2),
    ensures
        o1 == SubmitOutcome::Accepted,
        o2 == SubmitOutcome::Duplicate,
        q2 == q1,
        exists|i: int|
            0 <= i < q2.len() && (#[trigger] q2[i].url@) == canonical_video_url(url)->0 && (
            forall|j: int|
                0 <= j < q2.len() && (#[trigger] q2[j].url@) == canonical_video_url(url)->0 ==> j
                    == i),
{
    let cu = canonical_video_url(url)->0;
    assert(q1.last().url@ == cu);
    assert(spec_contains_url(q1, cu));
    let w = q1.len() - 1;
    assert forall|j: int| 0 <= j < q2.len() && (#[trigger] q2[j].url@) == cu implies j == w by {
        if j != w {
            assert(q2[j].url@ != q2[w].url@);
        }
    }
}

/// Submitting a video URL whose canonical form is already archived inserts
/// nothing, however often it is repeated.
pub proof fn lemma_archived_submission_no_insert(
    videos: Seq<Video>,
    q0: Seq<ScheduledArchival>,
    q1: Seq<ScheduledArchival>,
    url: Seq<char>,
    now: i64,
    o: SubmitOutcome,
)
    requires
        spec_url_type(url) == UrlType::Video || spec_url_type(url) == UrlType::VideoOrCollection,
        canonical_video_url(url) is Some,
        spec_has_video_url(videos, canonical_video_url(url)->0),
        submit_step(videos, q0, q1, url, now, o),
    ensures
        o == SubmitOutcome::Duplicate,
        q1 == q0,
{
}

} // verus!
