use vstd::prelude::*;
use crate::queue::{
    ArchivalQueue, CollectionQueue, ScheduledArchival, TrackedCollection, coll_claim_step,
    spec_contains_coll_url, spec_contains_url,
};
use crate::records::Video;
use crate::store::{Archive, spec_has_video_url};
use crate::urls::{UrlType, get_url_type, spec_url_type};

verus! {

// ---------------------------------------------------------------------------
// Classification of discovered member URLs.
// ---------------------------------------------------------------------------

/// A discovered URL that must go under recurring discovery: a collection,
/// or the collection aspect of an ambiguous URL.
pub open spec fn discovery_tracks(url: Seq<char>) -> bool {
    spec_url_type(url) == UrlType::Collection || spec_url_type(url) == UrlType::VideoOrCollection
}

/// A discovered URL that must be scheduled as a single item: a video, or
/// the video aspect of an ambiguous URL.
pub open spec fn discovery_schedules(url: Seq<char>) -> bool {
    spec_url_type(url) == UrlType::Video || spec_url_type(url) == UrlType::VideoOrCollection
}

// ---------------------------------------------------------------------------
// One discovered URL.
// ---------------------------------------------------------------------------

/// What processing one discovered URL does to the archival queue: a URL
/// classified as schedulable and not already archived is enqueued
/// idempotently; any other URL leaves the queue untouched.
pub open spec fn discover_step_aq(
    videos: Seq<Video>,
    pre: Seq<ScheduledArchival>,
    post: Seq<ScheduledArchival>,
    url: Seq<char>,
    now: i64,
) -> bool {
    if discovery_schedules(url) && !spec_has_video_url(videos, url) {
        crate::queue::enqueue_step(pre, post, url, now, !spec_contains_url(pre, url))
    } else {
        post == pre
    }
}

/// What processing one discovered URL does to the collection queue: a URL
/// classified as trackable is put under recurring discovery idempotently;
/// any other URL leaves the queue untouched.
pub open spec fn discover_step_cq(
    pre: Seq<TrackedCollection>,
    post: Seq<TrackedCollection>,
    url: Seq<char>,
    now: i64,
) -> bool {
    if discovery_tracks(url) {
        crate::queue::coll_enqueue_step(pre, post, url, now, !spec_contains_coll_url(pre, url))
    } else {
        post == pre
    }
}

/// Routes one discovered member URL: collections go under recurring
/// discovery, videos are scheduled unless already archived or already
/// queued, ambiguous URLs take both paths, invalid URLs are dropped
/// silently.
pub fn process_discovered_url(
    archive: &Archive,
    aq: &mut ArchivalQueue,
    cq: &mut CollectionQueue,
    url: String,
    now: i64,
)
    requires
        old(aq).wf(),
        old(cq).wf(),
        old(aq).spec_next_id() < i64::MAX,
        old(cq).spec_next_id() < i64::MAX,
    ensures
        final(aq).wf(),
        final(cq).wf(),
        final(aq).spec_next_id() <= old(aq).spec_next_id() + 1,
        final(cq).spec_next_id() <= old(cq).spec_next_id() + 1,
        discover_step_aq(archive.spec_videos(), old(aq)@, final(aq)@, url@, now),
        discover_step_cq(old(cq)@, final(cq)@, url@, now),
{
    match get_url_type(url.as_str()) {
        UrlType::Collection => {
            let _ = cq.enqueue(url, now);
        },
        UrlType::VideoOrCollection => {
            let copy = url.as_str().to_owned();
            let _ = cq.enqueue(copy, now);
            if !archive.contains_video_url(url.as_str()) {
                let _ = aq.enqueue(url, now);
            }
        },
        UrlType::Video => {
            if !archive.contains_video_url(url.as_str()) {
                let _ = aq.enqueue(url, now);
            }
        },
        UrlType::Invalid => {},
    }
}

// ---------------------------------------------------------------------------
// One resolved batch of member URLs.
// ---------------------------------------------------------------------------

/// What one discovery pass does to the archival queue: existing rows are
/// kept as they are, every row added carries a discovered URL that
/// classifies as schedulable and is not archived, created immediately
/// claimable, and every such URL ends up queued.
pub open spec fn discovery_outcome_aq(
    videos: Seq<Video>,
    pre: Seq<ScheduledArchival>,
    post: Seq<ScheduledArchival>,
    urls: Seq<Seq<char>>,
    now: i64,
) -> bool {
    &&& pre.is_prefix_of(post)
    &&& forall|k: int|
        pre.len() <= k < post.len() ==> {
            &&& urls.contains(#[trigger] post[k].url@)
            &&& discovery_schedules(post[k].url@)
            &&& !spec_has_video_url(videos, post[k].url@)
            &&& post[k].scheduled_at == now
            &&& post[k].not_before == now
        }
    &&& forall|u: Seq<char>|
        #[trigger] urls.contains(u) && discovery_schedules(u) && !spec_has_video_url(videos, u)
            ==> spec_contains_url(post, u)
}

/// What one discovery pass does to the collection queue: existing rows are
/// kept as they are, every row added carries a discovered URL that
/// classifies as trackable, created never-checked, and every such URL ends
/// up tracked.
pub open spec fn discovery_outcome_cq(
    pre: Seq<TrackedCollection>,
    post: Seq<TrackedCollection>,
    urls: Seq<Seq<char>>,
    now: i64,
) -> bool {
    &&& pre.is_prefix_of(post)
    &&& forall|k: int|
        pre.len() <= k < post.len() ==> {
            &&& urls.contains(#[trigger] post[k].url@)
            &&& discovery_tracks(post[k].url@)
            &&& post[k].tracking_started_at == now
            &&& post[k].last_checked is None
        }
    &&& forall|u: Seq<char>|
        #[trigger] urls.contains(u) && discovery_tracks(u) ==> spec_contains_coll_url(post, u)
}

/// Routes every member URL of one resolved collection, in order.
pub fn ingest_discovered(
    archive: &Archive,
    aq: &mut ArchivalQueue,
    cq: &mut CollectionQueue,
    urls: &Vec<String>,
    now: i64,
)
    requires
        old(aq).wf(),
        old(cq).wf(),
        old(aq).spec_next_id() + urls@.len() <= i64::MAX,
        old(cq).spec_next_id() + urls@.len() <= i64::MAX,
    ensures
        final(aq).wf(),
        final(cq).wf(),
        final(aq).spec_next_id() <= old(aq).spec_next_id() + urls@.len(),
        final(cq).spec_next_id() <= old(cq).spec_next_id() + urls@.len(),
        discovery_outcome_aq(archive.spec_videos(), old(aq)@, final(aq)@, urls.deep_view(), now),
        discovery_outcome_cq(old(cq)@, final(cq)@, urls.deep_view(), now),
{
    let n = urls.len();
    let mut i: usize = 0;
    while i < n
        invariant
            aq.wf(),
            cq.wf(),
            i <= n,
            n == urls@.len(),
            aq.spec_next_id() <= old(aq).spec_next_id() + i,
            cq.spec_next_id() <= old(cq).spec_next_id() + i,
            old(aq).spec_next_id() + urls@.len() <= i64::MAX,
            old(cq).spec_next_id() + urls@.len() <= i64::MAX,
            discovery_outcome_aq(
                archive.spec_videos(),
                old(aq)@,
                aq@,
                urls.deep_view().subrange(0, i as int),
                now,
            ),
            discovery_outcome_cq(old(cq)@, cq@, urls.deep_view().subrange(0, i as int), now),
        decreases n - i,
    {
        let ghost aq_mid = aq@;
        let ghost cq_mid = cq@;
        let ghost processed = urls.deep_view().subrange(0, i as int);
        let url = urls[i].clone();
        assert(url@ == urls.deep_view()[i as int]);
        process_discovered_url(archive, aq, cq, url, now);
        proof {
            let processed_next = urls.deep_view().subrange(0, i + 1);
            assert(processed_next.drop_last() =~= processed);
            assert(processed_next.last() == urls.deep_view()[i as int]);
            lemma_outcome_extend_aq(
                archive.spec_videos(),
                old(aq)@,
                aq_mid,
                aq@,
                processed,
                urls.deep_view()[i as int],
                now,
            );
            lemma_outcome_extend_cq(
                old(cq)@,
                cq_mid,
                cq@,
                processed,
                urls.deep_view()[i as int],
                now,
            );
            assert(processed.push(urls.deep_view()[i as int]) =~= processed_next);
        }
        i += 1;
    }
    proof {
        assert(urls.deep_view().subrange(0, n as int) =~= urls.deep_view());
    }
}

/// Extending a discovery pass by one URL keeps the pass's outcome shape on
/// the archival queue.
proof fn lemma_outcome_extend_aq(
    videos: Seq<Video>,
    pre: Seq<ScheduledArchival>,
    mid: Seq<ScheduledArchival>,
    post: Seq<ScheduledArchival>,
    urls: Seq<Seq<char>>,
    url: Seq<char>,
    now: i64,
)
    requires
        discovery_outcome_aq(videos, pre, mid, urls, now),
        discover_step_aq(videos, mid, post, url, now),
    ensures
        discovery_outcome_aq(videos, pre, post, urls.push(url), now),
{
    let urls2 = urls.push(url);
    assert forall|u: Seq<char>| #[trigger] urls.contains(u) implies urls2.contains(u) by {
        let w = choose|w: int| 0 <= w < urls.len() && urls[w] == u;
        assert(urls2[w] == u);
    }
    assert(urls2[urls.len() as int] == url);
    assert(urls2.contains(url));
    if discovery_schedules(url) && !spec_has_video_url(videos, url) {
        if spec_contains_url(mid, url) {
            assert(post == mid);
        } else {
            assert(post.len() == mid.len() + 1);
            assert(post.subrange(0, mid.len() as int) == mid);
            assert(mid.is_prefix_of(post));
            assert(pre.is_prefix_of(post));
            assert forall|k: int| 0 <= k < mid.len() implies post[k] == mid[k] by {
                assert(post.subrange(0, mid.len() as int)[k] == post[k]);
            }
            assert(spec_contains_url(post, url)) by {
                assert(post[post.len() - 1].url@ == url);
            }
        }
    } else {
        assert(post == mid);
    }
    assert forall|u: Seq<char>|
        #[trigger] urls2.contains(u) && discovery_schedules(u) && !spec_has_video_url(
            videos,
            u,
        ) implies spec_contains_url(post, u) by {
        let w = choose|w: int| 0 <= w < urls2.len() && urls2[w] == u;
        if w < urls.len() {
            assert(urls.contains(u)) by {
                assert(urls[w] == u);
            }
            assert(spec_contains_url(mid, u));
            let x = choose|x: int| 0 <= x < mid.len() && #[trigger] mid[x].url@ == u;
            assert(post[x].url@ == u);
        } else {
            assert(u == url);
        }
    }
}

/// Extending a discovery pass by one URL keeps the pass's outcome shape on
/// the collection queue.
proof fn lemma_outcome_extend_cq(
    pre: Seq<TrackedCollection>,
    mid: Seq<TrackedCollection>,
    post: Seq<TrackedCollection>,
    urls: Seq<Seq<char>>,
    url: Seq<char>,
    now: i64,
)
    requires
        discovery_outcome_cq(pre, mid, urls, now),
        discover_step_cq(mid, post, url, now),
    ensures
        discovery_outcome_cq(pre, post, urls.push(url), now),
{
    let urls2 = urls.push(url);
    assert forall|u: Seq<char>| #[trigger] urls.contains(u) implies urls2.contains(u) by {
        let w = choose|w: int| 0 <= w < urls.len() && urls[w] == u;
        assert(urls2[w] == u);
    }
    assert(urls2[urls.len() as int] == url);
    assert(urls2.contains(url));
    if discovery_tracks(url) {
        if spec_contains_coll_url(mid, url) {
            assert(post == mid);
        } else {
            assert(post.subrange(0, mid.len() as int) == mid);
            assert(mid.is_prefix_of(post));
            assert(pre.is_prefix_of(post));
            assert forall|k: int| 0 <= k < mid.len() implies post[k] == mid[k] by {
                assert(post.subrange(0, mid.len() as int)[k] == post[k]);
            }
            assert(spec_contains_coll_url(post, url)) by {
                assert(post[post.len() - 1].url@ == url);
            }
        }
    } else {
        assert(post == mid);
    }
    assert forall|u: Seq<char>|
        #[trigger] urls2.contains(u) && discovery_tracks(u) implies spec_contains_coll_url(
            post,
            u,
        ) by {
        let w = choose|w: int| 0 <= w < urls2.len() && urls2[w] == u;
        if w < urls.len() {
            assert(urls.contains(u)) by {
                assert(urls[w] == u);
            }
            assert(spec_contains_coll_url(mid, u));
            let x = choose|x: int| 0 <= x < mid.len() && #[trigger] mid[x].url@ == u;
            assert(post[x].url@ == u);
        } else {
            assert(u == url);
        }
    }
}

/// A discovery pass never schedules a URL that is already archived: if some
/// video row carries the URL and it was not queued before the pass, it is
/// not queued after the pass either.
pub proof fn lemma_discovery_deduplicates(
    videos: Seq<Video>,
    pre: Seq<ScheduledArchival>,
    post: Seq<ScheduledArchival>,
    urls: Seq<Seq<char>>,
    now: i64,
    u: Seq<char>,
)
    requires
        discovery_outcome_aq(videos, pre, post, urls, now),
        spec_has_video_url(videos, u),
        !spec_contains_url(pre, u),
    ensures
        !spec_contains_url(post, u),
{
    assert forall|k: int| 0 <= k < post.len() implies (#[trigger] post[k].url@) != u by {
        if k < pre.len() {
            assert(pre.subrange(0, pre.len() as int) =~= pre);
            assert(post[k] == pre.subrange(0, pre.len() as int)[k]);
            assert(post[k] == pre[k]);
        } else {
            assert(!spec_has_video_url(videos, post[k].url@));
        }
    }
}

// ---------------------------------------------------------------------------
// The discovery worker's state machine.
// ---------------------------------------------------------------------------

/// Where one discovery worker stands in its poll loop.
#[derive(Debug)]
pub enum TrackerState {
    /// Between runs.
    Idle,
    /// A collection is held under lease; the resolver is running on it.
    Resolving { collection: TrackedCollection },
}

/// What the outside world reports to the discovery worker.
#[derive(Debug)]
pub enum TrackerEvent {
    /// The poll timer fired.
    Tick,
    /// The resolver returned the collection's member URLs, or failed; a
    /// collection may legitimately resolve to zero members.
    MembersResolved { members: Option<Vec<String>> },
}

/// What the discovery worker asks the outside world to do next.
#[derive(Debug)]
pub enum TrackerAction {
    /// Invoke the resolver on this collection URL and report back.
    Resolve { url: String },
    /// Nothing was eligible or the resolver failed: sleep one idle interval
    /// before the next tick, so the store is not busy-polled.
    Sleep,
    /// A collection was processed: poll again at once.
    Proceed,
}

/// How many member URLs a resolver answer carries.
pub open spec fn members_len(event: TrackerEvent) -> int {
    match event {
        TrackerEvent::MembersResolved { members: Some(urls) } => urls@.len() as int,
        _ => 0,
    }
}

/// What one step of the discovery worker does, given its state and the
/// event: a tick claims a collection under the lease and starts resolution
/// or goes back to sleep; a resolver answer routes every member URL and
/// releases the worker; a resolver failure changes nothing, the claim's
/// lease alone providing the retry; a mismatched event resets the worker.
pub open spec fn tracker_step_spec(
    state: TrackerState,
    event: TrackerEvent,
    videos: Seq<Video>,
    aq0: Seq<ScheduledArchival>,
    aq1: Seq<ScheduledArchival>,
    cq0: Seq<TrackedCollection>,
    cq1: Seq<TrackedCollection>,
    r: (TrackerState, TrackerAction),
    now: i64,
    lease_seconds: i64,
) -> bool {
    match (state, event) {
        (TrackerState::Idle, TrackerEvent::Tick) => {
            &&& aq1 == aq0
            &&& exists|res: Option<TrackedCollection>|
                {
                    &&& #[trigger] coll_claim_step(cq0, cq1, res, now, lease_seconds)
                    &&& match res {
                        Some(e) => r == (
                            TrackerState::Resolving { collection: e },
                            TrackerAction::Resolve { url: e.url },
                        ),
                        None => r == (TrackerState::Idle, TrackerAction::Sleep),
                    }
                }
        },
        (
            TrackerState::Resolving { collection },
            TrackerEvent::MembersResolved { members: Some(urls) },
        ) => {
            &&& discovery_outcome_aq(videos, aq0, aq1, urls.deep_view(), now)
            &&& discovery_outcome_cq(cq0, cq1, urls.deep_view(), now)
            &&& r == (TrackerState::Idle, TrackerAction::Proceed)
        },
        (TrackerState::Resolving { collection }, TrackerEvent::MembersResolved { members: None }) => {
            &&& aq1 == aq0
            &&& cq1 == cq0
            &&& r == (TrackerState::Idle, TrackerAction::Sleep)
        },
        _ => {
            &&& aq1 == aq0
            &&& cq1 == cq0
            &&& r == (TrackerState::Idle, TrackerAction::Sleep)
        },
    }
}

/// Drives the discovery worker one step: the periodic claim of a tracked
/// collection, the routing of its resolved members, and the silent recovery
/// from resolver failure.
pub fn tracker_step(
    state: TrackerState,
    event: TrackerEvent,
    archive: &Archive,
    aq: &mut ArchivalQueue,
    cq: &mut CollectionQueue,
    now: i64,
    lease_seconds: i64,
) -> (r: (TrackerState, TrackerAction))
    requires
        old(aq).wf(),
        old(cq).wf(),
        0 < lease_seconds,
        now + lease_seconds <= i64::MAX,
        old(aq).spec_next_id() + members_len(event) <= i64::MAX,
        old(cq).spec_next_id() + members_len(event) <= i64::MAX,
    ensures
        final(aq).wf(),
        final(cq).wf(),
        tracker_step_spec(
            state,
            event,
            archive.spec_videos(),
            old(aq)@,
            final(aq)@,
            old(cq)@,
            final(cq)@,
            r,
            now,
            lease_seconds,
        ),
{
    match (state, event) {
        (TrackerState::Idle, TrackerEvent::Tick) => {
            let claimed = cq.claim(now, lease_seconds);
            let ghost res = claimed;
            match claimed {
                Some(e) => {
                    let url = e.url.clone();
                    let out = (
                        TrackerState::Resolving { collection: e },
                        TrackerAction::Resolve { url },
                    );
                    proof {
                        assert(coll_claim_step(old(cq)@, cq@, res, now, lease_seconds));
                    }
                    out
                },
                None => (TrackerState::Idle, TrackerAction::Sleep),
            }
        },
        (
            TrackerState::Resolving { collection },
            TrackerEvent::MembersResolved { members: Some(urls) },
        ) => {
            ingest_discovered(archive, aq, cq, &urls, now);
            (TrackerState::Idle, TrackerAction::Proceed)
        },
        (_, _) => (TrackerState::Idle, TrackerAction::Sleep),
    }
}

} // verus!
