use vstd::prelude::*;
use crate::strings::str_eq;

verus! {

// ---------------------------------------------------------------------------
// Rows.
// ---------------------------------------------------------------------------

/// A single-item archival job: one row of the archival work queue.
#[derive(Debug, Clone)]
pub struct ScheduledArchival {
    /// Unique, assigned by the queue on insert.
    pub id: i64,
    /// Unique; duplicate insertion is a silent no-op.
    pub url: String,
    /// Seconds since the epoch; set at insertion, immutable.
    pub scheduled_at: i64,
    /// The earliest instant the entry may be claimed; advanced to now plus
    /// the lease timeout by a claim and to now plus the backoff by a failure
    /// retry.
    pub not_before: i64,
}

impl ScheduledArchival {
    /// An identical copy of the row.
    pub fn duplicate(&self) -> (r: ScheduledArchival)
        ensures
            r == *self,
    {
        ScheduledArchival {
            id: self.id,
            url: self.url.clone(),
            scheduled_at: self.scheduled_at,
            not_before: self.not_before,
        }
    }
}

/// A recurring discovery job: one row of the collection queue. Never
/// deleted; re-checked indefinitely on a rolling schedule.
#[derive(Debug, Clone)]
pub struct TrackedCollection {
    /// Unique, assigned by the queue on insert.
    pub id: i64,
    /// Unique; duplicate insertion is a silent no-op.
    pub url: String,
    /// Seconds since the epoch; set at insertion, immutable.
    pub tracking_started_at: i64,
    /// None means never checked; otherwise the lease timestamp, advanced to
    /// now plus the lease timeout by a claim.
    pub last_checked: Option<i64>,
}

impl TrackedCollection {
    /// An identical copy of the row.
    pub fn duplicate(&self) -> (r: TrackedCollection)
        ensures
            r == *self,
    {
        TrackedCollection {
            id: self.id,
            url: self.url.clone(),
            tracking_started_at: self.tracking_started_at,
            last_checked: self.last_checked,
        }
    }
}

// ---------------------------------------------------------------------------
// Eligibility and the claim-step relation of the archival queue.
// ---------------------------------------------------------------------------

/// An archival row may be claimed once its eligibility timestamp has passed.
pub open spec fn eligible(e: ScheduledArchival, now: i64) -> bool {
    e.not_before < now
}

/// No archival row is claimable at `now`.
pub open spec fn none_eligible(entries: Seq<ScheduledArchival>, now: i64) -> bool {
    forall|i: int| 0 <= i < entries.len() ==> !eligible(#[trigger] entries[i], now)
}

/// Exactly one archival row is claimable at `now`.
pub open spec fn exactly_one_eligible(entries: Seq<ScheduledArchival>, now: i64) -> bool {
    exists|i: int|
        0 <= i < entries.len() && eligible(#[trigger] entries[i], now) && (forall|j: int|
            0 <= j < entries.len() && j != i ==> !eligible(#[trigger] entries[j], now))
}

/// Some queue entry has this URL.
pub open spec fn spec_contains_url(entries: Seq<ScheduledArchival>, url: Seq<char>) -> bool {
    exists|i: int| 0 <= i < entries.len() && #[trigger] entries[i].url@ == url
}

/// Some queue entry has this identifier.
pub open spec fn spec_contains_id(entries: Seq<ScheduledArchival>, id: i64) -> bool {
    exists|i: int| 0 <= i < entries.len() && #[trigger] entries[i].id == id
}

/// The claim took row `i`: the returned row `e` is its pre-claim data, its
/// eligibility timestamp is advanced to now plus the lease timeout, and every
/// other row is untouched.
pub open spec fn claimed_at(
    pre: Seq<ScheduledArchival>,
    post: Seq<ScheduledArchival>,
    e: ScheduledArchival,
    now: i64,
    lease_timeout: i64,
    i: int,
) -> bool {
    &&& 0 <= i < pre.len()
    &&& post.len() == pre.len()
    &&& pre[i] == e
    &&& eligible(e, now)
    &&& post[i].id == e.id
    &&& post[i].url == e.url
    &&& post[i].scheduled_at == e.scheduled_at
    &&& post[i].not_before == now + lease_timeout
    &&& forall|j: int| 0 <= j < pre.len() && j != i ==> post[j] == pre[j]
}

/// What one claim call does to the archival queue: either no row was
/// eligible and nothing changed, or exactly one eligible row had its lease
/// taken.
pub open spec fn claim_step(
    pre: Seq<ScheduledArchival>,
    post: Seq<ScheduledArchival>,
    r: Option<ScheduledArchival>,
    now: i64,
    lease_timeout: i64,
) -> bool {
    match r {
        None => post == pre && none_eligible(pre, now),
        Some(e) => exists|i: int| #[trigger] claimed_at(pre, post, e, now, lease_timeout, i),
    }
}

/// What one idempotent insert does to the archival queue: a no-op when the
/// URL is already queued, else exactly one new row with this URL, created
/// immediately claimable.
pub open spec fn enqueue_step(
    pre: Seq<ScheduledArchival>,
    post: Seq<ScheduledArchival>,
    url: Seq<char>,
    now: i64,
    inserted: bool,
) -> bool {
    if spec_contains_url(pre, url) {
        !inserted && post == pre
    } else {
        &&& inserted
        &&& post.len() == pre.len() + 1
        &&& post.subrange(0, pre.len() as int) == pre
        &&& post.last().url@ == url
        &&& post.last().scheduled_at == now
        &&& post.last().not_before == now
    }
}

/// What one failure retry does to the archival queue: the row stays queued
/// and its eligibility timestamp moves to now plus the backoff; all other
/// rows are untouched.
pub open spec fn backoff_step(
    pre: Seq<ScheduledArchival>,
    post: Seq<ScheduledArchival>,
    id: i64,
    now: i64,
    backoff: i64,
    found: bool,
) -> bool {
    &&& post.len() == pre.len()
    &&& found == exists|i: int| 0 <= i < pre.len() && #[trigger] pre[i].id == id
    &&& forall|i: int|
        0 <= i < pre.len() && #[trigger] pre[i].id != id ==> post[i] == pre[i]
    &&& forall|i: int|
        0 <= i < pre.len() && #[trigger] pre[i].id == id ==> {
            &&& post[i].id == pre[i].id
            &&& post[i].url == pre[i].url
            &&& post[i].scheduled_at == pre[i].scheduled_at
            &&& post[i].not_before == now + backoff
        }
}

/// What one completion does to the archival queue: the row with this
/// identifier is deleted; deleting an absent row is a no-op.
pub open spec fn complete_step(
    pre: Seq<ScheduledArchival>,
    post: Seq<ScheduledArchival>,
    id: i64,
    removed: bool,
) -> bool {
    if exists|i: int| 0 <= i < pre.len() && #[trigger] pre[i].id == id {
        &&& removed
        &&& exists|i: int|
            0 <= i < pre.len() && #[trigger] pre[i].id == id && post == pre.remove(i)
    } else {
        !removed && post == pre
    }
}

/// Entry identifiers never repeat and URLs never repeat.
pub open spec fn wf_entries(entries: Seq<ScheduledArchival>) -> bool {
    &&& forall|i: int, j: int|
        0 <= i < j < entries.len() ==> (#[trigger] entries[i].id) != (#[trigger] entries[j].id)
    &&& forall|i: int, j: int|
        0 <= i < j < entries.len() ==> (#[trigger] entries[i].url@) != (#[trigger] entries[j].url@)
}

// ---------------------------------------------------------------------------
// The archival work queue.
// ---------------------------------------------------------------------------

/// The durable queue of single-item archival jobs, with atomic
/// claim-with-lease semantics. The claim is the only coordination between
/// competing workers: a claimed row is protected by its advanced eligibility
/// timestamp until the lease lapses, and completion deletes the row.
pub struct ArchivalQueue {
    entries: Vec<ScheduledArchival>,
    next_id: i64,
}

impl View for ArchivalQueue {
    type V = Seq<ScheduledArchival>;

    closed spec fn view(&self) -> Seq<ScheduledArchival> {
        self.entries@
    }
}

impl ArchivalQueue {
    /// The next identifier the queue will assign.
    pub closed spec fn spec_next_id(self) -> int {
        self.next_id as int
    }

    /// Identifiers and URLs are unique and identifiers stay below the next
    /// one to be assigned.
    pub closed spec fn wf(self) -> bool {
        &&& 0 <= self.next_id
        &&& wf_entries(self.entries@)
        &&& forall|i: int|
            0 <= i < self.entries@.len() ==> (#[trigger] self.entries@[i].id) < self.next_id
    }

    /// An empty queue.
    pub fn new() -> (q: ArchivalQueue)
        ensures
            q.wf(),
            q@ =~= Seq::<ScheduledArchival>::empty(),
            q.spec_next_id() == 0,
    {
        ArchivalQueue { entries: Vec::new(), next_id: 0 }
    }

    /// All rows, in store order.
    pub fn rows(&self) -> (r: &Vec<ScheduledArchival>)
        ensures
            r@ == self@,
    {
        &self.entries
    }

    /// Whether the queue can still assign `n` fresh identifiers; unverified
    /// callers test this before inserting.
    pub fn capacity_for(&self, n: usize) -> (r: bool)
        requires
            self.wf(),
        ensures
            r == (self.spec_next_id() + n <= i64::MAX),
    {
        (n as u64) <= (i64::MAX - self.next_id) as u64
    }

    /// Whether some row carries this URL.
    pub fn contains_url(&self, url: &str) -> (r: bool)
        ensures
            r == spec_contains_url(self@, url@),
    {
        let n = self.entries.len();
        let mut i: usize = 0;
        while i < n
            invariant
                i <= n,
                n == self@.len(),
                forall|k: int| 0 <= k < i ==> #[trigger] self@[k].url@ != url@,
            decreases n - i,
        {
            if str_eq(self.entries[i].url.as_str(), url) {
                return true;
            }
            i += 1;
        }
        false
    }

    /// Idempotent insert: a new row claimable at once, or a silent no-op
    /// when the URL is already queued.
    pub fn enqueue(&mut self, url: String, now: i64) -> (inserted: bool)
        requires
            old(self).wf(),
            old(self).spec_next_id() < i64::MAX,
        ensures
            final(self).wf(),
            final(self).spec_next_id() <= old(self).spec_next_id() + 1,
            enqueue_step(old(self)@, final(self)@, url@, now, inserted),
    {
        if self.contains_url(url.as_str()) {
            return false;
        }
        let id = self.next_id;
        self.next_id = self.next_id + 1;
        let ghost pre = self.entries@;
        self.entries.push(
            ScheduledArchival { id, url, scheduled_at: now, not_before: now },
        );
        proof {
            assert(self.entries@.subrange(0, pre.len() as int) =~= pre);
            assert forall|i: int, j: int| 0 <= i < j < self.entries@.len() implies (
                #[trigger] self.entries@[i].id) != (#[trigger] self.entries@[j].id) by {
                if j == pre.len() {
                    assert(pre[i].id < id);
                }
            }
            assert forall|i: int, j: int| 0 <= i < j < self.entries@.len() implies (
                #[trigger] self.entries@[i].url@) != (#[trigger] self.entries@[j].url@) by {
                assert(self.entries@[i] == pre[i]);
                if j == pre.len() {
                    assert(!spec_contains_url(pre, self.entries@[j].url@));
                    assert((#[trigger] pre[i].url@) != self.entries@[j].url@);
                } else {
                    assert(self.entries@[j] == pre[j]);
                    assert((#[trigger] pre[i].url@) != (#[trigger] pre[j].url@));
                }
            }
        }
        true
    }

    /// Finds some claimable row.
    fn find_eligible(&self, now: i64) -> (r: Option<usize>)
        ensures
            r matches Some(i) ==> i < self@.len() && eligible(self@[i as int], now),
            r is None ==> none_eligible(self@, now),
    {
        let n = self.entries.len();
        let mut i: usize = 0;
        while i < n
            invariant
                i <= n,
                n == self@.len(),
                forall|k: int| 0 <= k < i ==> !eligible(#[trigger] self@[k], now),
            decreases n - i,
        {
            if self.entries[i].not_before < now {
                return Some(i);
            }
            i += 1;
        }
        None
    }

    /// The atomic claim: selects some eligible row, advances its
    /// eligibility timestamp to now plus the lease timeout, and returns the
    /// row's pre-claim data; returns nothing when no row is eligible. The
    /// advanced timestamp is the lease: it protects the row from other
    /// claimants until it lapses, and lapses by itself if the worker
    /// crashes.
    pub fn claim(&mut self, now: i64, lease_timeout: i64) -> (r: Option<ScheduledArchival>)
        requires
            old(self).wf(),
            0 < lease_timeout,
            now + lease_timeout <= i64::MAX,
        ensures
            final(self).wf(),
            final(self).spec_next_id() == old(self).spec_next_id(),
            claim_step(old(self)@, final(self)@, r, now, lease_timeout),
    {
        match self.find_eligible(now) {
            None => None,
            Some(i) => {
                let ghost pre = self.entries@;
                let e = self.entries[i].duplicate();
                self.entries[i].not_before = now + lease_timeout;
                proof {
                    let ghost ropt: Option<ScheduledArchival> = Some(e);
                    assert(claimed_at(pre, self.entries@, ropt->0, now, lease_timeout, i as int));
                    assert(claim_step(pre, self.entries@, ropt, now, lease_timeout));
                    assert forall|a: int, b: int| 0 <= a < b < self.entries@.len() implies (
                        #[trigger] self.entries@[a].id) != (#[trigger] self.entries@[b].id) by {
                        assert(pre[a].id == self.entries@[a].id);
                        assert(pre[b].id == self.entries@[b].id);
                    }
                    assert forall|a: int, b: int| 0 <= a < b < self.entries@.len() implies (
                        #[trigger] self.entries@[a].url@) != (#[trigger] self.entries@[b].url@) by {
                        assert(pre[a].url == self.entries@[a].url);
                        assert(pre[b].url == self.entries@[b].url);
                    }
                }
                Some(e)
            },
        }
    }

    /// The failure retry: sets the row's eligibility timestamp to now plus
    /// the backoff, overriding the lease; the row stays queued.
    pub fn apply_backoff(&mut self, id: i64, now: i64, backoff: i64) -> (found: bool)
        requires
            old(self).wf(),
            0 <= backoff,
            now + backoff <= i64::MAX,
        ensures
            final(self).wf(),
            final(self).spec_next_id() == old(self).spec_next_id(),
            backoff_step(old(self)@, final(self)@, id, now, backoff, found),
    {
        let n = self.entries.len();
        let mut i: usize = 0;
        while i < n
            invariant
                *self == *old(self),
                old(self).wf(),
                i <= n,
                n == self@.len(),
                now + backoff <= i64::MAX,
                0 <= backoff,
                forall|k: int| 0 <= k < i ==> (#[trigger] self@[k].id) != id,
            decreases n - i,
        {
            if self.entries[i].id == id {
                let ghost pre = self.entries@;
                self.entries[i].not_before = now + backoff;
                proof {
                    assert forall|a: int, b: int| 0 <= a < b < self.entries@.len() implies (
                        #[trigger] self.entries@[a].id) != (#[trigger] self.entries@[b].id) by {
                        assert(pre[a].id == self.entries@[a].id);
                        assert(pre[b].id == self.entries@[b].id);
                    }
                    assert forall|a: int, b: int| 0 <= a < b < self.entries@.len() implies (
                        #[trigger] self.entries@[a].url@) != (#[trigger] self.entries@[b].url@) by {
                        assert(pre[a].url == self.entries@[a].url);
                        assert(pre[b].url == self.entries@[b].url);
                    }
                    assert forall|k: int|
                        0 <= k < pre.len() && (#[trigger] pre[k].id) == id implies k
                        == i as int by {
                        if k != i as int {
                            assert(pre[k].id != pre[i as int].id);
                        }
                    }
                }
                return true;
            }
            i += 1;
        }
        false
    }

    /// Completion: deletes the row with this identifier; deleting a row
    /// another worker already deleted is a no-op.
    pub fn complete(&mut self, id: i64) -> (removed: bool)
        requires
            old(self).wf(),
        ensures
            final(self).wf(),
            final(self).spec_next_id() == old(self).spec_next_id(),
            complete_step(old(self)@, final(self)@, id, removed),
    {
        let n = self.entries.len();
        let mut i: usize = 0;
        while i < n
            invariant
                *self == *old(self),
                old(self).wf(),
                i <= n,
                n == self@.len(),
                forall|k: int| 0 <= k < i ==> (#[trigger] self@[k].id) != id,
            decreases n - i,
        {
            if self.entries[i].id == id {
                let ghost pre = self.entries@;
                let _ = self.entries.remove(i);
                proof {
                    assert(self.entries@ == pre.remove(i as int));
                    assert forall|a: int, b: int| 0 <= a < b < self.entries@.len() implies (
                        #[trigger] self.entries@[a].id) != (#[trigger] self.entries@[b].id) by {
                        let a0 = if a < i as int { a } else { a + 1 };
                        let b0 = if b < i as int { b } else { b + 1 };
                        assert(self.entries@[a] == pre[a0]);
                        assert(self.entries@[b] == pre[b0]);
                    }
                    assert forall|a: int, b: int| 0 <= a < b < self.entries@.len() implies (
                        #[trigger] self.entries@[a].url@) != (#[trigger] self.entries@[b].url@) by {
                        let a0 = if a < i as int { a } else { a + 1 };
                        let b0 = if b < i as int { b } else { b + 1 };
                        assert(self.entries@[a] == pre[a0]);
                        assert(self.entries@[b] == pre[b0]);
                    }
                    assert forall|k: int|
                        0 <= k < self.entries@.len() implies (#[trigger] self.entries@[k].id)
                        < self.next_id by {
                        let k0 = if k < i as int { k } else { k + 1 };
                        assert(self.entries@[k] == pre[k0]);
                    }
                }
                return true;
            }
            i += 1;
        }
        false
    }
}

// ---------------------------------------------------------------------------
// The collection discovery queue: the same claim protocol over rows whose
// eligibility timestamp starts out absent and that are never deleted.
// ---------------------------------------------------------------------------

/// A collection row may be claimed when it was never checked or its last
/// check timestamp has passed.
pub open spec fn coll_eligible(e: TrackedCollection, now: i64) -> bool {
    e.last_checked is None || e.last_checked->0 < now
}

/// No collection row is claimable at `now`.
pub open spec fn coll_none_eligible(entries: Seq<TrackedCollection>, now: i64) -> bool {
    forall|i: int| 0 <= i < entries.len() ==> !coll_eligible(#[trigger] entries[i], now)
}

/// Some collection row has this URL.
pub open spec fn spec_contains_coll_url(entries: Seq<TrackedCollection>, url: Seq<char>) -> bool {
    exists|i: int| 0 <= i < entries.len() && #[trigger] entries[i].url@ == url
}

/// The claim took collection row `i`: the returned row is its pre-claim
/// data, its check timestamp is advanced to now plus the lease timeout, and
/// every other row is untouched.
pub open spec fn coll_claimed_at(
    pre: Seq<TrackedCollection>,
    post: Seq<TrackedCollection>,
    e: TrackedCollection,
    now: i64,
    lease_timeout: i64,
    i: int,
) -> bool {
    &&& 0 <= i < pre.len()
    &&& post.len() == pre.len()
    &&& pre[i] == e
    &&& coll_eligible(e, now)
    &&& post[i].id == e.id
    &&& post[i].url == e.url
    &&& post[i].tracking_started_at == e.tracking_started_at
    &&& post[i].last_checked is Some
    &&& post[i].last_checked->0 == now + lease_timeout
    &&& forall|j: int| 0 <= j < pre.len() && j != i ==> post[j] == pre[j]
}

/// What one claim call does to the collection queue.
pub open spec fn coll_claim_step(
    pre: Seq<TrackedCollection>,
    post: Seq<TrackedCollection>,
    r: Option<TrackedCollection>,
    now: i64,
    lease_timeout: i64,
) -> bool {
    match r {
        None => post == pre && coll_none_eligible(pre, now),
        Some(e) => exists|i: int| #[trigger] coll_claimed_at(pre, post, e, now, lease_timeout, i),
    }
}

/// What one idempotent insert does to the collection queue: a no-op when
/// the URL is already tracked, else one new, never-checked row.
pub open spec fn coll_enqueue_step(
    pre: Seq<TrackedCollection>,
    post: Seq<TrackedCollection>,
    url: Seq<char>,
    now: i64,
    inserted: bool,
) -> bool {
    if spec_contains_coll_url(pre, url) {
        !inserted && post == pre
    } else {
        &&& inserted
        &&& post.len() == pre.len() + 1
        &&& post.subrange(0, pre.len() as int) == pre
        &&& post.last().url@ == url
        &&& post.last().tracking_started_at == now
        &&& post.last().last_checked is None
    }
}

/// Collection identifiers never repeat and URLs never repeat.
pub open spec fn wf_coll_entries(entries: Seq<TrackedCollection>) -> bool {
    &&& forall|i: int, j: int|
        0 <= i < j < entries.len() ==> (#[trigger] entries[i].id) != (#[trigger] entries[j].id)
    &&& forall|i: int, j: int|
        0 <= i < j < entries.len() ==> (#[trigger] entries[i].url@) != (#[trigger] entries[j].url@)
}

/// The durable queue of recurring discovery jobs: tracked collections are
/// claimed with the same lease protocol as archival jobs, re-checked on a
/// rolling schedule, and never deleted.
pub struct CollectionQueue {
    entries: Vec<TrackedCollection>,
    next_id: i64,
}

impl View for CollectionQueue {
    type V = Seq<TrackedCollection>;

    closed spec fn view(&self) -> Seq<TrackedCollection> {
        self.entries@
    }
}

impl CollectionQueue {
    /// The next identifier the queue will assign.
    pub closed spec fn spec_next_id(self) -> int {
        self.next_id as int
    }

    /// Identifiers and URLs are unique and identifiers stay below the next
    /// one to be assigned.
    pub closed spec fn wf(self) -> bool {
        &&& 0 <= self.next_id
        &&& wf_coll_entries(self.entries@)
        &&& forall|i: int|
            0 <= i < self.entries@.len() ==> (#[trigger] self.entries@[i].id) < self.next_id
    }

    /// An empty queue.
    pub fn new() -> (q: CollectionQueue)
        ensures
            q.wf(),
            q@ =~= Seq::<TrackedCollection>::empty(),
            q.spec_next_id() == 0,
    {
        CollectionQueue { entries: Vec::new(), next_id: 0 }
    }

    /// All rows, in store order.
    pub fn rows(&self) -> (r: &Vec<TrackedCollection>)
        ensures
            r@ == self@,
    {
        &self.entries
    }

    /// Whether the queue can still assign `n` fresh identifiers; unverified
    /// callers test this before inserting.
    pub fn capacity_for(&self, n: usize) -> (r: bool)
        requires
            self.wf(),
        ensures
            r == (self.spec_next_id() + n <= i64::MAX),
    {
        (n as u64) <= (i64::MAX - self.next_id) as u64
    }

    /// Whether some row carries this URL.
    pub fn contains_url(&self, url: &str) -> (r: bool)
        ensures
            r == spec_contains_coll_url(self@, url@),
    {
        let n = self.entries.len();
        let mut i: usize = 0;
        while i < n
            invariant
                i <= n,
                n == self@.len(),
                forall|k: int| 0 <= k < i ==> #[trigger] self@[k].url@ != url@,
            decreases n - i,
        {
            if str_eq(self.entries[i].url.as_str(), url) {
                return true;
            }
            i += 1;
        }
        false
    }

    /// Idempotent insert: a new, never-checked row, or a silent no-op when
    /// the URL is already tracked.
    pub fn enqueue(&mut self, url: String, now: i64) -> (inserted: bool)
        requires
            old(self).wf(),
            old(self).spec_next_id() < i64::MAX,
        ensures
            final(self).wf(),
            final(self).spec_next_id() <= old(self).spec_next_id() + 1,
            coll_enqueue_step(old(self)@, final(self)@, url@, now, inserted),
    {
        if self.contains_url(url.as_str()) {
            return false;
        }
        let id = self.next_id;
        self.next_id = self.next_id + 1;
        let ghost pre = self.entries@;
        self.entries.push(
            TrackedCollection { id, url, tracking_started_at: now, last_checked: None },
        );
        proof {
            assert(self.entries@.subrange(0, pre.len() as int) =~= pre);
            assert forall|i: int, j: int| 0 <= i < j < self.entries@.len() implies (
                #[trigger] self.entries@[i].id) != (#[trigger] self.entries@[j].id) by {
                if j == pre.len() {
                    assert(pre[i].id < id);
                }
            }
            assert forall|i: int, j: int| 0 <= i < j < self.entries@.len() implies (
                #[trigger] self.entries@[i].url@) != (#[trigger] self.entries@[j].url@) by {
                assert(self.entries@[i] == pre[i]);
                if j == pre.len() {
                    assert(!spec_contains_coll_url(pre, self.entries@[j].url@));
                    assert((#[trigger] pre[i].url@) != self.entries@[j].url@);
                } else {
                    assert(self.entries@[j] == pre[j]);
                    assert((#[trigger] pre[i].url@) != (#[trigger] pre[j].url@));
                }
            }
        }
        true
    }

    /// Finds some claimable row.
    fn find_eligible(&self, now: i64) -> (r: Option<usize>)
        ensures
            r matches Some(i) ==> i < self@.len() && coll_eligible(self@[i as int], now),
            r is None ==> coll_none_eligible(self@, now),
    {
        let n = self.entries.len();
        let mut i: usize = 0;
        while i < n
            invariant
                i <= n,
                n == self@.len(),
                forall|k: int| 0 <= k < i ==> !coll_eligible(#[trigger] self@[k], now),
            decreases n - i,
        {
            let due = match self.entries[i].last_checked {
                None => true,
                Some(t) => t < now,
            };
            if due {
                return Some(i);
            }
            i += 1;
        }
        None
    }

    /// The atomic claim: selects some row never checked or whose last check
    /// timestamp has passed, advances that timestamp to now plus the lease
    /// timeout, and returns the row's pre-claim data.
    pub fn claim(&mut self, now: i64, lease_timeout: i64) -> (r: Option<TrackedCollection>)
        requires
            old(self).wf(),
            0 < lease_timeout,
            now + lease_timeout <= i64::MAX,
        ensures
            final(self).wf(),
            final(self).spec_next_id() == old(self).spec_next_id(),
            coll_claim_step(old(self)@, final(self)@, r, now, lease_timeout),
    {
        match self.find_eligible(now) {
            None => None,
            Some(i) => {
                let ghost pre = self.entries@;
                let e = self.entries[i].duplicate();
                self.entries[i].last_checked = Some(now + lease_timeout);
                proof {
                    let ghost ropt: Option<TrackedCollection> = Some(e);
                    assert(coll_claimed_at(
                        pre,
                        self.entries@,
                        ropt->0,
                        now,
                        lease_timeout,
                        i as int,
                    ));
                    assert(coll_claim_step(pre, self.entries@, ropt, now, lease_timeout));
                    assert forall|a: int, b: int| 0 <= a < b < self.entries@.len() implies (
                        #[trigger] self.entries@[a].id) != (#[trigger] self.entries@[b].id) by {
                        assert(pre[a].id == self.entries@[a].id);
                        assert(pre[b].id == self.entries@[b].id);
                    }
                    assert forall|a: int, b: int| 0 <= a < b < self.entries@.len() implies (
                        #[trigger] self.entries@[a].url@) != (#[trigger] self.entries@[b].url@) by {
                        assert(pre[a].url == self.entries@[a].url);
                        assert(pre[b].url == self.entries@[b].url);
                    }
                }
                Some(e)
            },
        }
    }
}

// ---------------------------------------------------------------------------
// Laws of the claim protocol.
// ---------------------------------------------------------------------------

/// A claim never invents, deletes or reorders rows; with no eligible row it
/// changes nothing; and a taken lease keeps the claimed row ineligible until
/// the lease lapses: after a claim at `now` with a positive lease, the row is
/// claimable at `t` exactly when `now + lease_timeout < t` — not before.
pub proof fn lemma_lease_expiry(
    pre: Seq<ScheduledArchival>,
    post: Seq<ScheduledArchival>,
    e: ScheduledArchival,
    now: i64,
    lease_timeout: i64,
    i: int,
    t: i64,
)
    requires
        claimed_at(pre, post, e, now, lease_timeout, i),
    ensures
        eligible(post[i], t) <==> now + lease_timeout < t,
{
}

/// The same lease law for the collection queue: after a claim at `now` with
/// a positive lease, the claimed collection is claimable at `t` exactly when
/// `now + lease_timeout < t` — not before.
pub proof fn lemma_coll_lease_expiry(
    pre: Seq<TrackedCollection>,
    post: Seq<TrackedCollection>,
    e: TrackedCollection,
    now: i64,
    lease_timeout: i64,
    i: int,
    t: i64,
)
    requires
        coll_claimed_at(pre, post, e, now, lease_timeout, i),
    ensures
        coll_eligible(post[i], t) <==> now + lease_timeout < t,
{
}

/// With a single eligible row, one claim cycle has exactly one winner: the
/// first claim takes the row, and a second claim in the same cycle comes back
/// empty, leaving the queue unchanged.
pub proof fn lemma_second_claim_empty(
    q0: Seq<ScheduledArchival>,
    q1: Seq<ScheduledArchival>,
    q2: Seq<ScheduledArchival>,
    r1: Option<ScheduledArchival>,
    r2: Option<ScheduledArchival>,
    now: i64,
    lease_timeout: i64,
)
    requires
        0 < lease_timeout,
        exactly_one_eligible(q0, now),
        claim_step(q0, q1, r1, now, lease_timeout),
        claim_step(q1, q2, r2, now, lease_timeout),
    ensures
        r1 is Some,
        r2 is None,
        q2 == q1,
{
    lemma_claim_consumes_last_eligible(q0, q1, r1, now, lease_timeout);
    if r2 is Some {
        let e2 = r2->0;
        let i2 = choose|i: int| claimed_at(q1, q2, e2, now, lease_timeout, i);
        assert(eligible(q1[i2], now));
        assert(false);
    }
}

/// A claim on a queue whose single eligible row it takes leaves no row
/// eligible in the same cycle.
pub proof fn lemma_claim_consumes_last_eligible(
    q0: Seq<ScheduledArchival>,
    q1: Seq<ScheduledArchival>,
    r1: Option<ScheduledArchival>,
    now: i64,
    lease_timeout: i64,
)
    requires
        0 < lease_timeout,
        exactly_one_eligible(q0, now),
        claim_step(q0, q1, r1, now, lease_timeout),
    ensures
        r1 is Some,
        none_eligible(q1, now),
{
    let w = choose|i: int|
        0 <= i < q0.len() && eligible(#[trigger] q0[i], now) && (forall|j: int|
            0 <= j < q0.len() && j != i ==> !eligible(#[trigger] q0[j], now));
    if r1 is None {
        assert(!eligible(q0[w], now));
        assert(false);
    }
    let e1 = r1->0;
    let i1 = choose|i: int| claimed_at(q0, q1, e1, now, lease_timeout, i);
    assert(i1 == w);
    assert forall|k: int| 0 <= k < q1.len() implies !eligible(#[trigger] q1[k], now) by {
        if k == i1 {
            assert(q1[k].not_before == now + lease_timeout);
        } else {
            assert(q1[k] == q0[k]);
        }
    }
}

/// One claim trace: each state follows from the one before it by a claim
/// made at the same instant with the same lease.
pub open spec fn claim_trace(
    states: Seq<Seq<ScheduledArchival>>,
    results: Seq<Option<ScheduledArchival>>,
    now: i64,
    lease_timeout: i64,
) -> bool {
    &&& states.len() == results.len() + 1
    &&& forall|k: int|
        0 <= k < results.len() ==> claim_step(
            #[trigger] states[k],
            states[k + 1],
            results[k],
            now,
            lease_timeout,
        )
}

proof fn lemma_trace_none_after_first(
    states: Seq<Seq<ScheduledArchival>>,
    results: Seq<Option<ScheduledArchival>>,
    now: i64,
    lease_timeout: i64,
    k: int,
)
    requires
        0 < lease_timeout,
        claim_trace(states, results, now, lease_timeout),
        results.len() >= 1,
        exactly_one_eligible(states[0], now),
        1 <= k <= results.len(),
    ensures
        none_eligible(states[k], now),
    decreases k,
{
    if k == 1 {
        lemma_claim_consumes_last_eligible(states[0], states[1], results[0], now, lease_timeout);
    } else {
        lemma_trace_none_after_first(states, results, now, lease_timeout, k - 1);
        if results[k - 1] is Some {
            let e = results[k - 1]->0;
            let i = choose|i: int|
                #[trigger] claimed_at(states[k - 1], states[k], e, now, lease_timeout, i);
            assert(eligible(states[k - 1][i], now));
            assert(false);
        }
        assert(states[k] == states[k - 1]);
    }
}

/// Under any number of claimants polling one queue with a single eligible
/// row, exactly one claimant receives the row per poll cycle: the first
/// claim of the cycle wins and every later claim of the cycle comes back
/// empty.
pub proof fn lemma_one_winner_per_cycle(
    states: Seq<Seq<ScheduledArchival>>,
    results: Seq<Option<ScheduledArchival>>,
    now: i64,
    lease_timeout: i64,
)
    requires
        0 < lease_timeout,
        claim_trace(states, results, now, lease_timeout),
        results.len() >= 1,
        exactly_one_eligible(states[0], now),
    ensures
        results[0] is Some,
        forall|k: int| 1 <= k < results.len() ==> results[k] is None,
{
    lemma_claim_consumes_last_eligible(states[0], states[1], results[0], now, lease_timeout);
    assert forall|k: int| 1 <= k < results.len() implies results[k] is None by {
        lemma_trace_none_after_first(states, results, now, lease_timeout, k);
        if results[k] is Some {
            let e = results[k]->0;
            let i = choose|i: int|
                #[trigger] claimed_at(states[k], states[k + 1], e, now, lease_timeout, i);
            assert(eligible(states[k][i], now));
            assert(false);
        }
    }
}

/// After completion the schedule row is gone: whether the delete found the
/// row or another worker had already deleted it, no row with the completed
/// identifier remains.
pub proof fn lemma_completed_schedule_absent(
    pre: Seq<ScheduledArchival>,
    post: Seq<ScheduledArchival>,
    id: i64,
    removed: bool,
)
    requires
        wf_entries(pre),
        complete_step(pre, post, id, removed),
    ensures
        !spec_contains_id(post, id),
{
    if spec_contains_id(pre, id) {
        let i = choose|i: int| 0 <= i < pre.len() && #[trigger] pre[i].id == id && post == pre.remove(i);
        assert forall|k: int| 0 <= k < post.len() implies (#[trigger] post[k].id) != id by {
            let k0 = if k < i { k } else { k + 1 };
            assert(post[k] == pre[k0]);
            if k0 != i {
                assert(pre[k0].id != pre[i].id);
            }
        }
    }
}

/// Enqueueing a URL twice leaves exactly one row carrying it: the second
/// insert is a no-op.
pub proof fn lemma_enqueue_idempotent(
    q0: Seq<ScheduledArchival>,
    q1: Seq<ScheduledArchival>,
    q2: Seq<ScheduledArchival>,
    url: Seq<char>,
    now1: i64,
    now2: i64,
    ins1: bool,
    ins2: bool,
)
    requires
        wf_entries(q1),
        wf_entries(q2),
        !spec_contains_url(q0, url),
        enqueue_step(q0, q1, url, now1, ins1),
        enqueue_step(q1, q2, url, now2, ins2),
    ensures
        ins1,
        !ins2,
        q2 == q1,
        exists|i: int|
            0 <= i < q2.len() && (#[trigger] q2[i].url@) == url && (forall|j: int|
                0 <= j < q2.len() && (#[trigger] q2[j].url@) == url ==> j == i),
{
    assert(q1.last().url@ == url);
    assert(spec_contains_url(q1, url));
    let w = q1.len() - 1;
    assert(q2[w].url@ == url);
    assert forall|j: int| 0 <= j < q2.len() && (#[trigger] q2[j].url@) == url implies j == w by {
        if j != w {
            assert(q2[j].url@ != q2[w].url@);
        }
    }
}

} // verus!
