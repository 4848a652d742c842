use vstd::prelude::*;
use crate::records::{File, InsertableVideo, Video, VideoDto, VideoStatus};
use crate::strings::{contains_seq_ci, contains_pattern_ci, str_eq};

verus! {

// ---------------------------------------------------------------------------
// Step relations of the record store.
// ---------------------------------------------------------------------------

/// Some video row carries this original URL.
pub open spec fn spec_has_video_url(videos: Seq<Video>, url: Seq<char>) -> bool {
    exists|i: int| 0 <= i < videos.len() && #[trigger] videos[i].original_url@ == url
}

/// Some file row carries this identifier.
pub open spec fn spec_has_file(files: Seq<File>, id: u128) -> bool {
    exists|i: int| 0 <= i < files.len() && #[trigger] files[i].id == id
}

/// The appended video row carries exactly the fields of the insertable
/// record.
pub open spec fn video_from_insertable(v: Video, iv: InsertableVideo) -> bool {
    &&& v.title == iv.title
    &&& v.channel == iv.channel
    &&& v.views == iv.views
    &&& v.upload_date == iv.upload_date
    &&& v.archived_date == iv.archived_date
    &&& v.duration == iv.duration
    &&& v.original_url == iv.original_url
    &&& v.status == iv.status
    &&& v.file_id == iv.file_id
    &&& v.thumbnail_id == iv.thumbnail_id
}

/// What one idempotent video insert does: a no-op when the original URL is
/// already recorded (the crash-and-retry guard), else exactly one new row
/// with the record's fields.
pub open spec fn insert_video_step(
    pre: Seq<Video>,
    post: Seq<Video>,
    iv: InsertableVideo,
    inserted: bool,
) -> bool {
    if spec_has_video_url(pre, iv.original_url@) {
        !inserted && post == pre
    } else {
        &&& inserted
        &&& post.len() == pre.len() + 1
        &&& post.subrange(0, pre.len() as int) == pre
        &&& video_from_insertable(post.last(), iv)
    }
}

/// What one idempotent file insert does: a no-op when the identifier is
/// already present, else exactly one new row.
pub open spec fn insert_file_step(
    pre: Seq<File>,
    post: Seq<File>,
    f: File,
    inserted: bool,
) -> bool {
    if spec_has_file(pre, f.id) {
        !inserted && post == pre
    } else {
        inserted && post == pre.push(f)
    }
}

/// What the post-download size correction does: the file with this
/// identifier gets the real byte count, every other row is untouched.
pub open spec fn set_size_step(
    pre: Seq<File>,
    post: Seq<File>,
    id: u128,
    size: i64,
    found: bool,
) -> bool {
    &&& post.len() == pre.len()
    &&& found == spec_has_file(pre, id)
    &&& forall|i: int| 0 <= i < pre.len() && (#[trigger] pre[i].id) != id ==> post[i] == pre[i]
    &&& forall|i: int|
        0 <= i < pre.len() && (#[trigger] pre[i].id) == id ==> {
            &&& post[i].id == pre[i].id
            &&& post[i].file_name == pre[i].file_name
            &&& post[i].file_extension == pre[i].file_extension
            &&& post[i].size == size
        }
}

/// What finalization does to the video rows: the video with this original
/// URL becomes `Archived`, its duration is replaced where an update is
/// given, and every other row and field is untouched.
pub open spec fn mark_archived_step(
    pre: Seq<Video>,
    post: Seq<Video>,
    url: Seq<char>,
    duration_update: Option<i32>,
    found: bool,
) -> bool {
    &&& post.len() == pre.len()
    &&& found == spec_has_video_url(pre, url)
    &&& forall|i: int|
        0 <= i < pre.len() && (#[trigger] pre[i].original_url@) != url ==> post[i] == pre[i]
    &&& forall|i: int|
        0 <= i < pre.len() && (#[trigger] pre[i].original_url@) == url ==> {
            &&& post[i].id == pre[i].id
            &&& post[i].title == pre[i].title
            &&& post[i].channel == pre[i].channel
            &&& post[i].views == pre[i].views
            &&& post[i].upload_date == pre[i].upload_date
            &&& post[i].archived_date == pre[i].archived_date
            &&& post[i].duration == (match duration_update {
                Some(d) => d,
                None => pre[i].duration,
            })
            &&& post[i].original_url == pre[i].original_url
            &&& post[i].status == VideoStatus::Archived
            &&& post[i].file_id == pre[i].file_id
            &&& post[i].thumbnail_id == pre[i].thumbnail_id
        }
}

/// Video identifiers and original URLs never repeat.
pub open spec fn wf_videos(videos: Seq<Video>) -> bool {
    &&& forall|i: int, j: int|
        0 <= i < j < videos.len() ==> (#[trigger] videos[i].id) != (#[trigger] videos[j].id)
    &&& forall|i: int, j: int|
        0 <= i < j < videos.len() ==> (#[trigger] videos[i].original_url@) != (
        #[trigger] videos[j].original_url@)
}

/// File identifiers never repeat.
pub open spec fn wf_files(files: Seq<File>) -> bool {
    forall|i: int, j: int|
        0 <= i < j < files.len() ==> (#[trigger] files[i].id) != (#[trigger] files[j].id)
}

// ---------------------------------------------------------------------------
// Search.
// ---------------------------------------------------------------------------

/// Whether a video satisfies the search term: no term matches everything, a
/// term must occur in the title, ignoring ASCII case.
pub open spec fn video_matches(v: Video, term: Option<Seq<char>>) -> bool {
    match term {
        None => true,
        Some(t) => contains_seq_ci(v.title@, t),
    }
}

/// The byte size of the file row with this identifier (any such row; the
/// store keeps identifiers unique).
pub open spec fn spec_file_size(files: Seq<File>, id: u128) -> i64 {
    files[choose|i: int| 0 <= i < files.len() && #[trigger] files[i].id == id].size
}

/// The search result: every video matching the term that has a media file
/// row, paired with that file's byte size, in store order.
pub open spec fn spec_search(
    videos: Seq<Video>,
    files: Seq<File>,
    term: Option<Seq<char>>,
) -> Seq<VideoDto>
    decreases videos.len(),
{
    if videos.len() == 0 {
        Seq::empty()
    } else {
        let rest = spec_search(videos.drop_last(), files, term);
        let v = videos.last();
        if video_matches(v, term) && spec_has_file(files, v.file_id) {
            rest.push(VideoDto { video: v, video_size: spec_file_size(files, v.file_id) })
        } else {
            rest
        }
    }
}

/// Newest first: earlier results were archived no earlier than later ones.
pub open spec fn sorted_by_archived_date_desc(s: Seq<VideoDto>) -> bool {
    forall|a: int, b: int|
        0 <= a <= b < s.len() ==> (#[trigger] s[a].video.archived_date) >= (
        #[trigger] s[b].video.archived_date)
}

// ---------------------------------------------------------------------------
// The record store.
// ---------------------------------------------------------------------------

/// The archived-item record store: video rows keyed by unique original URL
/// (the idempotency guard) and file rows keyed by unique blob identifier.
/// Written exclusively by the archival worker; read by the request-handling
/// layer and, for de-duplication, by the discovery worker.
pub struct Archive {
    videos: Vec<Video>,
    files: Vec<File>,
    next_video_id: i64,
}

impl Archive {
    /// The video rows.
    pub closed spec fn spec_videos(self) -> Seq<Video> {
        self.videos@
    }

    /// The file rows.
    pub closed spec fn spec_files(self) -> Seq<File> {
        self.files@
    }

    /// The next video identifier the store will assign.
    pub closed spec fn spec_next_video_id(self) -> int {
        self.next_video_id as int
    }

    /// Unique video identifiers and URLs, unique file identifiers.
    pub closed spec fn wf(self) -> bool {
        &&& 0 <= self.next_video_id
        &&& wf_videos(self.videos@)
        &&& wf_files(self.files@)
        &&& forall|i: int|
            0 <= i < self.videos@.len() ==> (#[trigger] self.videos@[i].id) < self.next_video_id
    }

    /// An empty store.
    pub fn new() -> (a: Archive)
        ensures
            a.wf(),
            a.spec_videos() =~= Seq::<Video>::empty(),
            a.spec_files() =~= Seq::<File>::empty(),
            a.spec_next_video_id() == 0,
    {
        Archive { videos: Vec::new(), files: Vec::new(), next_video_id: 0 }
    }

    /// The video rows, in store order.
    pub fn videos(&self) -> (r: &Vec<Video>)
        ensures
            r@ == self.spec_videos(),
    {
        &self.videos
    }

    /// The file rows, in store order.
    pub fn files(&self) -> (r: &Vec<File>)
        ensures
            r@ == self.spec_files(),
    {
        &self.files
    }

    /// Whether the store can still assign a fresh video identifier;
    /// unverified callers test this before inserting.
    pub fn can_insert_video(&self) -> (r: bool)
        requires
            self.wf(),
        ensures
            r == (self.spec_next_video_id() < i64::MAX),
    {
        self.next_video_id < i64::MAX
    }

    /// Whether a video row carries this original URL: the de-duplication
    /// check of submission and discovery.
    pub fn contains_video_url(&self, url: &str) -> (r: bool)
        ensures
            r == spec_has_video_url(self.spec_videos(), url@),
    {
        let n = self.videos.len();
        let mut i: usize = 0;
        while i < n
            invariant
                i <= n,
                n == self.spec_videos().len(),
                forall|k: int| 0 <= k < i ==> #[trigger] self.spec_videos()[k].original_url@
                    != url@,
            decreases n - i,
        {
            if str_eq(self.videos[i].original_url.as_str(), url) {
                return true;
            }
            i += 1;
        }
        false
    }

    /// Idempotent video insert: the original-URL uniqueness constraint makes
    /// a duplicate insert a silent no-op, so a crash-and-retry cannot create
    /// two rows for one source URL.
    pub fn insert_video(&mut self, iv: InsertableVideo) -> (inserted: bool)
        requires
            old(self).wf(),
            old(self).spec_next_video_id() < i64::MAX,
        ensures
            final(self).wf(),
            final(self).spec_files() == old(self).spec_files(),
            insert_video_step(old(self).spec_videos(), final(self).spec_videos(), iv, inserted),
    {
        if self.contains_video_url(iv.original_url.as_str()) {
            return false;
        }
        let id = self.next_video_id;
        self.next_video_id = self.next_video_id + 1;
        let ghost pre = self.videos@;
        self.videos.push(
            Video {
                id,
                title: iv.title,
                channel: iv.channel,
                views: iv.views,
                upload_date: iv.upload_date,
                archived_date: iv.archived_date,
                duration: iv.duration,
                original_url: iv.original_url,
                status: iv.status,
                file_id: iv.file_id,
                thumbnail_id: iv.thumbnail_id,
            },
        );
        proof {
            assert(self.videos@.subrange(0, pre.len() as int) =~= pre);
            assert forall|i: int, j: int| 0 <= i < j < self.videos@.len() implies (
                #[trigger] self.videos@[i].id) != (#[trigger] self.videos@[j].id) by {
                if j == pre.len() {
                    assert(pre[i].id < id);
                }
            }
            assert forall|i: int, j: int| 0 <= i < j < self.videos@.len() implies (
                #[trigger] self.videos@[i].original_url@) != (
            #[trigger] self.videos@[j].original_url@) by {
                if j == pre.len() {
                    assert(!spec_has_video_url(pre, self.videos@[j].original_url@));
                }
            }
        }
        true
    }

    /// Whether a file row carries this identifier.
    pub fn contains_file(&self, id: u128) -> (r: bool)
        ensures
            r == spec_has_file(self.spec_files(), id),
    {
        let n = self.files.len();
        let mut i: usize = 0;
        while i < n
            invariant
                i <= n,
                n == self.spec_files().len(),
                forall|k: int| 0 <= k < i ==> (#[trigger] self.spec_files()[k].id) != id,
            decreases n - i,
        {
            if self.files[i].id == id {
                return true;
            }
            i += 1;
        }
        false
    }

    /// Idempotent file insert: a replayed run re-inserting the same blob
    /// identifier is a silent no-op.
    pub fn insert_file(&mut self, f: File) -> (inserted: bool)
        requires
            old(self).wf(),
        ensures
            final(self).wf(),
            final(self).spec_videos() == old(self).spec_videos(),
            final(self).spec_next_video_id() == old(self).spec_next_video_id(),
            insert_file_step(old(self).spec_files(), final(self).spec_files(), f, inserted),
    {
        if self.contains_file(f.id) {
            return false;
        }
        let ghost pre = self.files@;
        self.files.push(f);
        proof {
            assert forall|i: int, j: int| 0 <= i < j < self.files@.len() implies (
                #[trigger] self.files@[i].id) != (#[trigger] self.files@[j].id) by {
                if j == pre.len() {
                    assert(!spec_has_file(pre, self.files@[j].id));
                    assert(pre[i] == self.files@[i]);
                }
            }
        }
        true
    }

    /// Corrects a file row's size to the real downloaded byte count.
    pub fn set_file_size(&mut self, id: u128, size: i64) -> (found: bool)
        requires
            old(self).wf(),
        ensures
            final(self).wf(),
            final(self).spec_videos() == old(self).spec_videos(),
            final(self).spec_next_video_id() == old(self).spec_next_video_id(),
            set_size_step(old(self).spec_files(), final(self).spec_files(), id, size, found),
    {
        let n = self.files.len();
        let mut i: usize = 0;
        while i < n
            invariant
                *self == *old(self),
                old(self).wf(),
                i <= n,
                n == self.spec_files().len(),
                forall|k: int| 0 <= k < i ==> (#[trigger] self.spec_files()[k].id) != id,
            decreases n - i,
        {
            if self.files[i].id == id {
                let ghost pre = self.files@;
                self.files[i].size = size;
                proof {
                    assert forall|a: int, b: int| 0 <= a < b < self.files@.len() implies (
                        #[trigger] self.files@[a].id) != (#[trigger] self.files@[b].id) by {
                        assert(pre[a].id == self.files@[a].id);
                        assert(pre[b].id == self.files@[b].id);
                    }
                    assert forall|k: int|
                        0 <= k < pre.len() && (#[trigger] pre[k].id) == id implies k
                        == i as int by {
                        if k != i as int {
                            assert(pre[k].id != pre[i as int].id);
                        }
                    }
                }
                return true;
            }
            i += 1;
        }
        false
    }

    /// Finalizes a video: the row with this original URL becomes `Archived`,
    /// with its duration replaced where the capture-time value was the
    /// "unknown" sentinel and the true duration was resolved afterwards.
    pub fn mark_archived(&mut self, url: &str, duration_update: Option<i32>) -> (found: bool)
        requires
            old(self).wf(),
        ensures
            final(self).wf(),
            final(self).spec_files() == old(self).spec_files(),
            final(self).spec_next_video_id() == old(self).spec_next_video_id(),
            mark_archived_step(
                old(self).spec_videos(),
                final(self).spec_videos(),
                url@,
                duration_update,
                found,
            ),
    {
        let n = self.videos.len();
        let mut i: usize = 0;
        while i < n
            invariant
                *self == *old(self),
                old(self).wf(),
                i <= n,
                n == self.spec_videos().len(),
                forall|k: int| 0 <= k < i ==> (#[trigger] self.spec_videos()[k].original_url@)
                    != url@,
            decreases n - i,
        {
            if str_eq(self.videos[i].original_url.as_str(), url) {
                let ghost pre = self.videos@;
                self.videos[i].status = VideoStatus::Archived;
                match duration_update {
                    Some(d) => {
                        self.videos[i].duration = d;
                    },
                    None => {},
                }
                proof {
                    assert forall|a: int, b: int| 0 <= a < b < self.videos@.len() implies (
                        #[trigger] self.videos@[a].id) != (#[trigger] self.videos@[b].id) by {
                        assert(pre[a].id == self.videos@[a].id);
                        assert(pre[b].id == self.videos@[b].id);
                    }
                    assert forall|a: int, b: int| 0 <= a < b < self.videos@.len() implies (
                        #[trigger] self.videos@[a].original_url@) != (
                    #[trigger] self.videos@[b].original_url@) by {
                        assert(pre[a].original_url == self.videos@[a].original_url);
                        assert(pre[b].original_url == self.videos@[b].original_url);
                    }
                    assert forall|k: int|
                        0 <= k < self.videos@.len() implies (#[trigger] self.videos@[k].id)
                        < self.next_video_id by {
                        assert(pre[k].id == self.videos@[k].id);
                    }
                    assert forall|k: int|
                        0 <= k < pre.len() && (#[trigger] pre[k].original_url@) == url@ implies k
                        == i as int by {
                        if k != i as int {
                            assert(pre[k].original_url@ != pre[i as int].original_url@);
                        }
                    }
                }
                return true;
            }
            i += 1;
        }
        false
    }

    /// The search read: every video whose title matches the term (every
    /// video, with no term) that has a media file row, paired with that
    /// file's byte size, in store order.
    pub fn search(&self, term: Option<&str>) -> (r: Vec<VideoDto>)
        requires
            self.wf(),
        ensures
            r@ == spec_search(
                self.spec_videos(),
                self.spec_files(),
                match term {
                    Some(t) => Some(t@),
                    None => None,
                },
            ),
    {
        let ghost spec_term: Option<Seq<char>> = match term {
            Some(t) => Some(t@),
            None => None,
        };
        let n = self.videos.len();
        let mut out: Vec<VideoDto> = Vec::new();
        let mut i: usize = 0;
        while i < n
            invariant
                self.wf(),
                i <= n,
                n == self.spec_videos().len(),
                spec_term == (match term {
                    Some(t) => Some(t@),
                    None => None,
                }),
                out@ == spec_search(self.spec_videos().subrange(0, i as int), self.spec_files(), spec_term),
            decreases n - i,
        {
            let ghost prefix = self.spec_videos().subrange(0, i as int);
            let v = &self.videos[i];
            let is_match = match term {
                Some(t) => contains_pattern_ci(v.title.as_str(), t),
                None => true,
            };
            if is_match {
                match self.find_file_size(v.file_id) {
                    Some(size) => {
                        out.push(VideoDto { video: v.clone_record(), video_size: size });
                        proof {
                            assert(spec_file_size(self.spec_files(), v.file_id) == size);
                        }
                    },
                    None => {},
                }
            }
            proof {
                let next_prefix = self.spec_videos().subrange(0, i + 1);
                assert(next_prefix.drop_last() =~= prefix);
                assert(next_prefix.last() == self.spec_videos()[i as int]);
            }
            i += 1;
        }
        proof {
            assert(self.spec_videos().subrange(0, n as int) =~= self.spec_videos());
        }
        out
    }

    /// The search read in presentation order: the same rows as the plain
    /// search, most recently archived first.
    pub fn search_sorted(&self, term: Option<&str>) -> (r: Vec<VideoDto>)
        requires
            self.wf(),
        ensures
            r@.to_multiset() == spec_search(
                self.spec_videos(),
                self.spec_files(),
                match term {
                    Some(t) => Some(t@),
                    None => None,
                },
            ).to_multiset(),
            sorted_by_archived_date_desc(r@),
    {
        let hits = self.search(term);
        let n = hits.len();
        let mut out: Vec<VideoDto> = Vec::new();
        let mut i: usize = 0;
        proof {
            broadcast use vstd::seq_lib::group_to_multiset_ensures;

            assert(hits@.subrange(0, 0) =~= Seq::<VideoDto>::empty());
            assert(out@ =~= Seq::<VideoDto>::empty());
        }
        while i < n
            invariant
                i <= n,
                n == hits@.len(),
                out@.to_multiset() == hits@.subrange(0, i as int).to_multiset(),
                sorted_by_archived_date_desc(out@),
            decreases n - i,
        {
            let x = hits[i].duplicate();
            let m = out.len();
            let mut p: usize = 0;
            while p < m
                invariant_except_break
                    p <= m,
                    m == out@.len(),
                    forall|k: int|
                        0 <= k < p ==> (#[trigger] out@[k].video.archived_date)
                            >= x.video.archived_date,
                ensures
                    p <= m,
                    m == out@.len(),
                    forall|k: int|
                        0 <= k < p ==> (#[trigger] out@[k].video.archived_date)
                            >= x.video.archived_date,
                    p < m ==> out@[p as int].video.archived_date < x.video.archived_date,
                decreases m - p,
            {
                if out[p].video.archived_date < x.video.archived_date {
                    break;
                }
                p += 1;
            }
            let ghost before = out@;
            out.insert(p, x);
            proof {
                broadcast use vstd::seq_lib::group_to_multiset_ensures;

                assert(out@ == before.insert(p as int, x));
                assert forall|a: int, b: int|
                    0 <= a <= b < out@.len() implies (#[trigger] out@[a].video.archived_date) >= (
                #[trigger] out@[b].video.archived_date) by {
                    if a < p as int {
                        assert(out@[a] == before[a]);
                    }
                    if b < p as int {
                        assert(out@[b] == before[b]);
                    }
                    if a > p as int {
                        assert(out@[a] == before[a - 1]);
                    }
                    if b > p as int {
                        assert(out@[b] == before[b - 1]);
                        if (p as int) < b {
                            assert(before[b - 1].video.archived_date <= before[
                                p as int].video.archived_date || p as int > b - 1);
                        }
                    }
                }
                let processed_next = hits@.subrange(0, i + 1);
                assert(processed_next.drop_last() =~= hits@.subrange(0, i as int));
                assert(processed_next =~= hits@.subrange(0, i as int).push(hits@[i as int]));
                assert(processed_next.to_multiset() == hits@.subrange(
                    0,
                    i as int,
                ).to_multiset().insert(hits@[i as int]));
            }
            i += 1;
        }
        proof {
            assert(hits@.subrange(0, n as int) =~= hits@);
        }
        out
    }

    /// The byte size of the file row with this identifier, if any.
    pub fn find_file_size(&self, id: u128) -> (r: Option<i64>)
        requires
            self.wf(),
        ensures
            r is Some <==> spec_has_file(self.spec_files(), id),
            r matches Some(s) ==> s == spec_file_size(self.spec_files(), id),
    {
        let n = self.files.len();
        let mut i: usize = 0;
        while i < n
            invariant
                self.wf(),
                i <= n,
                n == self.spec_files().len(),
                forall|k: int| 0 <= k < i ==> (#[trigger] self.spec_files()[k].id) != id,
            decreases n - i,
        {
            if self.files[i].id == id {
                proof {
                    let w = choose|k: int|
                        0 <= k < self.files@.len() && #[trigger] self.files@[k].id == id;
                    if w != i as int {
                        assert(self.files@[w].id != self.files@[i as int].id);
                    }
                }
                return Some(self.files[i].size);
            }
            i += 1;
        }
        None
    }
}

impl VideoDto {
    /// An identical copy of the result row.
    pub fn duplicate(&self) -> (r: VideoDto)
        ensures
            r == *self,
    {
        VideoDto { video: self.video.clone_record(), video_size: self.video_size }
    }
}

impl Video {
    /// An identical copy of the row.
    pub fn clone_record(&self) -> (r: Video)
        ensures
            r == *self,
    {
        Video {
            id: self.id,
            title: self.title.clone(),
            channel: self.channel.clone(),
            views: self.views,
            upload_date: self.upload_date,
            archived_date: self.archived_date,
            duration: self.duration,
            original_url: self.original_url.clone(),
            status: self.status,
            file_id: self.file_id,
            thumbnail_id: self.thumbnail_id,
        }
    }
}

} // verus!
