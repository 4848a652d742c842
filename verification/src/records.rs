use vstd::prelude::*;
use vstd::string::StrSliceExecFns;

verus! {

/// The closed state machine of an archived item.
#[derive(Clone, Copy, Debug, PartialEq, Eq, Structural)]
pub enum VideoStatus {
    /// The item finished downloading and its record is final.
    Archived,
    /// The item sits in the queue, untouched by a worker.
    ScheduledForArchival,
    /// A worker holds the item and its record is provisional.
    BeingArchived,
    /// The last attempt failed; the queue entry waits out its backoff.
    ArchivationFailed,
}

/// A calendar date carried as plain year, month and day.
#[derive(Clone, Copy, Debug, PartialEq, Eq, Structural)]
pub struct SimpleDate {
    pub year: i32,
    pub month: u8,
    pub day: u8,
}

/// `c` is a decimal digit.
pub open spec fn is_digit(c: char) -> bool {
    48 <= c as int && c as int <= 57
}

/// The numeric value of the digit `c`.
pub open spec fn digit_value(c: char) -> int {
    c as int - 48
}

/// Whether `y` is a leap year of the Gregorian calendar.
pub open spec fn spec_is_leap_year(y: int) -> bool {
    y % 4 == 0 && (y % 100 != 0 || y % 400 == 0)
}

/// How many days month `m` of year `y` has.
pub open spec fn spec_days_in_month(y: int, m: int) -> int {
    if m == 2 {
        if spec_is_leap_year(y) {
            29
        } else {
            28
        }
    } else if m == 4 || m == 6 || m == 9 || m == 11 {
        30
    } else {
        31
    }
}

/// The date a compact `yyyymmdd` text denotes: its first eight characters
/// must be digits and must name a day that exists in the calendar.
pub open spec fn spec_parse_upload_date(s: Seq<char>) -> Option<SimpleDate> {
    if 8 <= s.len() && (forall|i: int| 0 <= i < 8 ==> is_digit(s[i])) {
        let y = digit_value(s[0]) * 1000 + digit_value(s[1]) * 100 + digit_value(s[2]) * 10
            + digit_value(s[3]);
        let m = digit_value(s[4]) * 10 + digit_value(s[5]);
        let d = digit_value(s[6]) * 10 + digit_value(s[7]);
        if 1 <= m && m <= 12 && 1 <= d && d <= spec_days_in_month(y, m) {
            Some(SimpleDate { year: y as i32, month: m as u8, day: d as u8 })
        } else {
            None
        }
    } else {
        None
    }
}

fn digit_at(s: &str, i: usize) -> (r: Option<u32>)
    requires
        i < s@.len(),
    ensures
        r matches Some(v) ==> is_digit(s@[i as int]) && v == digit_value(s@[i as int]),
        r is None ==> !is_digit(s@[i as int]),
{
    let u = s.get_char(i) as u32;
    if 48 <= u && u <= 57 {
        Some(u - 48)
    } else {
        None
    }
}

fn days_in_month(year: i32, month: u8) -> (r: u8)
    ensures
        r == spec_days_in_month(year as int, month as int),
{
    if month == 2 {
        if year % 4 == 0 && (year % 100 != 0 || year % 400 == 0) {
            29
        } else {
            28
        }
    } else if month == 4 || month == 6 || month == 9 || month == 11 {
        30
    } else {
        31
    }
}

/// Reads a compact `yyyymmdd` date text into a calendar date; rejects text
/// that is too short, not numeric, or does not name an existing day.
pub fn parse_upload_date(s: &str) -> (r: Option<SimpleDate>)
    ensures
        r == spec_parse_upload_date(s@),
{
    let len = s.unicode_len();
    if len < 8 {
        return None;
    }
    let d0 = match digit_at(s, 0) {
        Some(v) => v,
        None => return None,
    };
    let d1 = match digit_at(s, 1) {
        Some(v) => v,
        None => return None,
    };
    let d2 = match digit_at(s, 2) {
        Some(v) => v,
        None => return None,
    };
    let d3 = match digit_at(s, 3) {
        Some(v) => v,
        None => return None,
    };
    let d4 = match digit_at(s, 4) {
        Some(v) => v,
        None => return None,
    };
    let d5 = match digit_at(s, 5) {
        Some(v) => v,
        None => return None,
    };
    let d6 = match digit_at(s, 6) {
        Some(v) => v,
        None => return None,
    };
    let d7 = match digit_at(s, 7) {
        Some(v) => v,
        None => return None,
    };
    let y_u32 = d0 * 1000 + d1 * 100 + d2 * 10 + d3;
    let m_u32 = d4 * 10 + d5;
    let d_u32 = d6 * 10 + d7;
    let year = y_u32 as i32;
    let month = m_u32 as u8;
    let day = d_u32 as u8;
    if 1 <= month && month <= 12 && 1 <= day && day <= days_in_month(year, month) {
        Some(SimpleDate { year, month, day })
    } else {
        None
    }
}

/// Metadata of a single item, as the external resolver reports it, reduced
/// to plain values.
#[derive(Debug, Clone)]
pub struct VideoMetadata {
    pub title: String,
    pub channel: String,
    pub view_count: i64,
    /// Compact `yyyymmdd` date text.
    pub upload_date: String,
    /// Seconds; 0 is the sentinel for "unknown at capture time" (live
    /// content).
    pub duration_seconds: i32,
    pub thumbnail_url: String,
    /// Exact byte size where the resolver knows it.
    pub filesize: Option<i64>,
    /// Approximate byte size, the fallback estimate.
    pub filesize_approx: Option<i64>,
    pub webpage_url: String,
}

/// The byte-size estimate a provisional file record carries: the exact size
/// where known, else the approximation, else zero.
pub open spec fn spec_effective_filesize(m: VideoMetadata) -> i64 {
    match m.filesize {
        Some(v) => v,
        None => match m.filesize_approx {
            Some(v) => v,
            None => 0,
        },
    }
}

impl VideoMetadata {
    /// The byte-size estimate to record before the download: exact size if
    /// known, else the approximation, else zero.
    pub fn effective_filesize(&self) -> (r: i64)
        ensures
            r == spec_effective_filesize(*self),
    {
        match self.filesize {
            Some(v) => v,
            None => match self.filesize_approx {
                Some(v) => v,
                None => 0,
            },
        }
    }
}

/// Blob metadata: one row per stored file, keyed by the blob-store key.
#[derive(Debug, Clone)]
pub struct File {
    pub id: u128,
    pub file_name: String,
    pub file_extension: String,
    /// Bytes; a provisional estimate until the download completes.
    pub size: i64,
}

/// An archived-item record as the store holds it.
#[derive(Debug, Clone)]
pub struct Video {
    pub id: i64,
    pub title: String,
    pub channel: String,
    pub views: i64,
    pub upload_date: SimpleDate,
    /// Seconds since the epoch.
    pub archived_date: i64,
    /// Seconds; 0 means "unknown at capture time", patched after download.
    pub duration: i32,
    /// Unique; the de-duplication key.
    pub original_url: String,
    pub status: VideoStatus,
    pub file_id: u128,
    pub thumbnail_id: u128,
}

/// An archived-item record before the store assigns its identifier.
#[derive(Debug, Clone)]
pub struct InsertableVideo {
    pub title: String,
    pub channel: String,
    pub views: i64,
    pub upload_date: SimpleDate,
    pub archived_date: i64,
    pub duration: i32,
    pub original_url: String,
    pub status: VideoStatus,
    pub file_id: u128,
    pub thumbnail_id: u128,
}

impl InsertableVideo {
    /// Builds the provisional record from resolved metadata; the upload date
    /// must be well-formed, as the archival worker checks it before building.
    pub fn new(
        single_video: VideoMetadata,
        status: VideoStatus,
        file_id: u128,
        thumbnail_id: u128,
        archived_at: i64,
    ) -> (v: InsertableVideo)
        requires
            spec_parse_upload_date(single_video.upload_date@) is Some,
        ensures
            v.title == single_video.title,
            v.channel == single_video.channel,
            v.views == single_video.view_count,
            Some(v.upload_date) == spec_parse_upload_date(single_video.upload_date@),
            v.archived_date == archived_at,
            v.duration == single_video.duration_seconds,
            v.original_url == single_video.webpage_url,
            v.status == status,
            v.file_id == file_id,
            v.thumbnail_id == thumbnail_id,
    {
        let parsed = parse_upload_date(single_video.upload_date.as_str());
        let upload_date = match parsed {
            Some(d) => d,
            None => SimpleDate { year: 0, month: 1, day: 1 },
        };
        InsertableVideo {
            title: single_video.title,
            channel: single_video.channel,
            views: single_video.view_count,
            upload_date,
            archived_date: archived_at,
            duration: single_video.duration_seconds,
            original_url: single_video.webpage_url,
            status,
            file_id,
            thumbnail_id,
        }
    }
}

/// What the search endpoint returns: a video paired with the byte size of
/// its media file.
#[derive(Debug, Clone)]
pub struct VideoDto {
    pub video: Video,
    pub video_size: i64,
}

} // verus!
