//! The values that the queue, the history and the settings are made of.
use std::time::Duration;
use std::time::SystemTime;
use vstd::prelude::*;

verus! {

/// User settings.
pub struct Settings {
    /// Custom download directory; None = OS Downloads folder.
    pub download_dir: Option<String>,
    pub default_quality: String,
    pub max_concurrent: usize,
    pub notifications: bool,
}

impl Default for Settings {
    fn default() -> (r: Self)
        ensures
            r.download_dir is None,
            r.default_quality@ == "best"@,
            r.max_concurrent == 3,
            r.notifications,
    {
        Settings {
            download_dir: None,
            default_quality: "best".to_owned(),
            max_concurrent: 3,
            notifications: true,
        }
    }
}

/// Where a download stands.
#[derive(Clone, Copy, Debug, PartialEq, Eq, Structural)]
pub enum Status {
    Queued,
    Downloading,
    Paused,
    Merging,
    Done,
    Error,
    Cancelled,
}

impl Status {
    /// Downloads in these states take a slot of the queue.
    pub open spec fn is_active(self) -> bool {
        self == Status::Downloading || self == Status::Merging
    }

    /// Downloads in these states are over; clearing the list drops them.
    pub open spec fn is_finished(self) -> bool {
        self == Status::Done || self == Status::Error || self == Status::Cancelled
    }
}

/// What the user asked to download.
pub struct DownloadRequest {
    pub url: String,
    /// "best" | "2160" | "1080" | "720" | "480" | "audio-mp3" | "audio-m4a"
    pub quality: String,
    pub playlist: bool,
    pub title: Option<String>,
    pub thumbnail: Option<String>,
}

/// How far a download has come. The share stands for the percentage
/// `min(100 * done / total, 100)`, which the user interface computes.
#[derive(Clone, Copy, Debug, PartialEq, Eq, Structural)]
pub enum Percent {
    Zero,
    Full,
    Share { done: u64, total: u64 },
}

impl Percent {
    pub open spec fn wf(self) -> bool {
        self matches Percent::Share { total, .. } ==> total > 0
    }
}

/// One download of this session.
pub struct DownloadEntry {
    pub id: u64,
    pub url: String,
    pub title: String,
    pub thumbnail: Option<String>,
    pub quality: String,
    pub playlist: bool,
    pub status: Status,
    pub percent: Percent,
    /// Bytes per second, as the decimal text of the number that the engine reported.
    pub speed: Option<String>,
    /// Seconds left, as the decimal text of the number that the engine reported.
    pub eta: Option<String>,
    pub downloaded_bytes: Option<u64>,
    pub total_bytes: Option<u64>,
    /// "Item 3 of 12" when downloading a playlist.
    pub playlist_progress: Option<String>,
    pub file_path: Option<String>,
    pub error: Option<String>,
    pub created_at: u64,
    /// The engine run that owns this download now (0 before its first run).
    pub job: u64,
}

/// A copy of an optional string.
pub fn clone_opt_string(o: &Option<String>) -> (r: Option<String>)
    ensures
        r == *o,
{
    match o {
        Some(s) => Some(s.clone()),
        None => None,
    }
}

impl Clone for DownloadEntry {
    fn clone(&self) -> (r: Self)
        ensures
            r == *self,
    {
        DownloadEntry {
            id: self.id,
            url: self.url.clone(),
            title: self.title.clone(),
            thumbnail: clone_opt_string(&self.thumbnail),
            quality: self.quality.clone(),
            playlist: self.playlist,
            status: self.status,
            percent: self.percent,
            speed: clone_opt_string(&self.speed),
            eta: clone_opt_string(&self.eta),
            downloaded_bytes: self.downloaded_bytes,
            total_bytes: self.total_bytes,
            playlist_progress: clone_opt_string(&self.playlist_progress),
            file_path: clone_opt_string(&self.file_path),
            error: clone_opt_string(&self.error),
            created_at: self.created_at,
            job: self.job,
        }
    }
}

/// A finished (done or failed) download, kept across sessions.
pub struct HistoryItem {
    pub id: u64,
    pub url: String,
    pub title: String,
    pub thumbnail: Option<String>,
    pub quality: String,
    pub file_path: Option<String>,
    pub total_bytes: Option<u64>,
    pub status: Status,
    pub finished_at: u64,
}

impl Clone for HistoryItem {
    fn clone(&self) -> (r: Self)
        ensures
            r == *self,
    {
        HistoryItem {
            id: self.id,
            url: self.url.clone(),
            title: self.title.clone(),
            thumbnail: clone_opt_string(&self.thumbnail),
            quality: self.quality.clone(),
            file_path: clone_opt_string(&self.file_path),
            total_bytes: self.total_bytes,
            status: self.status,
            finished_at: self.finished_at,
        }
    }
}

/// What a link points at, as the engine describes it before a download.
pub struct MediaInfo {
    pub url: String,
    pub title: String,
    pub thumbnail: Option<String>,
    pub uploader: Option<String>,
    /// Length in seconds, as the decimal text of the number that the engine reported.
    pub duration: Option<String>,
    pub is_playlist: bool,
    pub entry_count: Option<usize>,
    pub extractor: Option<String>,
}

#[verifier::external_type_specification]
#[verifier::external_body]
pub struct ExSystemTime(SystemTime);

/// Calls `std::time::SystemTime::now`; nothing is claimed of the clock's reading.
#[verifier::external_body]
fn system_now() -> SystemTime {
    SystemTime::now()
}

/// Calls `SystemTime::duration_since` with `UNIX_EPOCH`; `None` when the clock reads
/// earlier than the epoch. Nothing is claimed of the value.
#[verifier::external_body]
fn since_unix_epoch(t: &SystemTime) -> Option<Duration> {
    t.duration_since(std::time::UNIX_EPOCH).ok()
}

/// Calls `Duration::as_millis`; nothing is claimed of the value.
#[verifier::external_body]
fn duration_millis(d: &Duration) -> u128 {
    d.as_millis()
}

/// The millisecond count kept for a clock reading: its low 64 bits, or 0 when
/// the clock reads earlier than the epoch.
pub fn millis_to_u64(ms: Option<u128>) -> (r: u64)
    ensures
        r == match ms {
            Some(m) => m as u64,
            None => 0,
        },
{
    match ms {
        Some(m) => m as u64,
        None => 0,
    }
}

/// Milliseconds since the Unix epoch (0 if the clock is set before it).
pub fn now_millis() -> u64 {
    let ms = match since_unix_epoch(&system_now()) {
        Some(d) => Some(duration_millis(&d)),
        None => None,
    };
    millis_to_u64(ms)
}

} // verus!
