//! The download queue: adding downloads, choosing which to start, following
//! the engine's output, pausing, resuming, cancelling and finishing them.
use crate::history::{history_item, with_recorded};
use crate::json::progress_fields;
use crate::models::{clone_opt_string, DownloadEntry, DownloadRequest, Percent, Status};
use crate::progress::{apply_progress, parse_progress_line};
use crate::state::{
    capacity, count_active, count_active_seq, downloads_wf, enumerates, get_entry,
    lemma_count_active_insert, lemma_enumeration_count, lookup, runs_below, snapshot, AppState,
};
use crate::text::{
    capitalize, capitalize_str, starts_with, starts_with_str, strip_prefix_str, trim,
    trim_start_matches, trim_start_matches_str, trim_str,
};
use std::collections::HashMap;
use vstd::prelude::*;

verus! {

broadcast use {vstd::std_specs::hash::group_hash_axioms, vstd::set::group_set_axioms};

/// A change to one download that the user interface is told of.
pub struct ProgressEvent {
    pub id: u64,
    pub status: Status,
    pub percent: Percent,
    pub speed: Option<String>,
    pub eta: Option<String>,
    pub downloaded_bytes: Option<u64>,
    pub total_bytes: Option<u64>,
    pub playlist_progress: Option<String>,
}

/// The event that tells of a download's current state.
pub open spec fn event_of(e: DownloadEntry) -> ProgressEvent {
    ProgressEvent {
        id: e.id,
        status: e.status,
        percent: e.percent,
        speed: e.speed,
        eta: e.eta,
        downloaded_bytes: e.downloaded_bytes,
        total_bytes: e.total_bytes,
        playlist_progress: e.playlist_progress,
    }
}

/// What to do after one line of the engine's output.
pub enum LineOutcome {
    /// The line was blank; nothing changed.
    Skip,
    /// The download is gone; stop reading.
    Stop,
    /// The download was updated; this is its state now.
    Progress(ProgressEvent),
}

/// A download that was just asked for.
pub open spec fn queued_entry(id: u64, r: DownloadRequest, created_at: u64) -> DownloadEntry {
    DownloadEntry {
        id,
        url: r.url,
        title: match r.title {
            Some(t) => t,
            None => r.url,
        },
        thumbnail: r.thumbnail,
        quality: r.quality,
        playlist: r.playlist,
        status: Status::Queued,
        percent: Percent::Zero,
        speed: None,
        eta: None,
        downloaded_bytes: None,
        total_bytes: None,
        playlist_progress: None,
        file_path: None,
        error: None,
        created_at,
        job: 0,
    }
}

/// A download as engine run `job` starts on it.
pub open spec fn started(e: DownloadEntry, job: u64) -> DownloadEntry {
    DownloadEntry { status: Status::Downloading, speed: None, eta: None, error: None, job, ..e }
}

/// The run number after `job`; it wraps around after the largest.
pub open spec fn next_job_after(job: u64) -> u64 {
    if job == u64::MAX {
        0
    } else {
        (job + 1) as u64
    }
}

/// The downloads after each of `ids` is started, one after the other, with
/// run numbers counted from `job`; and the run number that comes next.
pub open spec fn start_all(m: Map<u64, DownloadEntry>, ids: Seq<u64>, job: u64) -> (Map<
    u64,
    DownloadEntry,
>, u64)
    decreases ids.len(),
{
    if ids.len() == 0 {
        (m, job)
    } else {
        let (m1, j1) = start_all(m, ids.drop_last(), job);
        match lookup(m1, ids.last()) {
            Some(e) => (m1.insert(ids.last(), started(e, j1)), next_job_after(j1)),
            None => (m1, j1),
        }
    }
}

/// Starting queued downloads makes each of them active and leaves the others alone.
pub proof fn lemma_start_all(m: Map<u64, DownloadEntry>, ids: Seq<u64>, job: u64)
    requires
        m.dom().finite(),
        ids.no_duplicates(),
        forall|k: int|
            0 <= k < ids.len() ==> m.contains_key(#[trigger] ids[k]) && m[ids[k]].status
                == Status::Queued,
    ensures
        start_all(m, ids, job).0.dom() == m.dom(),
        count_active(start_all(m, ids, job).0) == count_active(m) + ids.len(),
        forall|id: u64|
            !ids.contains(id) ==> #[trigger] lookup(start_all(m, ids, job).0, id) == lookup(m, id),
        forall|k: int|
            0 <= k < ids.len() ==> (#[trigger] start_all(m, ids, job).0[ids[k]]).status
                == Status::Downloading,
    decreases ids.len(),
{
    if ids.len() > 0 {
        let d = ids.drop_last();
        let x = ids.last();
        assert forall|k: int| 0 <= k < d.len() implies m.contains_key(#[trigger] d[k])
            && m[d[k]].status == Status::Queued by {
            assert(d[k] == ids[k]);
        }
        lemma_start_all(m, d, job);
        let (m1, j1) = start_all(m, d, job);
        assert(!d.contains(x)) by {
            if d.contains(x) {
                let k = choose|k: int| 0 <= k < d.len() && d[k] == x;
                assert(ids[k] == ids[ids.len() - 1]);
            }
        }
        assert(m.contains_key(ids[ids.len() - 1]));
        assert(lookup(m1, x) == lookup(m, x));
        let e = m1[x];
        lemma_count_active_insert(m1, x, started(e, j1));
        assert(start_all(m, ids, job).0 == m1.insert(x, started(e, j1)));
        assert(start_all(m, ids, job).0.dom() =~= m.dom());
        assert forall|id: u64| !ids.contains(id) implies #[trigger] lookup(
            start_all(m, ids, job).0,
            id,
        ) == lookup(m, id) by {
            if d.contains(id) {
                let k = choose|k: int| 0 <= k < d.len() && d[k] == id;
                assert(ids[k] == id);
            }
            assert(id != x);
            assert(lookup(m1, id) == lookup(m, id));
        }
        assert forall|k: int| 0 <= k < ids.len() implies (#[trigger] start_all(
            m,
            ids,
            job,
        ).0[ids[k]]).status == Status::Downloading by {
            if k < ids.len() - 1 {
                assert(d[k] == ids[k]);
                assert(m1[d[k]].status == Status::Downloading);
            }
        }
    }
}

/// A download after the user paused it.
pub open spec fn paused(e: DownloadEntry) -> DownloadEntry {
    match e.status {
        Status::Downloading | Status::Merging => DownloadEntry {
            status: Status::Paused,
            speed: None,
            eta: None,
            ..e
        },
        Status::Queued => DownloadEntry { status: Status::Paused, ..e },
        _ => e,
    }
}

/// A download can be paused while it is queued, downloading or merging.
pub open spec fn can_pause(s: Status) -> bool {
    s == Status::Queued || s == Status::Downloading || s == Status::Merging
}

/// A download can be resumed when it is paused or failed.
pub open spec fn can_resume(s: Status) -> bool {
    s == Status::Paused || s == Status::Error
}

/// A download after the user resumed it.
pub open spec fn resumed(e: DownloadEntry) -> DownloadEntry {
    if can_resume(e.status) {
        DownloadEntry { status: Status::Queued, error: None, ..e }
    } else {
        e
    }
}

/// A download after the user cancelled it (while it was not finished).
pub open spec fn cancelled(e: DownloadEntry) -> DownloadEntry {
    DownloadEntry { status: Status::Cancelled, speed: None, eta: None, ..e }
}

/// A download whose engine process ended well.
pub open spec fn completed(e: DownloadEntry) -> DownloadEntry {
    DownloadEntry { status: Status::Done, percent: Percent::Full, speed: None, eta: None, ..e }
}

/// `b` is `a` failed with an error message whose text is `msg`.
pub open spec fn failed_with(a: DownloadEntry, b: DownloadEntry, msg: Seq<char>) -> bool {
    &&& b == DownloadEntry { status: Status::Error, error: b.error, ..a }
    &&& b.error matches Some(m) && m@ == msg
}

/// The marker before the path that the engine prints after moving a finished file.
pub open spec fn file_marker() -> Seq<char> {
    "GRABIT_FILE::"@
}

/// The beginning of the engine's line that announces the next playlist item.
pub open spec fn item_marker() -> Seq<char> {
    "[download] Downloading item "@
}

/// A line that announces post-processing (merging streams or converting).
pub open spec fn is_stage_line(line: Seq<char>) -> bool {
    starts_with(line, "[Merger]"@) || starts_with(line, "[ExtractAudio]"@) || starts_with(
        line,
        "[VideoConvertor]"@,
    )
}

/// How one trimmed, non-blank line of the engine's output changes download `a` into `b`:
/// a file marker sets the file path; a JSON line is a progress report, read only while
/// downloading; an item announcement sets the playlist progress and restarts the share;
/// a post-processing line moves a download to merging; other lines change nothing.
pub open spec fn line_applied(a: DownloadEntry, b: DownloadEntry, line: Seq<char>) -> bool {
    if starts_with(line, file_marker()) {
        &&& b == DownloadEntry { file_path: b.file_path, ..a }
        &&& b.file_path matches Some(p) && p@ == line.skip(file_marker().len() as int)
    } else if starts_with(line, "{"@) {
        if a.status == Status::Downloading {
            match progress_fields(line) {
                Some(p) => b == apply_progress(a, p),
                None => b == a,
            }
        } else {
            b == a
        }
    } else if starts_with(line, item_marker()) {
        &&& b == DownloadEntry {
            playlist_progress: b.playlist_progress,
            percent: Percent::Zero,
            ..a
        }
        &&& b.playlist_progress matches Some(t) && t@ == capitalize(
            trim_start_matches(line, "[download] Downloading "@),
        )
    } else if is_stage_line(line) {
        b == DownloadEntry {
            status: if a.status == Status::Downloading {
                Status::Merging
            } else {
                a.status
            },
            ..a
        }
    } else {
        b == a
    }
}

/// Engine run `job` owns download `id`, and the download is running.
pub open spec fn owns_run(m: Map<u64, DownloadEntry>, id: u64, job: u64) -> bool {
    m.contains_key(id) && m[id].job == job && m[id].status.is_active()
}

/// The notice shown when a download ends on its own.
pub struct Notice {
    pub success: bool,
    pub title: String,
}

/// How a download's engine process ended, as the queue records it.
pub struct JobEnd {
    pub status: Status,
    pub notice: Option<Notice>,
}

/// Everything but the downloads and the history stays as it was.
pub open spec fn same_config(a: AppState, b: AppState) -> bool {
    &&& b.settings == a.settings
    &&& b.engine == a.engine
    &&& b.next_id == a.next_id
    &&& b.next_job == a.next_job
}

/// Everything but the downloads stays as it was.
pub open spec fn only_downloads_change(a: AppState, b: AppState) -> bool {
    same_config(a, b) && b.history == a.history
}

/// Clones a download request's optional title, or its URL.
fn title_of(request: &DownloadRequest) -> (r: String)
    ensures
        r == match request.title {
            Some(t) => t,
            None => request.url,
        },
{
    match &request.title {
        Some(t) => t.clone(),
        None => request.url.clone(),
    }
}

/// The state of one download as an event.
pub fn make_event(e: &DownloadEntry) -> (r: ProgressEvent)
    ensures
        r == event_of(*e),
{
    ProgressEvent {
        id: e.id,
        status: e.status,
        percent: e.percent,
        speed: clone_opt_string(&e.speed),
        eta: clone_opt_string(&e.eta),
        downloaded_bytes: e.downloaded_bytes,
        total_bytes: e.total_bytes,
        playlist_progress: clone_opt_string(&e.playlist_progress),
    }
}

/// Whether a progress event goes to the user interface: status changes always
/// do, plain progress at most every 100 ms.
pub fn should_emit(millis_since_last: u128, status: Status) -> (r: bool)
    ensures
        r == (millis_since_last >= 100 || status != Status::Downloading),
{
    millis_since_last >= 100 || status != Status::Downloading
}

/// The number of `true`s in `t`.
pub open spec fn count_true(t: Seq<bool>) -> nat
    decreases t.len(),
{
    if t.len() == 0 {
        0
    } else {
        count_true(t.drop_last()) + if t.last() {
            1nat
        } else {
            0nat
        }
    }
}

proof fn lemma_count_true_bound(t: Seq<bool>)
    ensures
        count_true(t) <= t.len(),
    decreases t.len(),
{
    if t.len() > 0 {
        lemma_count_true_bound(t.drop_last());
    }
}

proof fn lemma_count_true_set(t: Seq<bool>, i: int)
    requires
        0 <= i < t.len(),
        !t[i],
    ensures
        count_true(t.update(i, true)) == count_true(t) + 1,
    decreases t.len(),
{
    let u = t.update(i, true);
    if i == t.len() - 1 {
        assert(u.drop_last() =~= t.drop_last());
    } else {
        assert(u.drop_last() =~= t.drop_last().update(i, true));
        lemma_count_true_set(t.drop_last(), i);
    }
}

proof fn lemma_count_true_all(t: Seq<bool>)
    requires
        forall|i: int| 0 <= i < t.len() ==> #[trigger] t[i],
    ensures
        count_true(t) == t.len(),
    decreases t.len(),
{
    if t.len() > 0 {
        lemma_count_true_all(t.drop_last());
    }
}

/// `n` times `false`.
fn all_false(n: usize) -> (r: Vec<bool>)
    ensures
        r@.len() == n,
        forall|i: int| 0 <= i < n ==> !#[trigger] r@[i],
        count_true(r@) == 0,
{
    let mut r: Vec<bool> = Vec::new();
    let mut i: usize = 0;
    while i < n
        invariant
            i <= n,
            r@.len() == i,
            forall|j: int| 0 <= j < i ==> !#[trigger] r@[j],
            count_true(r@) == 0,
        decreases n - i,
    {
        let ghost before = r@;
        r.push(false);
        assert(r@.drop_last() =~= before);
        i = i + 1;
    }
    r
}

/// `r` is what the queue starts: queued downloads, oldest first, as many as
/// there are free slots; all of the queued ones when they are fewer.
pub open spec fn pump_choice(m: Map<u64, DownloadEntry>, cap: int, r: Seq<u64>) -> bool {
    let slots = cap - count_active(m);
    &&& r.len() <= (if slots > 0 {
        slots
    } else {
        0
    })
    &&& r.no_duplicates()
    &&& forall|k: int|
        0 <= k < r.len() ==> m.contains_key(#[trigger] r[k]) && m[r[k]].status == Status::Queued
    &&& forall|k: int, l: int|
        0 <= k < l < r.len() ==> m[#[trigger] r[k]].created_at <= m[#[trigger] r[l]].created_at
    &&& forall|q: u64, k: int|
        #[trigger] m.contains_key(q) && m[q].status == Status::Queued && !r.contains(q) && 0 <= k
            < r.len() ==> m[#[trigger] r[k]].created_at <= m[q].created_at
    &&& r.len() < slots ==> forall|q: u64|
        #[trigger] m.contains_key(q) && m[q].status == Status::Queued ==> r.contains(q)
}

/// How many downloads may be running once the queue has started more: the
/// concurrency limit, or fewer when fewer run numbers are left than slots are free.
pub open spec fn start_limit(s: AppState) -> int {
    let left = u64::MAX - s.next_job;
    if capacity(s.settings) <= count_active(s.downloads@) + left {
        capacity(s.settings)
    } else {
        count_active(s.downloads@) + left
    }
}

/// `r` lists every download once, newest first.
pub open spec fn newest_first(m: Map<u64, DownloadEntry>, r: Seq<DownloadEntry>) -> bool {
    &&& enumerates(m, r)
    &&& forall|k: int, l: int|
        0 <= k < l < r.len() ==> (#[trigger] r[k]).created_at >= (#[trigger] r[l]).created_at
}

/// The downloads that are not finished.
pub open spec fn unfinished(m: Map<u64, DownloadEntry>) -> Map<u64, DownloadEntry> {
    m.restrict(m.dom().filter(|k: u64| !m[k].status.is_finished()))
}

/// Download `i` of a listing was asked for before download `j` (by creation time, then place).
pub open spec fn earlier(s: Seq<DownloadEntry>, i: int, j: int) -> bool {
    s[i].created_at < s[j].created_at || (s[i].created_at == s[j].created_at && i < j)
}

/// Download `i` of a listing was asked for after download `j` (by creation time, then place).
pub open spec fn later(s: Seq<DownloadEntry>, i: int, j: int) -> bool {
    s[i].created_at > s[j].created_at || (s[i].created_at == s[j].created_at && i < j)
}

/// The number of downloads in a listing that take a slot.
pub fn active_count(v: &Vec<DownloadEntry>) -> (r: usize)
    ensures
        r == count_active_seq(v@),
{
    let n = v.len();
    let mut c: usize = 0;
    let mut i: usize = 0;
    while i < n
        invariant
            n == v@.len(),
            i <= n,
            c == count_active_seq(v@.take(i as int)),
            c <= i,
        decreases n - i,
    {
        assert(v@.take(i + 1).drop_last() =~= v@.take(i as int));
        if v[i].status == Status::Downloading || v[i].status == Status::Merging {
            c = c + 1;
        }
        i = i + 1;
    }
    assert(v@.take(n as int) =~= v@);
    c
}

/// The number of downloads that take a slot.
pub fn active_downloads(m: &HashMap<u64, DownloadEntry>) -> (r: usize)
    requires
        downloads_wf(m@),
    ensures
        r == count_active(m@),
{
    let snap = snapshot(m);
    proof {
        lemma_enumeration_count(m@, snap@);
    }
    active_count(&snap)
}

/// Download `i` comes before download `j` in the order asked for: by creation
/// time, oldest or newest first, then by place.
pub open spec fn ahead(s: Seq<DownloadEntry>, i: int, j: int, oldest_first: bool) -> bool {
    if oldest_first {
        earlier(s, i, j)
    } else {
        later(s, i, j)
    }
}

/// Download `q` of a listing is not taken yet (and, when only queued ones
/// count, is queued).
pub open spec fn open_for(s: Seq<DownloadEntry>, taken: Seq<bool>, q: int, queued_only: bool) -> bool {
    !taken[q] && (queued_only ==> s[q].status == Status::Queued)
}

/// The place of the first download, in the order asked for, that is not taken yet.
fn next_in_order(snap: &Vec<DownloadEntry>, taken: &Vec<bool>, queued_only: bool, oldest_first: bool) -> (r: Option<usize>)
    requires
        taken@.len() == snap@.len(),
    ensures
        match r {
            Some(b) => {
                &&& b < snap@.len()
                &&& open_for(snap@, taken@, b as int, queued_only)
                &&& forall|c: int|
                    0 <= c < snap@.len() && #[trigger] open_for(snap@, taken@, c, queued_only) ==> c == b
                        || ahead(snap@, b as int, c, oldest_first)
            },
            None => forall|c: int| 0 <= c < snap@.len() ==> !#[trigger] open_for(snap@, taken@, c, queued_only),
        },
{
    let n = snap.len();
    let mut best: Option<usize> = None;
    let mut q: usize = 0;
    while q < n
        invariant
            n == snap@.len(),
            taken@.len() == n,
            q <= n,
            match best {
                Some(b) => {
                    &&& b < q
                    &&& open_for(snap@, taken@, b as int, queued_only)
                    &&& forall|c: int|
                        0 <= c < q && #[trigger] open_for(snap@, taken@, c, queued_only) ==> c == b
                            || ahead(snap@, b as int, c, oldest_first)
                },
                None => forall|c: int| 0 <= c < q ==> !#[trigger] open_for(snap@, taken@, c, queued_only),
            },
        decreases n - q,
    {
        if !taken[q] && (!queued_only || snap[q].status == Status::Queued) {
            match best {
                None => {
                    best = Some(q);
                },
                Some(b) => {
                    let first = if oldest_first {
                        snap[q].created_at < snap[b].created_at
                    } else {
                        snap[q].created_at > snap[b].created_at
                    };
                    if first {
                        best = Some(q);
                    }
                },
            }
        }
        q = q + 1;
    }
    best
}

impl AppState {
    /// Adds a queued download for `request`, created at `created_at`, under the
    /// next id (over any download filed under it); returns that id. The id
    /// counter wraps around as `fetch_add` does.
    pub fn start_download(&mut self, request: DownloadRequest, created_at: u64) -> (id: u64)
        requires
            old(self).wf(),
        ensures
            final(self).wf(),
            id == old(self).next_id,
            final(self).next_id == (if old(self).next_id == u64::MAX {
                0
            } else {
                old(self).next_id + 1
            }),
            final(self).settings == old(self).settings,
            final(self).engine == old(self).engine,
            final(self).history == old(self).history,
            final(self).next_job == old(self).next_job,
            final(self).downloads@ == old(self).downloads@.insert(
                id,
                queued_entry(id, request, created_at),
            ),
    {
        let id = self.next_id;
        self.next_id = self.next_id.wrapping_add(1);
        let title = title_of(&request);
        let ghost req = request;
        let entry = DownloadEntry {
            id,
            url: request.url,
            title,
            thumbnail: request.thumbnail,
            quality: request.quality,
            playlist: request.playlist,
            status: Status::Queued,
            percent: Percent::Zero,
            speed: None,
            eta: None,
            downloaded_bytes: None,
            total_bytes: None,
            playlist_progress: None,
            file_path: None,
            error: None,
            created_at,
            job: 0,
        };
        assert(entry == queued_entry(id, req, created_at));
        self.downloads.insert(id, entry);
        id
    }

    /// Whether fewer downloads run than may run at once.
    pub fn has_free_slot(&self) -> (r: bool)
        requires
            self.wf(),
        ensures
            r == (count_active(self.downloads@) < capacity(self.settings)),
    {
        let cap: usize = if self.settings.max_concurrent >= 1 {
            self.settings.max_concurrent
        } else {
            1
        };
        active_downloads(&self.downloads) < cap
    }

    /// Chooses which queued downloads to start now: the oldest ones, as long
    /// as slots are free.
    fn choose_queued(&self) -> (r: Vec<u64>)
        requires
            self.wf(),
        ensures
            pump_choice(self.downloads@, start_limit(*self), r@),
    {
        let ghost m = self.downloads@;
        let snap = snapshot(&self.downloads);
        let ghost s = snap@;
        let n = snap.len();
        let cap: usize = if self.settings.max_concurrent >= 1 {
            self.settings.max_concurrent
        } else {
            1
        };
        let active = active_count(&snap);
        proof {
            lemma_enumeration_count(m, s);
        }
        if active >= cap {
            return Vec::new();
        }
        let free: usize = cap - active;
        let left: u64 = u64::MAX - self.next_job;
        let slots: usize = if (left as u128) < (free as u128) {
            left as usize
        } else {
            free
        };
        let mut taken = all_false(n);
        let mut chosen: Vec<u64> = Vec::new();
        let ghost mut pos: Seq<int> = Seq::empty();
        loop
            invariant
                s == snap@,
                enumerates(m, s),
                n == s.len(),
                slots as int == start_limit(*self) - count_active(m),
                taken@.len() == n,
                chosen@.len() == pos.len(),
                chosen@.len() <= slots,
                forall|k: int|
                    0 <= k < pos.len() ==> 0 <= #[trigger] pos[k] < n && s[pos[k]].status
                        == Status::Queued && chosen@[k] == s[pos[k]].id && taken@[pos[k]],
                forall|q: int|
                    0 <= q < n && #[trigger] taken@[q] ==> exists|k: int|
                        0 <= k < pos.len() && pos[k] == q,
                forall|k: int, l: int|
                    0 <= k < l < pos.len() ==> earlier(s, #[trigger] pos[k], #[trigger] pos[l]),
                forall|q: int, k: int|
                    0 <= q < n && s[q].status == Status::Queued && !#[trigger] taken@[q] && 0 <= k
                        < pos.len() ==> earlier(s, #[trigger] pos[k], q),
            ensures
                taken@.len() == n,
                chosen@.len() == pos.len(),
                chosen@.len() <= slots,
                forall|k: int|
                    0 <= k < pos.len() ==> 0 <= #[trigger] pos[k] < n && s[pos[k]].status
                        == Status::Queued && chosen@[k] == s[pos[k]].id && taken@[pos[k]],
                forall|q: int|
                    0 <= q < n && #[trigger] taken@[q] ==> exists|k: int|
                        0 <= k < pos.len() && pos[k] == q,
                forall|k: int, l: int|
                    0 <= k < l < pos.len() ==> earlier(s, #[trigger] pos[k], #[trigger] pos[l]),
                forall|q: int, k: int|
                    0 <= q < n && s[q].status == Status::Queued && !#[trigger] taken@[q] && 0 <= k
                        < pos.len() ==> earlier(s, #[trigger] pos[k], q),
                chosen@.len() < slots ==> forall|q: int|
                    0 <= q < n && s[q].status == Status::Queued ==> #[trigger] taken@[q],
            decreases slots - chosen@.len(),
        {
            if chosen.len() >= slots {
                break;
            }
            let best = next_in_order(&snap, &taken, true, true);
            match best {
                None => {
                    proof {
                        assert forall|q: int| 0 <= q < n && s[q].status == Status::Queued implies #[trigger] taken@[q] by {
                            assert(!open_for(s, taken@, q, true));
                        }
                    }
                    break;
                },
                Some(b) => {
                    let ghost old_taken = taken@;
                    let ghost old_pos = pos;
                    taken.set(b, true);
                    chosen.push(snap[b].id);
                    proof {
                        pos = old_pos.push(b as int);
                        assert forall|q: int, k: int|
                            0 <= q < n && s[q].status == Status::Queued && !#[trigger] taken@[q] && 0 <= k
                                < pos.len() implies earlier(s, #[trigger] pos[k], q) by {
                            assert(old_taken[q] == taken@[q]);
                            if k == pos.len() - 1 {
                                assert(open_for(s, old_taken, q, true));
                            } else {
                                assert(pos[k] == old_pos[k]);
                            }
                        }
                        assert forall|q2: int|
                            0 <= q2 < n && #[trigger] taken@[q2] implies exists|k: int|
                                0 <= k < pos.len() && pos[k] == q2 by {
                            if q2 != b {
                                assert(old_taken[q2]);
                                let k = choose|k: int| 0 <= k < old_pos.len() && old_pos[k] == q2;
                                assert(pos[k] == q2);
                            } else {
                                assert(pos[pos.len() - 1] == q2);
                            }
                        }
                    }
                },
            }
        }
        proof {
            let r = chosen@;
            assert forall|k: int| 0 <= k < r.len() implies m.contains_key(#[trigger] r[k]) && m[r[k]]
                == s[pos[k]] by {
                assert(m.contains_key(s[pos[k]].id));
            }
            assert forall|q: int| 0 <= q < n implies (r.contains(#[trigger] s[q].id) <==> taken@[q]) by {
                if taken@[q] {
                    let k = choose|k: int| 0 <= k < pos.len() && pos[k] == q;
                    assert(r[k] == s[q].id);
                }
                if r.contains(s[q].id) {
                    let k = choose|k: int| 0 <= k < r.len() && r[k] == s[q].id;
                    assert(s[pos[k]].id == s[q].id);
                }
            }
            assert(r.no_duplicates()) by {
                assert forall|k: int, l: int| 0 <= k < r.len() && 0 <= l < r.len() && k != l implies r[k]
                    != r[l] by {
                    if k < l {
                        assert(earlier(s, pos[k], pos[l]));
                    } else {
                        assert(earlier(s, pos[l], pos[k]));
                    }
                }
            }
            assert forall|k: int, l: int| 0 <= k < l < r.len() implies m[#[trigger] r[k]].created_at
                <= m[#[trigger] r[l]].created_at by {
                assert(earlier(s, pos[k], pos[l]));
            }
            assert forall|qk: u64, k: int|
                #[trigger] m.contains_key(qk) && m[qk].status == Status::Queued && !r.contains(qk) && 0
                    <= k < r.len() implies m[#[trigger] r[k]].created_at <= m[qk].created_at by {
                let i = choose|i: int| 0 <= i < s.len() && s[i].id == qk;
                assert(!taken@[i]);
                assert(earlier(s, pos[k], i));
            }
            if r.len() < slots {
                assert forall|qk: u64| #[trigger] m.contains_key(qk) && m[qk].status == Status::Queued
                    implies r.contains(qk) by {
                    let i = choose|i: int| 0 <= i < s.len() && s[i].id == qk;
                    assert(taken@[i]);
                }
            }
        }
        chosen
    }

    /// The downloads of this session, newest first.
    pub fn get_queue(&self) -> (r: Vec<DownloadEntry>)
        requires
            self.wf(),
        ensures
            newest_first(self.downloads@, r@),
    {
        let ghost m = self.downloads@;
        let snap = snapshot(&self.downloads);
        let ghost s = snap@;
        let n = snap.len();
        let mut taken = all_false(n);
        let mut chosen: Vec<DownloadEntry> = Vec::new();
        let ghost mut pos: Seq<int> = Seq::empty();
        loop
            invariant
                s == snap@,
                enumerates(m, s),
                n == s.len(),
                taken@.len() == n,
                chosen@.len() == pos.len(),
                count_true(taken@) == chosen@.len(),
                chosen@.len() <= n,
                forall|k: int|
                    0 <= k < pos.len() ==> 0 <= #[trigger] pos[k] < n && chosen@[k] == s[pos[k]]
                        && taken@[pos[k]],
                forall|q: int|
                    0 <= q < n && #[trigger] taken@[q] ==> exists|k: int|
                        0 <= k < pos.len() && pos[k] == q,
                forall|k: int, l: int|
                    0 <= k < l < pos.len() ==> later(s, #[trigger] pos[k], #[trigger] pos[l]),
                forall|q: int, k: int|
                    0 <= q < n && !#[trigger] taken@[q] && 0 <= k < pos.len() ==> later(
                        s,
                        #[trigger] pos[k],
                        q,
                    ),
            ensures
                taken@.len() == n,
                chosen@.len() == pos.len(),
                count_true(taken@) == chosen@.len(),
                forall|k: int|
                    0 <= k < pos.len() ==> 0 <= #[trigger] pos[k] < n && chosen@[k] == s[pos[k]]
                        && taken@[pos[k]],
                forall|q: int|
                    0 <= q < n && #[trigger] taken@[q] ==> exists|k: int|
                        0 <= k < pos.len() && pos[k] == q,
                forall|k: int, l: int|
                    0 <= k < l < pos.len() ==> later(s, #[trigger] pos[k], #[trigger] pos[l]),
                forall|q: int| 0 <= q < n ==> #[trigger] taken@[q],
            decreases n - chosen@.len(),
        {
            let best = next_in_order(&snap, &taken, false, false);
            match best {
                None => {
                    proof {
                        assert forall|q: int| 0 <= q < n implies #[trigger] taken@[q] by {
                            assert(!open_for(s, taken@, q, false));
                        }
                    }
                    break;
                },
                Some(b) => {
                    let ghost old_taken = taken@;
                    let ghost old_pos = pos;
                    proof {
                        lemma_count_true_set(taken@, b as int);
                    }
                    taken.set(b, true);
                    chosen.push(snap[b].clone());
                    proof {
                        lemma_count_true_bound(taken@);
                        pos = old_pos.push(b as int);
                        assert forall|q: int, k: int|
                            0 <= q < n && !#[trigger] taken@[q] && 0 <= k < pos.len() implies later(
                                s,
                                #[trigger] pos[k],
                                q,
                            ) by {
                            assert(old_taken[q] == taken@[q]);
                            if k == pos.len() - 1 {
                                assert(open_for(s, old_taken, q, false));
                            } else {
                                assert(pos[k] == old_pos[k]);
                            }
                        }
                        assert forall|q2: int|
                            0 <= q2 < n && #[trigger] taken@[q2] implies exists|k: int|
                                0 <= k < pos.len() && pos[k] == q2 by {
                            if q2 != b {
                                assert(old_taken[q2]);
                                let k = choose|k: int| 0 <= k < old_pos.len() && old_pos[k] == q2;
                                assert(pos[k] == q2);
                            } else {
                                assert(pos[pos.len() - 1] == q2);
                            }
                        }
                    }
                },
            }
        }
        proof {
            let r = chosen@;
            lemma_count_true_all(taken@);
            assert forall|k: int| 0 <= k < r.len() implies m.contains_key(#[trigger] r[k].id)
                && m[r[k].id] == r[k] by {
                assert(r[k] == s[pos[k]]);
            }
            assert forall|kk: u64| #[trigger] m.contains_key(kk) implies exists|i: int|
                0 <= i < r.len() && r[i].id == kk by {
                let q = choose|q: int| 0 <= q < s.len() && s[q].id == kk;
                assert(taken@[q]);
                let k = choose|k: int| 0 <= k < pos.len() && pos[k] == q;
                assert(r[k].id == kk);
            }
            assert forall|i: int, j: int| 0 <= i < r.len() && 0 <= j < r.len() && i != j implies r[i].id
                != r[j].id by {
                if i < j {
                    assert(later(s, pos[i], pos[j]));
                } else {
                    assert(later(s, pos[j], pos[i]));
                }
                assert(r[i] == s[pos[i]] && r[j] == s[pos[j]]);
            }
            assert forall|k: int, l: int| 0 <= k < l < r.len() implies (#[trigger] r[k]).created_at
                >= (#[trigger] r[l]).created_at by {
                assert(later(s, pos[k], pos[l]));
            }
        }
        chosen
    }

    /// Drops the finished (done, failed, cancelled) downloads.
    pub fn clear_finished(&mut self)
        requires
            old(self).wf(),
        ensures
            final(self).wf(),
            only_downloads_change(*old(self), *final(self)),
            final(self).downloads@ == unfinished(old(self).downloads@),
    {
        let ghost m = self.downloads@;
        let snap = snapshot(&self.downloads);
        let ghost s = snap@;
        let n = snap.len();
        let mut kept: HashMap<u64, DownloadEntry> = HashMap::new();
        let mut i: usize = 0;
        while i < n
            invariant
                s == snap@,
                enumerates(m, s),
                n == s.len(),
                i <= n,
                forall|k: u64| #[trigger]
                    kept@.contains_key(k) <==> (m.contains_key(k) && !m[k].status.is_finished()
                        && exists|j: int| 0 <= j < i && s[j].id == k),
                forall|k: u64| #[trigger] kept@.contains_key(k) ==> kept@[k] == m[k],
            decreases n - i,
        {
            let status = snap[i].status;
            if !(status == Status::Done || status == Status::Error || status == Status::Cancelled) {
                kept.insert(snap[i].id, snap[i].clone());
            }
            proof {
                assert(m.contains_key(s[i as int].id));
                assert forall|k: u64| #[trigger]
                    kept@.contains_key(k) <==> (m.contains_key(k) && !m[k].status.is_finished()
                        && exists|j: int| 0 <= j < i + 1 && s[j].id == k) by {
                    if k == s[i as int].id {
                        assert(s[i as int].id == k);
                    } else if exists|j: int| 0 <= j < i + 1 && s[j].id == k {
                        let j = choose|j: int| 0 <= j < i + 1 && s[j].id == k;
                        assert(j < i);
                    }
                }
            }
            i = i + 1;
        }
        proof {
            assert(kept@ =~= unfinished(m)) by {
                assert forall|k: u64| #[trigger] kept@.contains_key(k) <==> unfinished(m).contains_key(k) by {
                    if m.contains_key(k) {
                        let j = choose|j: int| 0 <= j < s.len() && s[j].id == k;
                    }
                }
            }
        }
        self.downloads = kept;
    }

    /// Starts the queued downloads that may run now: the oldest ones, as long
    /// as slots are free. Each is marked downloading, under the next run number,
    /// in this same call, and returned as it now stands. Run numbers are never
    /// handed out twice: once the counter has reached the largest `u64`, no
    /// download starts any more.
    pub fn pump_queue(&mut self) -> (r: Vec<DownloadEntry>)
        requires
            old(self).wf(),
        ensures
            final(self).wf(),
            final(self).settings == old(self).settings,
            final(self).engine == old(self).engine,
            final(self).next_id == old(self).next_id,
            final(self).history == old(self).history,
            ({
                let ids = r@.map_values(|e: DownloadEntry| e.id);
                let cap = capacity(old(self).settings);
                &&& pump_choice(old(self).downloads@, start_limit(*old(self)), ids)
                &&& final(self).next_job == old(self).next_job + r@.len()
                &&& (final(self).downloads@, final(self).next_job) == start_all(
                    old(self).downloads@,
                    ids,
                    old(self).next_job,
                )
                &&& count_active(final(self).downloads@) == count_active(old(self).downloads@)
                    + r@.len()
                &&& count_active(old(self).downloads@) <= cap ==> count_active(final(self).downloads@)
                    <= cap
            }),
            forall|k: int|
                0 <= k < r@.len() ==> {
                    &&& final(self).downloads@.contains_key(#[trigger] r@[k].id)
                    &&& final(self).downloads@[r@[k].id] == r@[k]
                    &&& r@[k].status == Status::Downloading
                    &&& r@[k].job == old(self).next_job + k
                    &&& r@[k] == started(old(self).downloads@[r@[k].id], r@[k].job)
                },
    {
        let ids = self.choose_queued();
        let ghost m0 = self.downloads@;
        let ghost j0 = self.next_job;
        let ghost cap = capacity(self.settings);
        assert(j0 + ids@.len() <= u64::MAX);
        let mut out: Vec<DownloadEntry> = Vec::new();
        let n = ids.len();
        let mut i: usize = 0;
        assert(ids@.take(0) =~= Seq::<u64>::empty());
        while i < n
            invariant
                n == ids@.len(),
                i <= n,
                self.settings == old(self).settings,
                self.engine == old(self).engine,
                self.next_id == old(self).next_id,
                self.history == old(self).history,
                m0 == old(self).downloads@,
                j0 == old(self).next_job,
                cap == capacity(old(self).settings),
                downloads_wf(m0),
                downloads_wf(self.downloads@),
                pump_choice(m0, start_limit(*old(self)), ids@),
                j0 + n <= u64::MAX,
                self.next_job == j0 + i,
                runs_below(self.downloads@, self.next_job),
                (self.downloads@, self.next_job) == start_all(m0, ids@.take(i as int), j0),
                out@.len() == i,
                forall|k: int| 0 <= k < i ==> (#[trigger] out@[k]).job == j0 + k,
                forall|k: int|
                    0 <= k < i ==> (#[trigger] out@[k]).id == ids@[k] && self.downloads@.contains_key(
                        ids@[k],
                    ) && self.downloads@[ids@[k]] == out@[k] && out@[k] == started(
                        m0[ids@[k]],
                        out@[k].job,
                    ),
            decreases n - i,
        {
            let id = ids[i];
            let ghost t = ids@.take(i as int);
            proof {
                assert forall|k: int| 0 <= k < t.len() implies m0.contains_key(#[trigger] t[k])
                    && m0[t[k]].status == Status::Queued by {
                    assert(t[k] == ids@[k]);
                }
                assert(t.no_duplicates()) by {
                    assert forall|a: int, b: int| 0 <= a < t.len() && 0 <= b < t.len() && a != b
                        implies t[a] != t[b] by {
                        assert(t[a] == ids@[a] && t[b] == ids@[b]);
                    }
                }
                lemma_start_all(m0, t, j0);
                assert(!t.contains(id)) by {
                    if t.contains(id) {
                        let k = choose|k: int| 0 <= k < t.len() && t[k] == id;
                        assert(ids@[k] == ids@[i as int]);
                    }
                }
                assert(m0.contains_key(ids@[i as int]));
                assert(lookup(self.downloads@, id) == lookup(m0, id));
                assert(ids@.take(i + 1).drop_last() =~= t);
            }
            let mut e = get_entry(&self.downloads, id).unwrap().clone();
            let job = self.next_job;
            e.status = Status::Downloading;
            e.speed = None;
            e.eta = None;
            e.error = None;
            e.job = job;
            self.next_job = job + 1;
            let copy = e.clone();
            self.downloads.insert(id, e);
            out.push(copy);
            proof {
                assert forall|k: int| 0 <= k < i implies ids@[k] != id by {
                    assert(t[k] == ids@[k]);
                }
            }
            i = i + 1;
        }
        proof {
            assert(ids@.take(n as int) =~= ids@);
            assert(out@.map_values(|e: DownloadEntry| e.id) =~= ids@);
            assert forall|a: int, b: int| 0 <= a < ids@.len() && 0 <= b < ids@.len() && a != b
                implies ids@[a] != ids@[b] by {
                assert(ids@.no_duplicates());
            }
            lemma_start_all(m0, ids@, j0);
        }
        out
    }

    /// Whether engine run `job` owns download `id`, which is downloading or merging.
    pub fn is_current_run(&self, id: u64, job: u64) -> (r: bool)
        requires
            self.wf(),
        ensures
            r == owns_run(self.downloads@, id, job),
    {
        match get_entry(&self.downloads, id) {
            Some(e) => e.job == job && (e.status == Status::Downloading || e.status == Status::Merging),
            None => false,
        }
    }

    /// Follows one line of the standard output of engine run `job` for
    /// download `id`. A run that no longer owns the download is told to stop.
    pub fn apply_output_line(&mut self, id: u64, job: u64, raw: &str) -> (r: LineOutcome)
        requires
            old(self).wf(),
        ensures
            final(self).wf(),
            only_downloads_change(*old(self), *final(self)),
            ({
                let line = trim(raw@);
                if line.len() == 0 {
                    r is Skip && final(self).downloads == old(self).downloads
                } else {
                    match lookup(old(self).downloads@, id) {
                        None => r is Stop && final(self).downloads == old(self).downloads,
                        Some(a) => if a.job != job {
                            r is Stop && final(self).downloads == old(self).downloads
                        } else {
                            let b = final(self).downloads@[id];
                            &&& final(self).downloads@ == old(self).downloads@.insert(id, b)
                            &&& line_applied(a, b, line)
                            &&& r == LineOutcome::Progress(event_of(b))
                        },
                    }
                }
            }),
    {
        let line = trim_str(raw);
        if line.unicode_len() == 0 {
            return LineOutcome::Skip;
        }
        let mut e = match get_entry(&self.downloads, id) {
            Some(e) => e.clone(),
            None => {
                return LineOutcome::Stop;
            },
        };
        if e.job != job {
            return LineOutcome::Stop;
        }
        let ghost a = e;
        let l = line.as_str();
        match strip_prefix_str(l, "GRABIT_FILE::") {
            Some(path) => {
                e.file_path = Some(path);
            },
            None => {
                if starts_with_str(l, "{") {
                    if e.status == Status::Downloading {
                        parse_progress_line(l, &mut e);
                    }
                } else if starts_with_str(l, "[download] Downloading item ") {
                    let rest = trim_start_matches_str(l, "[download] Downloading ");
                    e.playlist_progress = Some(capitalize_str(rest.as_str()));
                    e.percent = Percent::Zero;
                } else if starts_with_str(l, "[Merger]") || starts_with_str(l, "[ExtractAudio]")
                    || starts_with_str(l, "[VideoConvertor]") {
                    if e.status == Status::Downloading {
                        e.status = Status::Merging;
                    }
                }
            },
        }
        assert(line_applied(a, e, line@));
        assert(e.percent.wf());
        let event = make_event(&e);
        self.downloads.insert(id, e);
        LineOutcome::Progress(event)
    }

    /// Pauses download `id`. Returns whether its engine process is to be
    /// stopped: not when the download exists but cannot be paused.
    pub fn pause_download(&mut self, id: u64) -> (proceed: bool)
        requires
            old(self).wf(),
        ensures
            final(self).wf(),
            only_downloads_change(*old(self), *final(self)),
            match lookup(old(self).downloads@, id) {
                Some(e) => proceed == can_pause(e.status) && final(self).downloads@ == old(
                    self,
                ).downloads@.insert(id, paused(e)),
                None => proceed && final(self).downloads == old(self).downloads,
            },
    {
        let mut e = match get_entry(&self.downloads, id) {
            Some(e) => e.clone(),
            None => {
                return true;
            },
        };
        match e.status {
            Status::Downloading | Status::Merging => {
                e.status = Status::Paused;
                e.speed = None;
                e.eta = None;
            },
            Status::Queued => {
                e.status = Status::Paused;
            },
            _ => {
                assert(self.downloads@.insert(id, e) =~= self.downloads@);
                return false;
            },
        }
        self.downloads.insert(id, e);
        true
    }

    /// Puts a paused or failed download `id` back in the queue. Returns
    /// whether the queue is to be pumped.
    pub fn resume_download(&mut self, id: u64) -> (proceed: bool)
        requires
            old(self).wf(),
        ensures
            final(self).wf(),
            only_downloads_change(*old(self), *final(self)),
            match lookup(old(self).downloads@, id) {
                Some(e) => proceed == can_resume(e.status) && final(self).downloads@ == old(
                    self,
                ).downloads@.insert(id, resumed(e)),
                None => !proceed && final(self).downloads == old(self).downloads,
            },
    {
        let mut e = match get_entry(&self.downloads, id) {
            Some(e) => e.clone(),
            None => {
                return false;
            },
        };
        if e.status == Status::Paused || e.status == Status::Error {
            e.status = Status::Queued;
            e.error = None;
            self.downloads.insert(id, e);
            true
        } else {
            assert(self.downloads@.insert(id, e) =~= self.downloads@);
            false
        }
    }

    /// Cancels download `id`: a finished one is dropped from the list, any
    /// other is marked cancelled. Returns the partial file to delete, if its
    /// file path is known.
    pub fn cancel_download(&mut self, id: u64) -> (partial: Option<String>)
        requires
            old(self).wf(),
        ensures
            final(self).wf(),
            only_downloads_change(*old(self), *final(self)),
            match lookup(old(self).downloads@, id) {
                Some(e) => if e.status.is_finished() {
                    partial is None && final(self).downloads@ == old(self).downloads@.remove(id)
                } else {
                    &&& final(self).downloads@ == old(self).downloads@.insert(id, cancelled(e))
                    &&& match e.file_path {
                        Some(p) => (partial matches Some(q) && q@ == p@ + ".part"@),
                        None => partial is None,
                    }
                },
                None => partial is None && final(self).downloads == old(self).downloads,
            },
    {
        let mut e = match get_entry(&self.downloads, id) {
            Some(e) => e.clone(),
            None => {
                return None;
            },
        };
        if e.status == Status::Done || e.status == Status::Error || e.status == Status::Cancelled {
            self.downloads.remove(&id);
            None
        } else {
            e.status = Status::Cancelled;
            e.speed = None;
            e.eta = None;
            let partial = match &e.file_path {
                Some(p) => {
                    let mut q = p.clone();
                    q.append(".part");
                    Some(q)
                },
                None => None,
            };
            self.downloads.insert(id, e);
            partial
        }
    }

    /// Marks download `id` failed with `err` when engine run `job` could not be
    /// started, and records it in the history at `finished_at`. Only the run
    /// that owns a downloading or merging download can fail it; otherwise
    /// nothing changes. Returns whether the history changed.
    pub fn fail_job(&mut self, id: u64, job: u64, err: String, finished_at: u64) -> (recorded: bool)
        requires
            old(self).wf(),
        ensures
            final(self).wf(),
            same_config(*old(self), *final(self)),
            recorded == owns_run(old(self).downloads@, id, job),
            match lookup(old(self).downloads@, id) {
                Some(a) if owns_run(old(self).downloads@, id, job) => {
                    let b = DownloadEntry { status: Status::Error, error: Some(err), ..a };
                    &&& final(self).downloads@ == old(self).downloads@.insert(id, b)
                    &&& final(self).history@ == with_recorded(
                        old(self).history@,
                        history_item(b, finished_at),
                    )
                },
                _ => final(self).downloads == old(self).downloads && final(self).history
                    == old(self).history,
            },
    {
        let mut e = match get_entry(&self.downloads, id) {
            Some(e) => e.clone(),
            None => {
                return false;
            },
        };
        if e.job != job || !(e.status == Status::Downloading || e.status == Status::Merging) {
            return false;
        }
        e.status = Status::Error;
        e.error = Some(err);
        self.downloads.insert(id, e);
        self.record(id, finished_at);
        true
    }

    /// Records how engine run `job` of download `id` ended. Only the run that
    /// owns a downloading or merging download decides its end: a download the
    /// user paused or cancelled keeps that status, one a newer run owns is left
    /// to that run, and one already ended is not ended again. Otherwise it is
    /// done when the process succeeded and failed (with the last error the
    /// engine printed, or "download failed") when not; it then goes into the
    /// history at `finished_at`, and brings a notice.
    pub fn finish_job(
        &mut self,
        id: u64,
        job: u64,
        exit_ok: bool,
        last_error: Option<String>,
        finished_at: u64,
    ) -> (r: JobEnd)
        requires
            old(self).wf(),
        ensures
            final(self).wf(),
            same_config(*old(self), *final(self)),
            match lookup(old(self).downloads@, id) {
                None => {
                    &&& r.status == Status::Cancelled
                    &&& r.notice is None
                    &&& final(self).downloads == old(self).downloads
                    &&& final(self).history == old(self).history
                },
                Some(a) => if !owns_run(old(self).downloads@, id, job) {
                    &&& r.status == a.status
                    &&& r.notice is None
                    &&& final(self).downloads == old(self).downloads
                    &&& final(self).history == old(self).history
                } else {
                    let b = final(self).downloads@[id];
                    &&& final(self).downloads@ == old(self).downloads@.insert(id, b)
                    &&& r.status == b.status
                    &&& (r.notice matches Some(n) && n.success == exit_ok && n.title == a.title)
                    &&& final(self).history@ == with_recorded(
                        old(self).history@,
                        history_item(b, finished_at),
                    )
                    &&& if exit_ok {
                        b == completed(a)
                    } else {
                        failed_with(
                            a,
                            b,
                            match last_error {
                                Some(m) => m@,
                                None => "download failed"@,
                            },
                        )
                    }
                },
            },
    {
        let mut e = match get_entry(&self.downloads, id) {
            Some(e) => e.clone(),
            None => {
                return JobEnd { status: Status::Cancelled, notice: None };
            },
        };
        if e.job != job || !(e.status == Status::Downloading || e.status == Status::Merging) {
            return JobEnd { status: e.status, notice: None };
        }
        let title = e.title.clone();
        if exit_ok {
            e.status = Status::Done;
            e.percent = Percent::Full;
            e.speed = None;
            e.eta = None;
        } else {
            e.status = Status::Error;
            e.error = match last_error {
                Some(m) => Some(m),
                None => Some("download failed".to_owned()),
            };
        }
        let final_status = e.status;
        self.downloads.insert(id, e);
        self.record(id, finished_at);
        JobEnd { status: final_status, notice: Some(Notice { success: exit_ok, title }) }
    }

    /// The heading and body of the desktop notification for `notice`, when
    /// notifications are on.
    pub fn notification(&self, notice: &Notice) -> (r: Option<(String, String)>)
        ensures
            match r {
                Some((heading, body)) => {
                    &&& self.settings.notifications
                    &&& heading@ == if notice.success {
                        "Download complete"@
                    } else {
                        "Download failed"@
                    }
                    &&& body == notice.title
                },
                None => !self.settings.notifications,
            },
    {
        if self.settings.notifications {
            let heading = if notice.success {
                "Download complete".to_owned()
            } else {
                "Download failed".to_owned()
            };
            Some((heading, notice.title.clone()))
        } else {
            None
        }
    }
}

} // verus!
