//! Properties of the library that span several operations.
use crate::archive::wanted_members;
use crate::engine::{is_wanted_binary_spec, ArchiveKind, Platform};
use crate::downloader::{
    can_pause, can_resume, cancelled, completed, failed_with, file_marker, item_marker,
    lemma_start_all, line_applied, owns_run, paused, pump_choice, queued_entry, resumed,
    start_all, unfinished,
};
use crate::history::{history_item, with_recorded, HISTORY_LIMIT};
use crate::json::ProgressFields;
use crate::models::{DownloadEntry, DownloadRequest, HistoryItem, Percent, Status};
use crate::text::{capitalize, starts_with, trim_start_matches};
use crate::progress::{apply_progress, reports_finished};
use crate::state::{count_active, downloads_wf, lookup, AppState};
use crate::ytdlp::{download_args, format_args};
use vstd::prelude::*;

verus! {

broadcast use vstd::set::group_set_axioms;

/// Starting what the queue chose never lets more downloads run than the
/// concurrency setting allows (when no more were running already).
pub proof fn law_pump_keeps_capacity(m: Map<u64, DownloadEntry>, cap: int, r: Seq<u64>, job: u64)
    requires
        downloads_wf(m),
        pump_choice(m, cap, r),
    ensures
        count_active(start_all(m, r, job).0) == count_active(m) + r.len(),
        count_active(m) <= cap ==> count_active(start_all(m, r, job).0) <= cap,
        count_active(m) >= cap ==> start_all(m, r, job) == (m, job),
{
    lemma_start_all(m, r, job);
}

/// A download the queue started is no longer queued, so no later choice of
/// the queue can start it a second time.
pub proof fn law_no_double_start(
    m: Map<u64, DownloadEntry>,
    cap: int,
    r: Seq<u64>,
    job: u64,
    cap2: int,
    r2: Seq<u64>,
)
    requires
        downloads_wf(m),
        pump_choice(m, cap, r),
        pump_choice(start_all(m, r, job).0, cap2, r2),
    ensures
        forall|k: int, l: int| 0 <= k < r.len() && 0 <= l < r2.len() ==> r[k] != r2[l],
{
    lemma_start_all(m, r, job);
    let m1 = start_all(m, r, job).0;
    assert forall|k: int, l: int| 0 <= k < r.len() && 0 <= l < r2.len() implies r[k] != r2[l] by {
        assert(m1[r[k]].status == Status::Downloading);
        assert(m1[r2[l]].status == Status::Queued);
    }
}

/// Pausing a queued, downloading or merging download and then resuming it
/// puts it back in the queue, with what it had downloaded so far.
pub proof fn law_pause_then_resume(m: Map<u64, DownloadEntry>, id: u64)
    requires
        downloads_wf(m),
        (lookup(m, id) matches Some(e) && can_pause(e.status)),
    ensures
        ({
            let e = m[id];
            let m1 = m.insert(id, paused(e));
            let e1 = m1[id];
            let m2 = m1.insert(id, resumed(e1));
            &&& lookup(m1, id) == Some(paused(e))
            &&& e1.status == Status::Paused
            &&& can_resume(e1.status)
            &&& lookup(m2, id) == Some(resumed(e1))
            &&& resumed(e1).status == Status::Queued
            &&& resumed(e1).error is None
            &&& resumed(e1).url == e.url
            &&& resumed(e1).quality == e.quality
            &&& resumed(e1).downloaded_bytes == e.downloaded_bytes
            &&& resumed(e1).file_path == e.file_path
        }),
{
}

/// Cancelling a download that is not finished makes it finished, so that
/// cancelling it again drops it from the list.
pub proof fn law_cancel_twice_drops(m: Map<u64, DownloadEntry>, id: u64)
    requires
        downloads_wf(m),
        (lookup(m, id) matches Some(e) && !e.status.is_finished()),
    ensures
        ({
            let m1 = m.insert(id, cancelled(m[id]));
            &&& lookup(m1, id) == Some(cancelled(m[id]))
            &&& cancelled(m[id]).status.is_finished()
            &&& lookup(m1.remove(id), id) is None
        }),
{
}

/// Clearing finished downloads leaves none that is finished, and keeps every
/// download that is not, as it was.
pub proof fn law_clear_finished(m: Map<u64, DownloadEntry>)
    ensures
        forall|k: u64|
            #[trigger] unfinished(m).contains_key(k) ==> !unfinished(m)[k].status.is_finished(),
        forall|k: u64|
            #[trigger] m.contains_key(k) && !m[k].status.is_finished() ==> unfinished(
                m,
            ).contains_key(k) && unfinished(m)[k] == m[k],
{
}

/// The history never holds more than its limit, and the newest item comes first.
pub proof fn law_history_bounded(h: Seq<HistoryItem>, item: HistoryItem)
    ensures
        with_recorded(h, item).len() <= HISTORY_LIMIT,
        with_recorded(h, item)[0] == item,
        h.len() < HISTORY_LIMIT ==> with_recorded(h, item) == seq![item] + h,
{
}

/// A progress report never makes a download forget its byte counts, and a
/// finished fragment shows as full without speed or time left.
pub proof fn law_progress_keeps_counts(e: DownloadEntry, p: ProgressFields)
    ensures
        e.downloaded_bytes is Some ==> apply_progress(e, p).downloaded_bytes is Some,
        e.total_bytes is Some ==> apply_progress(e, p).total_bytes is Some,
        e.percent.wf() ==> apply_progress(e, p).percent.wf(),
        reports_finished(p) ==> apply_progress(e, p).percent == Percent::Full && apply_progress(
            e,
            p,
        ).speed is None && apply_progress(e, p).eta is None,
        apply_progress(e, p).status == e.status,
        apply_progress(e, p).id == e.id,
{
}

/// The URL is always the last argument, right after `--`, so that it is never
/// read as an option; and partial files are always continued.
pub proof fn law_url_is_last(e: DownloadEntry, output: Seq<char>, ffmpeg_dir: Option<String>)
    ensures
        ({
            let a = download_args(e, output, ffmpeg_dir);
            &&& a[a.len() - 1] == e.url@
            &&& a[a.len() - 2] == "--"@
            &&& a[6] == "--continue"@
        }),
{
}

/// While ids below the counter are the only ones in use, a new download gets
/// an id of its own and the counter stays ahead of every id.
pub proof fn law_fresh_ids(m: Map<u64, DownloadEntry>, next_id: u64, e: DownloadEntry)
    requires
        forall|k: u64| #[trigger] m.contains_key(k) ==> k < next_id,
        next_id < u64::MAX,
    ensures
        !m.contains_key(next_id),
        forall|k: u64| #[trigger] m.insert(next_id, e).contains_key(k) ==> k < next_id + 1,
        m.dom().finite() ==> m.insert(next_id, e).dom().len() == m.dom().len() + 1,
{
    assert(m.insert(next_id, e).dom() == m.dom().insert(next_id));
}

/// A run's end is taken once: after it, the download is no longer running,
/// so no run owns it and a second end (of that run or a stale one) changes nothing.
pub proof fn law_end_taken_once(m: Map<u64, DownloadEntry>, id: u64, job: u64, msg: Seq<char>, b: DownloadEntry)
    requires
        m.contains_key(id),
        failed_with(m[id], b, msg),
    ensures
        !owns_run(m.insert(id, completed(m[id])), id, job),
        !owns_run(m.insert(id, b), id, job),
{
}

/// In a well-formed state every download holds a run number below the
/// counter, and `pump_queue` hands out numbers from the counter upwards
/// without wrapping; so a run numbered at or above the counter owns no
/// download, and the end of an earlier run is never taken for a later one.
pub proof fn law_runs_are_fresh(s: AppState, id: u64, job: u64)
    requires
        s.wf(),
        job >= s.next_job,
    ensures
        !owns_run(s.downloads@, id, job),
        s.downloads@.contains_key(id) ==> s.downloads@[id].job < s.next_job,
{
}

/// Only ffmpeg and ffprobe are taken out of an archive, each with the content
/// of a member of the archive, and never more files than it has members.
pub proof fn law_only_programs_kept(ms: Seq<(Seq<char>, Seq<u8>)>, kind: ArchiveKind, platform: Platform)
    ensures
        wanted_members(ms, kind, platform).len() <= ms.len(),
        forall|k: int|
            0 <= k < wanted_members(ms, kind, platform).len() ==> is_wanted_binary_spec(
                (#[trigger] wanted_members(ms, kind, platform)[k]).0,
                platform,
            ) && exists|j: int| 0 <= j < ms.len() && ms[j].1 == wanted_members(ms, kind, platform)[k].1,
    decreases ms.len(),
{
    if ms.len() > 0 {
        let d = ms.drop_last();
        law_only_programs_kept(d, kind, platform);
        let w = wanted_members(ms, kind, platform);
        let wd = wanted_members(d, kind, platform);
        assert forall|k: int| 0 <= k < w.len() implies is_wanted_binary_spec((#[trigger] w[k]).0, platform)
            && exists|j: int| 0 <= j < ms.len() && ms[j].1 == w[k].1 by {
            if k < wd.len() {
                assert(w[k] == wd[k]);
                let j = choose|j: int| 0 <= j < d.len() && d[j].1 == wd[k].1;
                assert(ms[j] == d[j]);
            } else {
                assert(ms[ms.len() - 1].1 == w[k].1);
            }
        }
    }
}

/// A post-processing line of the engine ("[Merger]", "[ExtractAudio]" or
/// "[VideoConvertor]") moves a downloading download to merging and changes
/// nothing else of it.
pub proof fn law_post_processing_is_merging(a: DownloadEntry, b: DownloadEntry, line: Seq<char>)
    requires
        a.status == Status::Downloading,
        starts_with(line, "[Merger]"@) || starts_with(line, "[ExtractAudio]"@) || starts_with(
            line,
            "[VideoConvertor]"@,
        ),
        line_applied(a, b, line),
    ensures
        b.status == Status::Merging,
        b == (DownloadEntry { status: Status::Merging, ..a }),
{
    reveal_strlit("[Merger]");
    reveal_strlit("[ExtractAudio]");
    reveal_strlit("[VideoConvertor]");
    reveal_strlit("GRABIT_FILE::");
    reveal_strlit("{");
    reveal_strlit("[download] Downloading item ");
    let c1 = line[1];
    if starts_with(line, "[Merger]"@) {
        assert(line.subrange(0, 8)[0] == line[0] && line.subrange(0, 8)[1] == line[1]);
    } else if starts_with(line, "[ExtractAudio]"@) {
        assert(line.subrange(0, 14)[0] == line[0] && line.subrange(0, 14)[1] == line[1]);
    } else {
        assert(line.subrange(0, 16)[0] == line[0] && line.subrange(0, 16)[1] == line[1]);
    }
    assert(line[0] == '[');
    assert(c1 == 'M' || c1 == 'E' || c1 == 'V');
    assert(!starts_with(line, file_marker())) by {
        if starts_with(line, file_marker()) {
            assert(line.subrange(0, 13)[0] == line[0]);
        }
    }
    assert(!starts_with(line, "{"@)) by {
        if starts_with(line, "{"@) {
            assert(line.subrange(0, 1)[0] == line[0]);
        }
    }
    assert(!starts_with(line, item_marker())) by {
        if starts_with(line, item_marker()) {
            assert(line.subrange(0, 28)[1] == line[1]);
        }
    }
}

/// A progress report that gives the bytes done and a non-zero total (its
/// `total_bytes`, else its estimate), and that is not "finished", sets the
/// share to exactly those numbers, whatever the share was before; a finished
/// report makes the download full.
pub proof fn law_progress_sets_share(e: DownloadEntry, p: ProgressFields, d: u64, t: u64)
    requires
        p.downloaded_bytes == Some(d),
        p.total_bytes == Some(t) || (p.total_bytes is None && p.total_bytes_estimate == Some(t)),
        t > 0,
    ensures
        !(p.status matches Some(st) && st@ == "finished"@) ==> apply_progress(e, p).percent
            == (Percent::Share { done: d, total: t }),
        (p.status matches Some(st) && st@ == "finished"@) ==> apply_progress(e, p).percent
            == Percent::Full,
        apply_progress(e, p).downloaded_bytes == Some(d),
        apply_progress(e, p).total_bytes == Some(t),
{
}

/// The history item recorded for a download carries the download's url,
/// title, thumbnail, quality, file path, total size and status, the time it
/// finished, and as id the time the download was asked for.
pub proof fn law_history_item_keeps_download(e: DownloadEntry, finished_at: u64)
    ensures
        history_item(e, finished_at).id == e.created_at,
        history_item(e, finished_at).url == e.url,
        history_item(e, finished_at).title == e.title,
        history_item(e, finished_at).thumbnail == e.thumbnail,
        history_item(e, finished_at).quality == e.quality,
        history_item(e, finished_at).file_path == e.file_path,
        history_item(e, finished_at).total_bytes == e.total_bytes,
        history_item(e, finished_at).status == e.status,
        history_item(e, finished_at).finished_at == finished_at,
{
}

/// A download added for a request has the request's url, title (or the url
/// when it has none), thumbnail, quality and playlist choice; it is queued,
/// has made no progress, has no file or error yet, and no run owns it.
pub proof fn law_request_queued_as_asked(id: u64, r: DownloadRequest, created_at: u64)
    ensures
        queued_entry(id, r, created_at).id == id,
        queued_entry(id, r, created_at).url == r.url,
        queued_entry(id, r, created_at).title == (match r.title {
            Some(t) => t,
            None => r.url,
        }),
        queued_entry(id, r, created_at).thumbnail == r.thumbnail,
        queued_entry(id, r, created_at).quality == r.quality,
        queued_entry(id, r, created_at).playlist == r.playlist,
        queued_entry(id, r, created_at).status == Status::Queued,
        queued_entry(id, r, created_at).percent == Percent::Zero,
        queued_entry(id, r, created_at).file_path is None,
        queued_entry(id, r, created_at).error is None,
        queued_entry(id, r, created_at).created_at == created_at,
        queued_entry(id, r, created_at).job == 0,
{
}

/// A queued, downloading or merging download can be paused, and pausing it
/// makes it paused (without speed or time left when it was running) and keeps
/// everything else; a download in any other state cannot be paused and stays
/// as it is.
pub proof fn law_pause_stops(e: DownloadEntry)
    ensures
        (e.status == Status::Queued || e.status == Status::Downloading || e.status
            == Status::Merging) <==> can_pause(e.status),
        e.status == Status::Queued ==> paused(e) == (DownloadEntry { status: Status::Paused, ..e }),
        (e.status == Status::Downloading || e.status == Status::Merging) ==> paused(e) == (
        DownloadEntry { status: Status::Paused, speed: None, eta: None, ..e }),
        !(e.status == Status::Queued || e.status == Status::Downloading || e.status
            == Status::Merging) ==> paused(e) == e,
{
}

/// A file-marker line records the path after the marker as the download's
/// file, and changes nothing else.
pub proof fn law_file_marker_sets_path(a: DownloadEntry, b: DownloadEntry, line: Seq<char>)
    requires
        starts_with(line, "GRABIT_FILE::"@),
        line_applied(a, b, line),
    ensures
        b.file_path matches Some(p) && p@ == line.skip(13),
        b == (DownloadEntry { file_path: b.file_path, ..a }),
{
    reveal_strlit("GRABIT_FILE::");
}

/// An item announcement "[download] Downloading item N of M" shows
/// "Item N of M" as the playlist progress and starts the share again from
/// zero; nothing else changes.
pub proof fn law_playlist_item_shown(a: DownloadEntry, b: DownloadEntry, line: Seq<char>)
    requires
        starts_with(line, "[download] Downloading item "@),
        line_applied(a, b, line),
    ensures
        b.playlist_progress matches Some(t) && t@ == "Item "@ + line.skip(28),
        b.percent == Percent::Zero,
        b == (DownloadEntry { playlist_progress: b.playlist_progress, percent: Percent::Zero, ..a }),
{
    reveal_strlit("GRABIT_FILE::");
    reveal_strlit("{");
    reveal_strlit("[download] Downloading item ");
    reveal_strlit("[download] Downloading ");
    reveal_strlit("Item ");
    let p = "[download] Downloading "@;
    assert(line.subrange(0, 28)[0] == line[0] && line.subrange(0, 28)[1] == line[1]);
    assert(!starts_with(line, file_marker())) by {
        if starts_with(line, file_marker()) {
            assert(line.subrange(0, 13)[0] == line[0]);
        }
    }
    assert(!starts_with(line, "{"@)) by {
        if starts_with(line, "{"@) {
            assert(line.subrange(0, 1)[0] == line[0]);
        }
    }
    assert(starts_with(line, p)) by {
        assert(line.subrange(0, 23) =~= p) by {
            assert forall|i: int| 0 <= i < 23 implies line.subrange(0, 23)[i] == p[i] by {
                assert(line.subrange(0, 28)[i] == line[i]);
            }
        }
    }
    let rest = line.skip(23);
    assert(rest[0] == line[23]);
    assert(line.subrange(0, 28)[23] == line[23]);
    assert(rest[0] == 'i');
    assert(!starts_with(rest, p)) by {
        if starts_with(rest, p) {
            assert(rest.subrange(0, 23)[0] == rest[0]);
        }
    }
    assert(trim_start_matches(rest, p) == rest);
    assert(trim_start_matches(line, p) == rest);
    assert(capitalize(rest) =~= "Item "@ + line.skip(28)) by {
        assert forall|i: int| 1 <= i < 5 implies rest[i] == "Item "@[i] by {
            assert(line.subrange(0, 28)[23 + i] == line[23 + i]);
        }
    }
}

/// A run that ended well leaves the download done and full, without speed or
/// time left; one that failed leaves it failed with the message; either way
/// what was downloaded, and where to, stays.
pub proof fn law_run_end_outcomes(a: DownloadEntry, b: DownloadEntry, msg: Seq<char>)
    ensures
        completed(a).status == Status::Done,
        completed(a).percent == Percent::Full,
        completed(a).speed is None && completed(a).eta is None,
        completed(a).file_path == a.file_path && completed(a).url == a.url && completed(a).title
            == a.title && completed(a).total_bytes == a.total_bytes && completed(a).created_at
            == a.created_at,
        failed_with(a, b, msg) ==> b.status == Status::Error && (b.error matches Some(m) && m@
            == msg) && b.file_path == a.file_path && b.percent == a.percent && b.url == a.url,
        cancelled(a).status == Status::Cancelled,
        cancelled(a).speed is None && cancelled(a).eta is None,
        cancelled(a).file_path == a.file_path,
{
}

/// The playlist choice and the quality of a download decide yt-dlp's
/// playlist flag and format arguments; the output template follows `-o`.
pub proof fn law_arguments_follow_choices(e: DownloadEntry, output: Seq<char>, ffmpeg_dir: Option<String>)
    ensures
        ({
            let a = download_args(e, output, ffmpeg_dir);
            let k: int = if ffmpeg_dir is Some { 15 } else { 13 };
            &&& a[11] == "-o"@
            &&& a[12] == output
            &&& (ffmpeg_dir matches Some(d) ==> a[13] == "--ffmpeg-location"@ && a[14] == d@)
            &&& a[k] == (if e.playlist { "--yes-playlist"@ } else { "--no-playlist"@ })
            &&& (e.quality@ == "audio-mp3"@ ==> a[k + 1] == "-x"@ && a[k + 2] == "--audio-format"@
                && a[k + 3] == "mp3"@)
            &&& (e.quality@ == "audio-m4a"@ ==> a[k + 1] == "-x"@ && a[k + 2] == "--audio-format"@
                && a[k + 3] == "m4a"@)
            &&& (e.quality@ == "best"@ ==> a[k + 1] == "-f"@ && a[k + 2] == "bv*+ba/b"@)
        }),
{
    reveal_strlit("audio-mp3");
    reveal_strlit("audio-m4a");
    reveal_strlit("best");
    let a = download_args(e, output, ffmpeg_dir);
    let head = seq![
        "--no-warnings"@,
        "--newline"@,
        "--progress"@,
        "--progress-template"@,
        "%(progress)j"@,
        "--no-mtime"@,
        "--continue"@,
        "--print"@,
        "after_move:GRABIT_FILE::%(filepath)s"@,
        "--no-simulate"@,
        "--no-quiet"@,
        "-o"@,
        output,
    ];
    let ff = match ffmpeg_dir {
        Some(d) => seq!["--ffmpeg-location"@, d@],
        None => Seq::<Seq<char>>::empty(),
    };
    let flag = seq![if e.playlist { "--yes-playlist"@ } else { "--no-playlist"@ }];
    let f = format_args(e.quality@);
    let k: int = if ffmpeg_dir is Some { 15 } else { 13 };
    assert(a == head + ff + flag + f + seq!["--"@, e.url@]);
    assert((head + ff).len() == k);
    assert(a[11] == head[11] && a[12] == head[12]);
    assert(a[k] == flag[0]);
    assert(f.len() >= 2);
    assert(a[k + 1] == f[0] && a[k + 2] == f[1]);
    if f.len() > 2 {
        assert(a[k + 3] == f[2]);
    }
    assert("audio-m4a"@[7] != "audio-mp3"@[7]);
    assert("best"@.len() != "audio-mp3"@.len() && "best"@.len() != "audio-m4a"@.len());
    if e.quality@ == "audio-mp3"@ {
        assert(f == seq!["-x"@, "--audio-format"@, "mp3"@]);
    }
    if e.quality@ == "audio-m4a"@ {
        assert(f == seq!["-x"@, "--audio-format"@, "m4a"@]);
    }
    if ffmpeg_dir is Some {
        assert(a[13] == ff[0] && a[14] == ff[1]);
    }
}

/// A progress report replaces speed and time left by its own (none once the
/// fragment is finished), keeps byte counts it does not give, and never
/// changes the download's status, id or file.
pub proof fn law_progress_speed_and_counts(e: DownloadEntry, p: ProgressFields)
    ensures
        !(p.status matches Some(st) && st@ == "finished"@) ==> apply_progress(e, p).speed == p.speed
            && apply_progress(e, p).eta == p.eta,
        (p.status matches Some(st) && st@ == "finished"@) ==> apply_progress(e, p).speed is None
            && apply_progress(e, p).eta is None,
        p.downloaded_bytes is None ==> apply_progress(e, p).downloaded_bytes == e.downloaded_bytes,
        p.total_bytes is None && p.total_bytes_estimate is None ==> apply_progress(e, p).total_bytes
            == e.total_bytes,
        (p.downloaded_bytes is None || (p.total_bytes is None && p.total_bytes_estimate is None))
            && !(p.status matches Some(st) && st@ == "finished"@) ==> apply_progress(e, p).percent
            == e.percent,
        apply_progress(e, p).status == e.status && apply_progress(e, p).id == e.id
            && apply_progress(e, p).file_path == e.file_path && apply_progress(e, p).job == e.job,
{
}

} // verus!
