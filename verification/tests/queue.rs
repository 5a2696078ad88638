use grabit::downloader::{should_emit, LineOutcome};
use grabit::engine::EnginePaths;
use grabit::models::{DownloadEntry, DownloadRequest, Percent, Settings, Status};
use grabit::state::AppState;

fn request(url: &str) -> DownloadRequest {
    DownloadRequest {
        url: url.to_string(),
        quality: "best".to_string(),
        playlist: false,
        title: None,
        thumbnail: None,
    }
}

fn state_with(max: usize) -> AppState {
    let mut settings = Settings::default();
    settings.max_concurrent = max;
    AppState::new(settings, EnginePaths::default(), Vec::new())
}

fn status_of(s: &AppState, id: u64) -> Status {
    s.downloads.get(&id).unwrap().status
}

#[test]
fn ids_count_up_and_entries_start_queued() {
    let mut s = state_with(3);
    let a = s.start_download(request("https://a"), 100);
    let mut r = request("https://b");
    r.title = Some("B".to_string());
    let b = s.start_download(r, 200);
    assert_eq!((a, b), (1, 2));
    assert_eq!(s.next_id, 3);
    let ea = &s.downloads[&a];
    assert_eq!(ea.title, "https://a");
    assert_eq!(ea.status, Status::Queued);
    assert_eq!(ea.percent, Percent::Zero);
    assert_eq!(ea.created_at, 100);
    assert_eq!(s.downloads[&b].title, "B");
}

#[test]
fn id_counter_wraps_and_replaces() {
    let mut s = state_with(3);
    s.next_id = u64::MAX;
    let a = s.start_download(request("https://a"), 1);
    assert_eq!(a, u64::MAX);
    assert_eq!(s.next_id, 0);
    s.next_id = u64::MAX;
    s.start_download(request("https://b"), 2);
    assert_eq!(s.downloads.len(), 1);
    assert_eq!(s.downloads[&u64::MAX].url, "https://b");
}

fn ids(v: &[DownloadEntry]) -> Vec<u64> {
    v.iter().map(|e| e.id).collect()
}

/// Starts download `id` through the queue and returns the run number it got.
fn start_one(s: &mut AppState, id: u64) -> u64 {
    let started = s.pump_queue();
    let e = started.iter().find(|e| e.id == id).expect("download was not started");
    e.job
}

#[test]
fn pump_starts_oldest_queued_up_to_capacity() {
    let mut s = state_with(2);
    let a = s.start_download(request("https://a"), 300);
    let b = s.start_download(request("https://b"), 100);
    let c = s.start_download(request("https://c"), 200);
    let first = s.pump_queue();
    assert_eq!(ids(&first), vec![b, c]);
    assert!(!s.has_free_slot());
    assert_eq!(ids(&s.pump_queue()), Vec::<u64>::new());
    assert_eq!(status_of(&s, a), Status::Queued);
    assert_eq!(status_of(&s, b), Status::Downloading);
    assert_eq!(status_of(&s, c), Status::Downloading);
}

#[test]
fn pump_with_zero_setting_still_runs_one() {
    let mut s = state_with(0);
    let a = s.start_download(request("https://a"), 1);
    s.start_download(request("https://b"), 2);
    assert_eq!(ids(&s.pump_queue()), vec![a]);
}

#[test]
fn pump_takes_every_queued_download_when_slots_allow() {
    let mut s = state_with(5);
    let a = s.start_download(request("https://a"), 7);
    let b = s.start_download(request("https://b"), 7);
    let mut chosen = ids(&s.pump_queue());
    chosen.sort();
    assert_eq!(chosen, vec![a, b]);
}

#[test]
fn pump_marks_started_and_never_starts_twice() {
    let mut s = state_with(3);
    let a = s.start_download(request("https://a"), 1);
    s.downloads.get_mut(&a).unwrap().error = Some("old".to_string());
    let started = s.pump_queue();
    assert_eq!(started.len(), 1);
    let e = &started[0];
    assert_eq!(e.status, Status::Downloading);
    assert_eq!(e.error, None);
    assert_eq!(e.job, 1);
    assert_eq!(s.next_job, 2);
    assert_eq!(s.downloads[&a].status, e.status);
    assert_eq!(s.downloads[&a].job, e.job);
    // a second pump right after finds nothing left to start
    assert!(s.pump_queue().is_empty());
}

#[test]
fn each_start_gets_a_fresh_run_number() {
    let mut s = state_with(3);
    let a = s.start_download(request("https://a"), 1);
    let b = s.start_download(request("https://b"), 2);
    let started = s.pump_queue();
    assert_eq!(ids(&started), vec![a, b]);
    assert_eq!((started[0].job, started[1].job), (1, 2));
    assert!(s.pause_download(a));
    assert!(s.resume_download(a));
    assert_eq!(start_one(&mut s, a), 3);
}

#[test]
fn output_lines_update_the_download() {
    let mut s = state_with(3);
    let a = s.start_download(request("https://a"), 1);
    let job = start_one(&mut s, a);
    assert!(matches!(s.apply_output_line(a, job, "   "), LineOutcome::Skip));
    assert!(matches!(s.apply_output_line(42, job, "x"), LineOutcome::Stop));
    match s.apply_output_line(a, job, r#"{"downloaded_bytes":5,"total_bytes":10}"#) {
        LineOutcome::Progress(ev) => {
            assert_eq!(ev.id, a);
            assert_eq!(ev.percent, Percent::Share { done: 5, total: 10 });
        }
        _ => panic!("expected progress"),
    }
    match s.apply_output_line(a, job, "[download] Downloading item 3 of 12\n") {
        LineOutcome::Progress(ev) => {
            assert_eq!(ev.playlist_progress.as_deref(), Some("Item 3 of 12"));
            assert_eq!(ev.percent, Percent::Zero);
        }
        _ => panic!("expected progress"),
    }
    match s.apply_output_line(a, job, "[Merger] Merging formats into x.mkv") {
        LineOutcome::Progress(ev) => assert_eq!(ev.status, Status::Merging),
        _ => panic!("expected progress"),
    }
    // progress reports are ignored once the download is no longer downloading
    s.apply_output_line(a, job, r#"{"downloaded_bytes":9,"total_bytes":10}"#);
    assert_eq!(s.downloads[&a].percent, Percent::Zero);
    s.apply_output_line(a, job, "GRABIT_FILE::/home/u/Downloads/x [id].mkv");
    assert_eq!(s.downloads[&a].file_path.as_deref(), Some("/home/u/Downloads/x [id].mkv"));
}

#[test]
fn output_of_a_stale_run_is_not_applied() {
    let mut s = state_with(3);
    let a = s.start_download(request("https://a"), 1);
    let old = start_one(&mut s, a);
    assert!(s.pause_download(a));
    assert!(s.resume_download(a));
    let new = start_one(&mut s, a);
    assert_ne!(old, new);
    assert!(matches!(
        s.apply_output_line(a, old, r#"{"downloaded_bytes":5,"total_bytes":10}"#),
        LineOutcome::Stop
    ));
    assert_eq!(s.downloads[&a].percent, Percent::Zero);
    assert!(matches!(
        s.apply_output_line(a, new, r#"{"downloaded_bytes":5,"total_bytes":10}"#),
        LineOutcome::Progress(_)
    ));
}

#[test]
fn pause_and_resume() {
    let mut s = state_with(3);
    let a = s.start_download(request("https://a"), 1);
    start_one(&mut s, a);
    s.downloads.get_mut(&a).unwrap().speed = Some("1".to_string());
    assert!(s.pause_download(a));
    assert_eq!(status_of(&s, a), Status::Paused);
    assert_eq!(s.downloads[&a].speed, None);
    assert!(!s.pause_download(a));
    assert!(s.pause_download(77));
    assert!(s.resume_download(a));
    assert_eq!(status_of(&s, a), Status::Queued);
    assert!(!s.resume_download(a));
    assert!(!s.resume_download(77));
}

#[test]
fn resume_clears_an_error() {
    let mut s = state_with(3);
    let a = s.start_download(request("https://a"), 1);
    let job = start_one(&mut s, a);
    assert!(s.fail_job(a, job, "boom".to_string(), 5));
    assert_eq!(status_of(&s, a), Status::Error);
    assert_eq!(s.downloads[&a].error.as_deref(), Some("boom"));
    assert!(s.resume_download(a));
    assert_eq!(s.downloads[&a].error, None);
    assert_eq!(s.history.len(), 1);
    assert_eq!(s.history[0].status, Status::Error);
}

#[test]
fn fail_job_only_for_the_owning_run() {
    let mut s = state_with(3);
    let a = s.start_download(request("https://a"), 1);
    // still queued: no run owns it
    assert!(!s.fail_job(a, 0, "boom".to_string(), 5));
    assert_eq!(status_of(&s, a), Status::Queued);
    let job = start_one(&mut s, a);
    assert!(!s.fail_job(a, job + 1, "boom".to_string(), 5));
    assert!(!s.fail_job(99, job, "boom".to_string(), 5));
    assert_eq!(status_of(&s, a), Status::Downloading);
    assert!(s.history.is_empty());
}

#[test]
fn cancel_marks_then_drops() {
    let mut s = state_with(3);
    let a = s.start_download(request("https://a"), 1);
    let job = start_one(&mut s, a);
    s.apply_output_line(a, job, "GRABIT_FILE::/tmp/v.mp4");
    assert_eq!(s.cancel_download(a), Some("/tmp/v.mp4.part".to_string()));
    assert_eq!(status_of(&s, a), Status::Cancelled);
    assert_eq!(s.cancel_download(a), None);
    assert!(s.downloads.is_empty());
    assert_eq!(s.cancel_download(a), None);
}

#[test]
fn finish_job_outcomes() {
    let mut s = state_with(3);
    let a = s.start_download(request("https://a"), 10);
    let b = s.start_download(request("https://b"), 20);
    let c = s.start_download(request("https://c"), 30);
    let started = s.pump_queue();
    assert_eq!(ids(&started), vec![a, b, c]);
    let (ja, jb, jc) = (started[0].job, started[1].job, started[2].job);
    let end = s.finish_job(a, ja, true, None, 1000);
    assert_eq!(end.status, Status::Done);
    let n = end.notice.unwrap();
    assert!(n.success);
    assert_eq!(n.title, "https://a");
    assert_eq!(s.downloads[&a].percent, Percent::Full);
    let end = s.finish_job(b, jb, false, Some("Video unavailable".to_string()), 2000);
    assert_eq!(end.status, Status::Error);
    assert_eq!(s.downloads[&b].error.as_deref(), Some("Video unavailable"));
    s.pause_download(c);
    let end = s.finish_job(c, jc, false, None, 3000);
    assert_eq!(end.status, Status::Paused);
    assert!(end.notice.is_none());
    let end = s.finish_job(99, 1, true, None, 4000);
    assert_eq!(end.status, Status::Cancelled);
    assert_eq!(s.history.len(), 2);
    assert_eq!(s.history[0].id, 20);
    assert_eq!(s.history[0].finished_at, 2000);
    assert_eq!(s.history[1].id, 10);
    assert_eq!(s.history[1].status, Status::Done);
}

#[test]
fn a_second_end_is_ignored() {
    let mut s = state_with(3);
    let a = s.start_download(request("https://a"), 10);
    let job = start_one(&mut s, a);
    assert_eq!(s.finish_job(a, job, true, None, 1).status, Status::Done);
    let again = s.finish_job(a, job, false, None, 2);
    assert_eq!(again.status, Status::Done);
    assert!(again.notice.is_none());
    assert_eq!(status_of(&s, a), Status::Done);
    assert_eq!(s.history.len(), 1);
}

#[test]
fn a_stale_run_does_not_end_the_new_one() {
    let mut s = state_with(3);
    let a = s.start_download(request("https://a"), 10);
    let old = start_one(&mut s, a);
    assert!(s.pause_download(a));
    assert!(s.resume_download(a));
    let new = start_one(&mut s, a);
    // the old run's process ends after the new run started
    let end = s.finish_job(a, old, false, None, 5);
    assert_eq!(end.status, Status::Downloading);
    assert!(end.notice.is_none());
    assert_eq!(status_of(&s, a), Status::Downloading);
    assert!(s.history.is_empty());
    // the new run decides
    let end = s.finish_job(a, new, true, None, 6);
    assert_eq!(end.status, Status::Done);
    assert_eq!(s.history.len(), 1);
    assert_eq!(s.history[0].finished_at, 6);
}

#[test]
fn failed_without_message_says_download_failed() {
    let mut s = state_with(3);
    let a = s.start_download(request("https://a"), 10);
    let job = start_one(&mut s, a);
    s.finish_job(a, job, false, None, 1);
    assert_eq!(s.downloads[&a].error.as_deref(), Some("download failed"));
}

#[test]
fn notifications_follow_the_setting() {
    let mut s = state_with(3);
    let a = s.start_download(request("https://a"), 10);
    let job = start_one(&mut s, a);
    let notice = s.finish_job(a, job, true, None, 1).notice.unwrap();
    assert_eq!(s.notification(&notice), Some(("Download complete".to_string(), "https://a".to_string())));
    s.settings.notifications = false;
    assert_eq!(s.notification(&notice), None);
}

#[test]
fn queue_is_newest_first_and_clear_keeps_unfinished() {
    let mut s = state_with(3);
    let a = s.start_download(request("https://a"), 10);
    let b = s.start_download(request("https://b"), 30);
    let c = s.start_download(request("https://c"), 20);
    let order: Vec<u64> = s.get_queue().iter().map(|e| e.id).collect();
    assert_eq!(order, vec![b, c, a]);
    s.cancel_download(c);
    s.clear_finished();
    let mut left: Vec<u64> = s.downloads.keys().copied().collect();
    left.sort();
    assert_eq!(left, vec![a, b]);
}

#[test]
fn emit_throttle() {
    assert!(should_emit(150, Status::Downloading));
    assert!(!should_emit(20, Status::Downloading));
    assert!(should_emit(0, Status::Merging));
}

#[test]
fn no_start_once_run_numbers_are_used_up() {
    let mut s = state_with(3);
    s.next_job = u64::MAX - 1;
    let a = s.start_download(request("https://a"), 1);
    let b = s.start_download(request("https://b"), 2);
    let started = s.pump_queue();
    assert_eq!(ids(&started), vec![a]);
    assert_eq!(started[0].job, u64::MAX - 1);
    assert_eq!(s.next_job, u64::MAX);
    assert!(s.pump_queue().is_empty());
    assert_eq!(status_of(&s, b), Status::Queued);
}

#[test]
fn current_run_is_the_owning_one() {
    let mut s = state_with(3);
    let a = s.start_download(request("https://a"), 1);
    assert!(!s.is_current_run(a, 0));
    let job = start_one(&mut s, a);
    assert!(s.is_current_run(a, job));
    assert!(!s.is_current_run(a, job + 1));
    assert!(s.pause_download(a));
    assert!(!s.is_current_run(a, job));
    assert!(!s.is_current_run(99, job));
}

#[test]
fn new_settings_apply_to_the_next_pump() {
    let mut s = state_with(1);
    let a = s.start_download(request("https://a"), 1);
    let b = s.start_download(request("https://b"), 2);
    assert_eq!(ids(&s.pump_queue()), vec![a]);
    let mut settings = Settings::default();
    settings.max_concurrent = 2;
    s.set_settings(settings);
    assert_eq!(s.settings.max_concurrent, 2);
    assert_eq!(ids(&s.pump_queue()), vec![b]);
}
