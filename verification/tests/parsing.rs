use grabit::models::{DownloadEntry, Percent, Status};
use grabit::progress::parse_progress_line;
use grabit::ytdlp::{fetch_metadata, metadata_error, stderr_error};

fn entry() -> DownloadEntry {
    DownloadEntry {
        id: 1,
        url: "https://example.com/v".to_string(),
        title: "t".to_string(),
        thumbnail: None,
        quality: "best".to_string(),
        playlist: false,
        status: Status::Downloading,
        percent: Percent::Zero,
        speed: None,
        eta: None,
        downloaded_bytes: None,
        total_bytes: None,
        playlist_progress: None,
        file_path: None,
        error: None,
        created_at: 10,
        job: 0,
    }
}

#[test]
fn progress_line_sets_counts_share_speed_and_eta() {
    let mut e = entry();
    let line = r#"{"status":"downloading","downloaded_bytes":50,"total_bytes":200,"speed":1234.5,"eta":7}"#;
    assert!(parse_progress_line(line, &mut e));
    assert_eq!(e.downloaded_bytes, Some(50));
    assert_eq!(e.total_bytes, Some(200));
    assert_eq!(e.percent, Percent::Share { done: 50, total: 200 });
    assert_eq!(e.speed.as_deref(), Some("1234.5"));
    assert_eq!(e.eta.as_deref(), Some("7"));
}

#[test]
fn progress_line_uses_estimate_and_keeps_old_counts() {
    let mut e = entry();
    e.downloaded_bytes = Some(9);
    e.total_bytes = Some(99);
    let line = r#"{"status":"downloading","total_bytes_estimate":1000.9}"#;
    assert!(parse_progress_line(line, &mut e));
    assert_eq!(e.downloaded_bytes, Some(9));
    assert_eq!(e.total_bytes, Some(1000));
    assert_eq!(e.percent, Percent::Zero);
    assert_eq!(e.speed, None);
}

#[test]
fn progress_line_with_zero_total_keeps_share() {
    let mut e = entry();
    e.percent = Percent::Share { done: 1, total: 4 };
    assert!(parse_progress_line(r#"{"downloaded_bytes":5,"total_bytes":0}"#, &mut e));
    assert_eq!(e.percent, Percent::Share { done: 1, total: 4 });
    assert_eq!(e.total_bytes, Some(0));
}

#[test]
fn finished_fragment_is_full() {
    let mut e = entry();
    e.speed = Some("3".to_string());
    let line = r#"{"status":"finished","downloaded_bytes":10,"total_bytes":20,"speed":5.0,"eta":1}"#;
    assert!(parse_progress_line(line, &mut e));
    assert_eq!(e.percent, Percent::Full);
    assert_eq!(e.speed, None);
    assert_eq!(e.eta, None);
    assert_eq!(e.downloaded_bytes, Some(10));
}

#[test]
fn non_json_line_changes_nothing() {
    let mut e = entry();
    assert!(!parse_progress_line("{not json", &mut e));
    assert_eq!(e.percent, Percent::Zero);
    assert_eq!(e.downloaded_bytes, None);
}

#[test]
fn stderr_error_lines() {
    assert_eq!(stderr_error("ERROR: [youtube] x: Video unavailable"), Some("[youtube] x: Video unavailable".to_string()));
    assert_eq!(stderr_error("WARNING: slow"), None);
    assert_eq!(stderr_error("  ERROR  "), Some("ERROR".to_string()));
}

#[test]
fn metadata_error_takes_last_error_line() {
    let stderr = "WARNING: a\nERROR: first\nsomething\nERROR: second one \nfoo\n";
    assert_eq!(metadata_error(stderr), "second one");
    assert_eq!(metadata_error("nothing useful\n"), "could not read this URL");
    assert_eq!(metadata_error(""), "could not read this URL");
}

#[test]
fn metadata_of_a_video() {
    let json = br#"{"title":"Clip","thumbnail":"https://t/1.jpg","uploader":"Ann","channel":"Chan","duration":12.5,"extractor_key":"Youtube"}"#;
    let m = fetch_metadata("https://u".to_string(), true, json, "").ok().unwrap();
    assert_eq!(m.url, "https://u");
    assert_eq!(m.title, "Clip");
    assert_eq!(m.thumbnail.as_deref(), Some("https://t/1.jpg"));
    assert_eq!(m.uploader.as_deref(), Some("Ann"));
    assert_eq!(m.duration.as_deref(), Some("12.5"));
    assert!(!m.is_playlist);
    assert_eq!(m.entry_count, None);
    assert_eq!(m.extractor.as_deref(), Some("Youtube"));
}

#[test]
fn metadata_of_a_playlist_falls_back_to_entry_thumbnails() {
    let json = br#"{"_type":"playlist","uploader":null,"channel":"Chan","entries":[{"thumbnails":[{"url":"a"},{"url":"b"}]},{}]}"#;
    let m = fetch_metadata("u".to_string(), true, json, "").ok().unwrap();
    assert_eq!(m.title, "Untitled");
    assert!(m.is_playlist);
    assert_eq!(m.entry_count, Some(2));
    assert_eq!(m.thumbnail.as_deref(), Some("b"));
    // "uploader" is present but not a string: the fallback does not reach "channel"
    assert_eq!(m.uploader, None);
}

#[test]
fn metadata_thumbnail_list_fallback_and_uploader_id() {
    let json = br#"{"thumbnails":[{"url":"x"},{"url":"y"}],"uploader_id":"@id"}"#;
    let m = fetch_metadata("u".to_string(), true, json, "").ok().unwrap();
    assert_eq!(m.thumbnail.as_deref(), Some("y"));
    assert_eq!(m.uploader.as_deref(), Some("@id"));
}

#[test]
fn metadata_errors() {
    let e = fetch_metadata("u".to_string(), false, b"", "ERROR: Unsupported URL: u\n").err().unwrap();
    assert_eq!(e, "Unsupported URL: u");
    let e = fetch_metadata("u".to_string(), true, b"<html>", "").err().unwrap();
    assert_eq!(e, "unexpected response from yt-dlp");
}

#[test]
fn metadata_last_thumbnail_without_url_gives_none() {
    // the last thumbnail has no string url, so the list gives nothing and the
    // first entry has no thumbnails
    let json = br#"{"thumbnails":[{"url":"x"},{"id":"2"}],"entries":[{"title":"e"}]}"#;
    let m = fetch_metadata("u".to_string(), true, json, "").ok().unwrap();
    assert_eq!(m.thumbnail, None);
    assert_eq!(m.entry_count, Some(1));
    let json = br#"{"thumbnails":[],"entries":[]}"#;
    let m = fetch_metadata("u".to_string(), true, json, "").ok().unwrap();
    assert_eq!(m.thumbnail, None);
    assert_eq!(m.entry_count, Some(0));
}
