use grabit::models::{DownloadEntry, Percent, Status};
use grabit::ytdlp::{build_args, metadata_args};

fn entry(quality: &str, playlist: bool) -> DownloadEntry {
    DownloadEntry {
        id: 1,
        url: "-https://example.com/v".to_string(),
        title: "t".to_string(),
        thumbnail: None,
        quality: quality.to_string(),
        playlist,
        status: Status::Queued,
        percent: Percent::Zero,
        speed: None,
        eta: None,
        downloaded_bytes: None,
        total_bytes: None,
        playlist_progress: None,
        file_path: None,
        error: None,
        created_at: 0,
        job: 0,
    }
}

#[test]
fn arguments_for_best_video() {
    let args = build_args(&entry("best", false), "/d/%(title)s [%(id)s].%(ext)s", &Some("/ff".to_string()));
    let want = vec![
        "--no-warnings", "--newline", "--progress", "--progress-template", "%(progress)j", "--no-mtime",
        "--continue", "--print", "after_move:GRABIT_FILE::%(filepath)s", "--no-simulate", "--no-quiet",
        "-o", "/d/%(title)s [%(id)s].%(ext)s", "--ffmpeg-location", "/ff", "--no-playlist", "-f",
        "bv*+ba/b", "--", "-https://example.com/v",
    ];
    assert_eq!(args, want);
}

#[test]
fn arguments_for_audio_and_heights() {
    let a = build_args(&entry("audio-mp3", true), "o", &None);
    assert_eq!(&a[12..], &["o", "--yes-playlist", "-x", "--audio-format", "mp3", "--", "-https://example.com/v"]);
    let a = build_args(&entry("audio-m4a", false), "o", &None);
    assert_eq!(&a[14..17], &["-x", "--audio-format", "m4a"]);
    let a = build_args(&entry("1080", false), "o", &None);
    assert_eq!(&a[14..16], &["-f", "bv*[height<=1080]+ba/b[height<=1080]"]);
    assert_eq!(a[a.len() - 2], "--");
}

#[test]
fn arguments_for_metadata() {
    let a = metadata_args("-https://example.com/list");
    assert_eq!(a, vec!["-J", "--flat-playlist", "--no-warnings", "--", "-https://example.com/list"]);
}
