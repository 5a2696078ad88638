use grabit::engine::{
    detect, exe, ffmpeg_source, is_wanted_binary, missing_components, system_update_message,
    updated_message, ytdlp_url, zip_member_target, ArchiveKind, EnginePaths, EngineProbe, Platform,
};
use grabit::models::{millis_to_u64, now_millis, DownloadRequest, Settings, Status};
use grabit::state::AppState;

fn request(url: &str) -> DownloadRequest {
    DownloadRequest { url: url.to_string(), quality: "720".to_string(), playlist: true, title: None, thumbnail: None }
}

#[test]
fn history_keeps_500_newest_first() {
    let mut s = AppState::new(Settings::default(), EnginePaths::default(), Vec::new());
    let a = s.start_download(request("https://a"), 42);
    for i in 0..505u64 {
        s.record(a, i);
    }
    assert_eq!(s.history.len(), 500);
    assert_eq!(s.history[0].finished_at, 504);
    assert_eq!(s.history[499].finished_at, 5);
    assert_eq!(s.history[0].id, 42);
    assert_eq!(s.history[0].quality, "720");
    s.record(999, 1);
    assert_eq!(s.history[0].finished_at, 504);
    assert_eq!(s.get_history().len(), 500);
}

#[test]
fn remove_and_clear_history() {
    let mut s = AppState::new(Settings::default(), EnginePaths::default(), Vec::new());
    let a = s.start_download(request("https://a"), 1);
    let b = s.start_download(request("https://b"), 2);
    s.record(a, 10);
    s.record(b, 11);
    s.record(a, 12);
    s.remove_history_item(1);
    assert_eq!(s.history.len(), 1);
    assert_eq!(s.history[0].url, "https://b");
    assert_eq!(s.history[0].status, Status::Queued);
    s.clear_history();
    assert!(s.get_history().is_empty());
}

#[test]
fn settings_defaults() {
    let d = Settings::default();
    assert_eq!(d.download_dir, None);
    assert_eq!(d.default_quality, "best");
    assert_eq!(d.max_concurrent, 3);
    assert!(d.notifications);
}

#[test]
fn clock_readings() {
    assert!(now_millis() > 1_600_000_000_000);
    assert_eq!(millis_to_u64(None), 0);
    assert_eq!(millis_to_u64(Some((1u128 << 64) + 5)), 5);
}

#[test]
fn detect_prefers_local_copies() {
    let p = detect(EngineProbe {
        local_ytdlp: Some("/app/bin/yt-dlp".into()),
        local_ffmpeg_dir: None,
        path_ytdlp: Some("/usr/bin/yt-dlp".into()),
        path_ffmpeg_dir: Some("/usr/bin".into()),
    });
    assert_eq!(p.ytdlp.as_deref(), Some("/app/bin/yt-dlp"));
    assert_eq!(p.ffmpeg_dir.as_deref(), Some("/usr/bin"));
    assert!(p.ready);
    let q = detect(EngineProbe { local_ytdlp: None, local_ffmpeg_dir: None, path_ytdlp: None, path_ffmpeg_dir: Some("/x".into()) });
    assert!(!q.ready);
    assert_eq!(missing_components(&q), (true, false));
}

#[test]
fn engine_state_updates() {
    let mut s = AppState::new(Settings::default(), EnginePaths::default(), Vec::new());
    assert_eq!(s.ytdlp_path().err().unwrap(), "yt-dlp is not installed yet");
    assert_eq!(s.update_target().err().unwrap(), "yt-dlp not installed");
    let missing = EngineProbe { local_ytdlp: Some("/b/yt-dlp".into()), local_ffmpeg_dir: None, path_ytdlp: None, path_ffmpeg_dir: None };
    assert_eq!(s.complete_engine_setup(missing).err().unwrap(), "engine setup did not produce working binaries");
    assert!(s.engine.ytdlp.is_none());
    let full = EngineProbe { local_ytdlp: Some("/b/yt-dlp".into()), local_ffmpeg_dir: Some("/b".into()), path_ytdlp: None, path_ffmpeg_dir: None };
    let p = s.complete_engine_setup(full).ok().unwrap();
    assert!(p.ready);
    assert_eq!(s.ytdlp_path().ok().unwrap(), "/b/yt-dlp");
    let again = EngineProbe { local_ytdlp: None, local_ffmpeg_dir: None, path_ytdlp: None, path_ffmpeg_dir: None };
    let p = s.check_engine(again);
    assert!(!p.ready && s.engine.ytdlp.is_none());
}

#[test]
fn platform_names_and_sources() {
    assert_eq!(exe("ffmpeg", Platform::Windows), "ffmpeg.exe");
    assert_eq!(exe("ffmpeg", Platform::Linux), "ffmpeg");
    assert!(ytdlp_url(Platform::MacOs).ends_with("yt-dlp_macos"));
    assert!(ytdlp_url(Platform::Windows).ends_with("yt-dlp.exe"));
    let l = ffmpeg_source(Platform::Linux);
    assert_eq!(l.kind, ArchiveKind::TarXz);
    assert_eq!(l.archive_name, "ffmpeg.tar.xz");
    let m = ffmpeg_source(Platform::MacOs);
    assert_eq!(m.kind, ArchiveKind::Zip);
    assert_eq!(m.url, "https://evermeet.cx/ffmpeg/getrelease/ffmpeg/zip");
}

#[test]
fn archive_members_to_keep() {
    assert_eq!(zip_member_target("ffmpeg-master/bin/ffmpeg.exe", Platform::Windows), Some("ffmpeg.exe".to_string()));
    assert_eq!(zip_member_target("ffprobe", Platform::MacOs), Some("ffprobe".to_string()));
    assert_eq!(zip_member_target("ffmpeg-master/bin/ffplay.exe", Platform::Windows), None);
    assert_eq!(zip_member_target("bin/", Platform::Linux), None);
    assert!(is_wanted_binary("ffprobe", Platform::Linux));
    assert!(!is_wanted_binary("ffprobe", Platform::Windows));
}

#[test]
fn update_messages() {
    assert_eq!(system_update_message("2024.08.06\n"), "Using system yt-dlp 2024.08.06 \u{2014} update it with your package manager");
    assert_eq!(updated_message(), "yt-dlp updated to the latest release");
}
