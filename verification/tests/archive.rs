use std::io::{Cursor, Write};

use grabit::archive::{ffmpeg_files, member_target_exec, path_file_name};
use grabit::engine::{ArchiveKind, Platform};

fn zip_of(members: &[(&str, &[u8])]) -> Vec<u8> {
    let mut w = zip::ZipWriter::new(Cursor::new(Vec::new()));
    let options = zip::write::SimpleFileOptions::default()
        .compression_method(zip::CompressionMethod::Deflated);
    for (name, data) in members {
        w.start_file(*name, options).unwrap();
        w.write_all(data).unwrap();
    }
    w.finish().unwrap().into_inner()
}

fn tar_xz_of(members: &[(&str, &[u8])]) -> Vec<u8> {
    let mut b = tar::Builder::new(xz2::write::XzEncoder::new(Vec::new(), 6));
    for (name, data) in members {
        let mut h = tar::Header::new_gnu();
        h.set_size(data.len() as u64);
        h.set_mode(0o755);
        h.set_cksum();
        b.append_data(&mut h, name, *data).unwrap();
    }
    b.into_inner().unwrap().finish().unwrap()
}

#[test]
fn zip_keeps_ffmpeg_and_ffprobe_by_last_segment() {
    let archive = zip_of(&[
        ("ffmpeg-master/", b""),
        ("ffmpeg-master/bin/ffmpeg.exe", b"MZ ffmpeg"),
        ("ffmpeg-master/bin/ffplay.exe", b"MZ ffplay"),
        ("ffmpeg-master/bin/ffprobe.exe", b"MZ ffprobe"),
        ("ffmpeg-master/doc/ffmpeg.html", b"<html>"),
    ]);
    let files = ffmpeg_files(&archive, ArchiveKind::Zip, Platform::Windows).unwrap();
    assert_eq!(
        files,
        vec![
            ("ffmpeg.exe".to_string(), b"MZ ffmpeg".to_vec()),
            ("ffprobe.exe".to_string(), b"MZ ffprobe".to_vec()),
        ]
    );
}

#[test]
fn zip_for_macos_with_ffmpeg_only() {
    let archive = zip_of(&[("ffmpeg", b"\xcf\xfa\xed\xfe")]);
    let files = ffmpeg_files(&archive, ArchiveKind::Zip, Platform::MacOs).unwrap();
    assert_eq!(files, vec![("ffmpeg".to_string(), b"\xcf\xfa\xed\xfe".to_vec())]);
}

#[test]
fn tar_xz_keeps_programs_by_file_name() {
    let archive = tar_xz_of(&[
        ("ffmpeg-master-latest-linux64-gpl/bin/ffmpeg", b"ELF ffmpeg"),
        ("ffmpeg-master-latest-linux64-gpl/bin/ffplay", b"ELF ffplay"),
        ("ffmpeg-master-latest-linux64-gpl/bin/ffprobe", b"ELF ffprobe"),
        ("ffmpeg-master-latest-linux64-gpl/LICENSE.txt", b"GPL"),
    ]);
    let files = ffmpeg_files(&archive, ArchiveKind::TarXz, Platform::Linux).unwrap();
    assert_eq!(
        files,
        vec![
            ("ffmpeg".to_string(), b"ELF ffmpeg".to_vec()),
            ("ffprobe".to_string(), b"ELF ffprobe".to_vec()),
        ]
    );
}

#[test]
fn broken_archives_are_errors() {
    assert!(ffmpeg_files(b"not an archive", ArchiveKind::Zip, Platform::Windows).is_err());
    assert!(ffmpeg_files(b"not an archive", ArchiveKind::TarXz, Platform::Linux).is_err());
    let zip = zip_of(&[("ffmpeg", b"x")]);
    assert!(ffmpeg_files(&zip, ArchiveKind::TarXz, Platform::Linux).is_err());
}

#[test]
fn file_names_of_tar_paths() {
    assert_eq!(path_file_name("a/b/ffmpeg"), Some("ffmpeg".to_string()));
    assert_eq!(path_file_name("ffmpeg"), Some("ffmpeg".to_string()));
    assert_eq!(path_file_name("a/ffmpeg/"), Some("ffmpeg".to_string()));
    assert_eq!(path_file_name("a/ffmpeg/."), Some("ffmpeg".to_string()));
    assert_eq!(path_file_name("./ffmpeg"), Some("ffmpeg".to_string()));
    assert_eq!(path_file_name("a/.."), None);
    assert_eq!(path_file_name("."), None);
    assert_eq!(path_file_name("/"), None);
    assert_eq!(path_file_name(""), None);
    for p in ["a/b/ffmpeg", "a/ffmpeg/", "a/ffmpeg/.", "./x", "a/..", ".", "/", "", "a//b//", "x/./"] {
        let want = std::path::Path::new(p).file_name().and_then(|n| n.to_str()).map(String::from);
        assert_eq!(path_file_name(p), want, "path {:?}", p);
    }
}

#[test]
fn member_targets() {
    assert_eq!(member_target_exec("x/bin/ffprobe", ArchiveKind::TarXz, Platform::Linux), Some("ffprobe".to_string()));
    assert_eq!(member_target_exec("x/bin/ffprobe/", ArchiveKind::Zip, Platform::Linux), None);
    assert_eq!(member_target_exec("x/bin/ffprobe", ArchiveKind::TarXz, Platform::Windows), None);
}
