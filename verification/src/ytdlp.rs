//! What the library says to yt-dlp (its arguments) and what it reads back
//! from it (error lines and media descriptions).
use crate::engine::or_else_spec;
use crate::json::{
    metadata_fields, metadata_details, read_metadata_fields, read_metadata_details, MetadataFields,
    MetadataDetails,
};
use crate::models::{clone_opt_string, DownloadEntry, MediaInfo};
use crate::text::{
    contains, contains_str, eq_str, lines, replace_all, replace_str, split_lines, trim, trim_str,
};
use vstd::prelude::*;
use vstd::string::*;

verus! {

/// The characters of each string.
pub open spec fn views(v: Seq<String>) -> Seq<Seq<char>> {
    v.map_values(|a: String| a@)
}

/// The format selection for a quality: audio extraction to MP3 or M4A, the
/// best video and audio, or the best at most `quality` pixels high.
pub open spec fn format_args(quality: Seq<char>) -> Seq<Seq<char>> {
    if quality == "audio-mp3"@ {
        seq!["-x"@, "--audio-format"@, "mp3"@]
    } else if quality == "audio-m4a"@ {
        seq!["-x"@, "--audio-format"@, "m4a"@]
    } else if quality == "best"@ {
        seq!["-f"@, "bv*+ba/b"@]
    } else {
        seq!["-f"@, "bv*[height<="@ + quality + "]+ba/b[height<="@ + quality + "]"@]
    }
}

/// The arguments yt-dlp runs with for a download: JSON progress per line,
/// resume of partial files, the final path printed after the file marker,
/// the output template, ffmpeg's location when known, the playlist choice,
/// the format, and last the URL after `--` so that it is never read as an option.
pub open spec fn download_args(e: DownloadEntry, output: Seq<char>, ffmpeg_dir: Option<String>) -> Seq<
    Seq<char>,
> {
    seq![
        "--no-warnings"@,
        "--newline"@,
        "--progress"@,
        "--progress-template"@,
        "%(progress)j"@,
        "--no-mtime"@,
        "--continue"@,
        "--print"@,
        "after_move:GRABIT_FILE::%(filepath)s"@,
        "--no-simulate"@,
        "--no-quiet"@,
        "-o"@,
        output,
    ] + match ffmpeg_dir {
        Some(d) => seq!["--ffmpeg-location"@, d@],
        None => Seq::<Seq<char>>::empty(),
    } + seq![
        if e.playlist {
            "--yes-playlist"@
        } else {
            "--no-playlist"@
        },
    ] + format_args(e.quality@) + seq!["--"@, e.url@]
}

fn push_str(v: &mut Vec<String>, s: &str)
    ensures
        views(final(v)@) == views(old(v)@).push(s@),
{
    v.push(s.to_owned());
    assert(views(v@) =~= views(old(v)@).push(s@));
}

fn push_string(v: &mut Vec<String>, s: String)
    ensures
        views(final(v)@) == views(old(v)@).push(s@),
{
    let ghost sv = s@;
    v.push(s);
    assert(views(v@) =~= views(old(v)@).push(sv));
}

/// The arguments yt-dlp runs with to download `entry`, writing to the
/// output template `output` (the download folder joined with the file name
/// pattern), with ffmpeg from `ffmpeg_dir` when known.
pub fn build_args(entry: &DownloadEntry, output: &str, ffmpeg_dir: &Option<String>) -> (r: Vec<
    String,
>)
    ensures
        views(r@) == download_args(*entry, output@, *ffmpeg_dir),
{
    let mut args: Vec<String> = Vec::new();
    push_str(&mut args, "--no-warnings");
    push_str(&mut args, "--newline");
    push_str(&mut args, "--progress");
    push_str(&mut args, "--progress-template");
    push_str(&mut args, "%(progress)j");
    push_str(&mut args, "--no-mtime");
    push_str(&mut args, "--continue");
    push_str(&mut args, "--print");
    push_str(&mut args, "after_move:GRABIT_FILE::%(filepath)s");
    push_str(&mut args, "--no-simulate");
    push_str(&mut args, "--no-quiet");
    push_str(&mut args, "-o");
    push_str(&mut args, output);
    let ghost head = views(args@);
    match ffmpeg_dir {
        Some(d) => {
            push_str(&mut args, "--ffmpeg-location");
            push_str(&mut args, d.as_str());
        },
        None => {},
    }
    let ghost with_ffmpeg = views(args@);
    if entry.playlist {
        push_str(&mut args, "--yes-playlist");
    } else {
        push_str(&mut args, "--no-playlist");
    }
    let ghost with_playlist = views(args@);
    let q = entry.quality.as_str();
    if eq_str(q, "audio-mp3") {
        push_str(&mut args, "-x");
        push_str(&mut args, "--audio-format");
        push_str(&mut args, "mp3");
    } else if eq_str(q, "audio-m4a") {
        push_str(&mut args, "-x");
        push_str(&mut args, "--audio-format");
        push_str(&mut args, "m4a");
    } else if eq_str(q, "best") {
        push_str(&mut args, "-f");
        push_str(&mut args, "bv*+ba/b");
    } else {
        push_str(&mut args, "-f");
        let mut f = "bv*[height<=".to_owned();
        f.append(q);
        f.append("]+ba/b[height<=");
        f.append(q);
        f.append("]");
        push_string(&mut args, f);
    }
    let ghost with_format = views(args@);
    assert(with_format =~= with_playlist + format_args(entry.quality@));
    push_str(&mut args, "--");
    push_str(&mut args, entry.url.as_str());
    assert(views(args@) =~= download_args(*entry, output@, *ffmpeg_dir));
    args
}

/// The arguments that ask yt-dlp to describe a link: JSON, flat playlists, no
/// warnings, and last the URL after `--` so that it is never read as an option.
pub open spec fn metadata_args_spec(url: Seq<char>) -> Seq<Seq<char>> {
    seq!["-J"@, "--flat-playlist"@, "--no-warnings"@, "--"@, url]
}

/// The arguments that ask yt-dlp to describe the link `url`.
pub fn metadata_args(url: &str) -> (r: Vec<String>)
    ensures
        views(r@) == metadata_args_spec(url@),
{
    let mut args: Vec<String> = Vec::new();
    push_str(&mut args, "-J");
    push_str(&mut args, "--flat-playlist");
    push_str(&mut args, "--no-warnings");
    push_str(&mut args, "--");
    push_str(&mut args, url);
    assert(views(args@) =~= metadata_args_spec(url@));
    args
}

/// The text of an engine error line: without "ERROR:" markers, trimmed.
pub open spec fn error_text(line: Seq<char>) -> Seq<char> {
    trim(replace_all(line, "ERROR:"@, ""@))
}

/// The error that one line of the engine's error output reports: the lines
/// that contain "ERROR" do.
pub fn stderr_error(line: &str) -> (r: Option<String>)
    ensures
        match r {
            Some(t) => contains(line@, "ERROR"@) && t@ == error_text(line@),
            None => !contains(line@, "ERROR"@),
        },
{
    if contains_str(line, "ERROR") {
        proof {
            reveal_strlit("ERROR:");
        }
        let cleaned = replace_str(line, "ERROR:", "");
        Some(trim_str(cleaned.as_str()))
    } else {
        None
    }
}

/// The last of `ls` that contains "ERROR".
pub open spec fn last_error_line(ls: Seq<Seq<char>>) -> Option<Seq<char>>
    decreases ls.len(),
{
    if ls.len() == 0 {
        None
    } else if contains(ls.last(), "ERROR"@) {
        Some(ls.last())
    } else {
        last_error_line(ls.drop_last())
    }
}

/// The message shown when yt-dlp could not describe a link: its last error
/// line (or "could not read this URL"), without "ERROR:", trimmed.
pub open spec fn metadata_error_spec(stderr: Seq<char>) -> Seq<char> {
    let picked = match last_error_line(lines(stderr)) {
        Some(l) => l,
        None => "could not read this URL"@,
    };
    trim(replace_all(trim(picked), "ERROR:"@, ""@))
}

/// The message shown when yt-dlp could not describe a link, from its error output.
pub fn metadata_error(stderr: &str) -> (r: String)
    ensures
        r@ == metadata_error_spec(stderr@),
{
    let ls = split_lines(stderr);
    let ghost lv = views(ls@);
    assert(lv == lines(stderr@));
    let mut i: usize = ls.len();
    assert(lv.take(i as int) =~= lv);
    while i > 0 && !contains_str(ls[i - 1].as_str(), "ERROR")
        invariant
            i <= ls@.len(),
            lv == views(ls@),
            last_error_line(lv) == last_error_line(lv.take(i as int)),
        decreases i,
    {
        assert(lv.take(i as int).drop_last() =~= lv.take(i - 1));
        i = i - 1;
    }
    let picked = if i > 0 {
        assert(lv.take(i as int).last() == ls@[i - 1]@);
        ls[i - 1].clone()
    } else {
        "could not read this URL".to_owned()
    };
    let t = trim_str(picked.as_str());
    proof {
        reveal_strlit("ERROR:");
    }
    let cleaned = replace_str(t.as_str(), "ERROR:", "");
    trim_str(cleaned.as_str())
}

/// The uploader: the first of "uploader", "channel" and "uploader_id" that is
/// present, when its value is a string.
pub open spec fn uploader_spec(f: MetadataFields) -> Option<String> {
    if f.uploader is Some {
        f.uploader.unwrap()
    } else if f.channel is Some {
        f.channel.unwrap()
    } else if f.uploader_id is Some {
        f.uploader_id.unwrap()
    } else {
        None
    }
}

/// The URL of the last thumbnail of a list, when there is one and it is a string.
pub open spec fn last_url(t: Option<Vec<Option<String>>>) -> Option<String> {
    match t {
        Some(v) => if v@.len() > 0 {
            v@.last()
        } else {
            None
        },
        None => None,
    }
}

/// The URL of the first entry's last thumbnail, when there is one.
pub open spec fn first_entry_url(es: Option<Vec<Option<Vec<Option<String>>>>>) -> Option<String> {
    match es {
        Some(v) => if v@.len() > 0 {
            last_url(v@[0])
        } else {
            None
        },
        None => None,
    }
}

/// `m` describes the link `url` with what yt-dlp reported: the title (or
/// "Untitled"); the thumbnail, else the last listed thumbnail, else the first
/// entry's last thumbnail; the uploader; whether it is a playlist; and the
/// number of entries.
pub open spec fn describes(m: MediaInfo, url: String, f: MetadataFields, l: MetadataDetails) -> bool {
    &&& m.url == url
    &&& m.title@ == match f.title {
        Some(t) => t@,
        None => "Untitled"@,
    }
    &&& m.thumbnail == or_else_spec(
        f.thumbnail,
        or_else_spec(last_url(l.thumbnail_urls), first_entry_url(l.entry_thumbnail_urls)),
    )
    &&& m.uploader == uploader_spec(f)
    &&& m.duration == l.duration
    &&& m.is_playlist == (f.kind matches Some(k) && k@ == "playlist"@)
    &&& m.entry_count == match l.entry_thumbnail_urls {
        Some(es) => Some(es@.len() as usize),
        None => None,
    }
    &&& m.extractor == f.extractor_key
}

fn first_some(a: &Option<String>, b: &Option<String>) -> (r: Option<String>)
    ensures
        r == or_else_spec(*a, *b),
{
    match a {
        Some(x) => Some(x.clone()),
        None => clone_opt_string(b),
    }
}

/// The URL of the last thumbnail of a list.
fn last_url_of(t: &Option<Vec<Option<String>>>) -> (r: Option<String>)
    ensures
        r == last_url(*t),
{
    match t {
        Some(v) => if v.len() > 0 {
            clone_opt_string(&v[v.len() - 1])
        } else {
            None
        },
        None => None,
    }
}

/// The URL of the first entry's last thumbnail.
fn first_entry_url_of(es: &Option<Vec<Option<Vec<Option<String>>>>>) -> (r: Option<String>)
    ensures
        r == first_entry_url(*es),
{
    match es {
        Some(v) => if v.len() > 0 {
            last_url_of(&v[0])
        } else {
            None
        },
        None => None,
    }
}

/// The description of link `url` from the fields yt-dlp reported.
pub fn media_info(url: String, f: &MetadataFields, l: &MetadataDetails) -> (r: MediaInfo)
    ensures
        describes(r, url, *f, *l),
{
    let title = match &f.title {
        Some(t) => t.clone(),
        None => "Untitled".to_owned(),
    };
    let thumbnail = match &f.thumbnail {
        Some(t) => Some(t.clone()),
        None => first_some(&last_url_of(&l.thumbnail_urls), &first_entry_url_of(&l.entry_thumbnail_urls)),
    };
    let uploader = match &f.uploader {
        Some(u) => clone_opt_string(u),
        None => match &f.channel {
            Some(c) => clone_opt_string(c),
            None => match &f.uploader_id {
                Some(i) => clone_opt_string(i),
                None => None,
            },
        },
    };
    let is_playlist = match &f.kind {
        Some(k) => eq_str(k.as_str(), "playlist"),
        None => false,
    };
    MediaInfo {
        url,
        title,
        thumbnail,
        uploader,
        duration: clone_opt_string(&l.duration),
        is_playlist,
        entry_count: match &l.entry_thumbnail_urls {
            Some(es) => Some(es.len()),
            None => None,
        },
        extractor: clone_opt_string(&f.extractor_key),
    }
}

/// Describes link `url` from what `yt-dlp -J` printed: the error message
/// when it failed, "unexpected response from yt-dlp" when its output is not
/// JSON, and otherwise the description.
pub fn fetch_metadata(url: String, success: bool, stdout: &[u8], stderr: &str) -> (r: Result<
    MediaInfo,
    String,
>)
    ensures
        !success ==> (r matches Err(m) && m@ == metadata_error_spec(stderr@)),
        success ==> match (metadata_fields(stdout@), metadata_details(stdout@)) {
            (Some(f), Some(l)) => r matches Ok(m) && describes(m, url, f, l),
            _ => r matches Err(m) && m@ == "unexpected response from yt-dlp"@,
        },
{
    if !success {
        return Err(metadata_error(stderr));
    }
    match (read_metadata_fields(stdout), read_metadata_details(stdout)) {
        (Some(f), Some(l)) => Ok(media_info(url, &f, &l)),
        _ => Err("unexpected response from yt-dlp".to_owned()),
    }
}

} // verus!
