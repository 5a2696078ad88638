//! The download engine (yt-dlp and ffmpeg): which copies to use, where to
//! fetch them from, and what to take out of an ffmpeg archive.
use crate::models::clone_opt_string;
use crate::state::AppState;
use crate::text::{trim, trim_str};
use vstd::prelude::*;

verus! {

/// Where the engine's programs are.
pub struct EnginePaths {
    pub ytdlp: Option<String>,
    pub ffmpeg_dir: Option<String>,
    pub ready: bool,
}

impl EnginePaths {
    /// Both programs are known.
    pub open spec fn ready_spec(ytdlp: Option<String>, ffmpeg_dir: Option<String>) -> bool {
        ytdlp is Some && ffmpeg_dir is Some
    }
}

impl Clone for EnginePaths {
    fn clone(&self) -> (r: Self)
        ensures
            r == *self,
    {
        EnginePaths {
            ytdlp: clone_opt_string(&self.ytdlp),
            ffmpeg_dir: clone_opt_string(&self.ffmpeg_dir),
            ready: self.ready,
        }
    }
}

impl Default for EnginePaths {
    fn default() -> (r: Self)
        ensures
            r.ytdlp is None,
            r.ffmpeg_dir is None,
            !r.ready,
    {
        EnginePaths { ytdlp: None, ffmpeg_dir: None, ready: false }
    }
}

/// The operating system the application runs on.
#[derive(Clone, Copy, Debug, PartialEq, Eq, Structural)]
pub enum Platform {
    Windows,
    MacOs,
    Linux,
}

/// What the file system showed about the engine's programs.
pub struct EngineProbe {
    /// The application's own copy of yt-dlp, when that file exists.
    pub local_ytdlp: Option<String>,
    /// The application's bin directory, when an ffmpeg file exists in it.
    pub local_ffmpeg_dir: Option<String>,
    /// The first yt-dlp file on the system `PATH`.
    pub path_ytdlp: Option<String>,
    /// The directory of the first ffmpeg file on the system `PATH`.
    pub path_ffmpeg_dir: Option<String>,
}

pub open spec fn or_else_spec(a: Option<String>, b: Option<String>) -> Option<String> {
    if a is Some {
        a
    } else {
        b
    }
}

/// The engine that a probe finds: the application's copies first, then the
/// system `PATH`; ready when both programs are found.
pub open spec fn detected(probe: EngineProbe) -> EnginePaths {
    let ytdlp = or_else_spec(probe.local_ytdlp, probe.path_ytdlp);
    let ffmpeg_dir = or_else_spec(probe.local_ffmpeg_dir, probe.path_ffmpeg_dir);
    EnginePaths { ytdlp, ffmpeg_dir, ready: EnginePaths::ready_spec(ytdlp, ffmpeg_dir) }
}

/// Locate yt-dlp and ffmpeg: prefer the application's copies, fall back to
/// the system `PATH`; ready when both are found.
pub fn detect(probe: EngineProbe) -> (r: EnginePaths)
    ensures
        r == detected(probe),
{
    let ytdlp = match probe.local_ytdlp {
        Some(p) => Some(p),
        None => probe.path_ytdlp,
    };
    let ffmpeg_dir = match probe.local_ffmpeg_dir {
        Some(d) => Some(d),
        None => probe.path_ffmpeg_dir,
    };
    let ready = ytdlp.is_some() && ffmpeg_dir.is_some();
    EnginePaths { ytdlp, ffmpeg_dir, ready }
}

/// The file name of program `name` on `platform`.
pub open spec fn exe_spec(name: Seq<char>, platform: Platform) -> Seq<char> {
    if platform == Platform::Windows {
        name + ".exe"@
    } else {
        name
    }
}

/// The file name of program `name` on `platform` (`name.exe` on Windows).
pub fn exe(name: &str, platform: Platform) -> (r: String)
    ensures
        r@ == exe_spec(name@, platform),
{
    let mut r = name.to_owned();
    if platform == Platform::Windows {
        r.append(".exe");
    }
    r
}

/// Where the latest yt-dlp release for `platform` is published.
pub open spec fn ytdlp_url_spec(platform: Platform) -> Seq<char> {
    match platform {
        Platform::Windows => "https://github.com/yt-dlp/yt-dlp/releases/latest/download/yt-dlp.exe"@,
        Platform::MacOs => "https://github.com/yt-dlp/yt-dlp/releases/latest/download/yt-dlp_macos"@,
        Platform::Linux => "https://github.com/yt-dlp/yt-dlp/releases/latest/download/yt-dlp"@,
    }
}

/// Where the latest yt-dlp release for `platform` is published.
pub fn ytdlp_url(platform: Platform) -> (r: &'static str)
    ensures
        r@ == ytdlp_url_spec(platform),
{
    match platform {
        Platform::Windows => "https://github.com/yt-dlp/yt-dlp/releases/latest/download/yt-dlp.exe",
        Platform::MacOs => "https://github.com/yt-dlp/yt-dlp/releases/latest/download/yt-dlp_macos",
        Platform::Linux => "https://github.com/yt-dlp/yt-dlp/releases/latest/download/yt-dlp",
    }
}

/// The kind of archive that ffmpeg comes in.
#[derive(Clone, Copy, Debug, PartialEq, Eq, Structural)]
pub enum ArchiveKind {
    Zip,
    TarXz,
}

/// Where ffmpeg for a platform is fetched from, and the name the archive is saved under.
pub struct FfmpegSource {
    pub url: &'static str,
    pub archive_name: &'static str,
    pub kind: ArchiveKind,
}

/// Where ffmpeg for `platform` is fetched from: a zip on Windows and macOS,
/// a tar.xz on Linux.
pub fn ffmpeg_source(platform: Platform) -> (r: FfmpegSource)
    ensures
        r.kind == (if platform == Platform::Linux {
            ArchiveKind::TarXz
        } else {
            ArchiveKind::Zip
        }),
        r.archive_name@ == (if platform == Platform::Linux {
            "ffmpeg.tar.xz"@
        } else {
            "ffmpeg.zip"@
        }),
        r.url@ == match platform {
            Platform::Windows =>
                "https://github.com/yt-dlp/FFmpeg-Builds/releases/latest/download/ffmpeg-master-latest-win64-gpl.zip"@,
            Platform::MacOs => "https://evermeet.cx/ffmpeg/getrelease/ffmpeg/zip"@,
            Platform::Linux =>
                "https://github.com/yt-dlp/FFmpeg-Builds/releases/latest/download/ffmpeg-master-latest-linux64-gpl.tar.xz"@,
        },
{
    match platform {
        Platform::Windows => FfmpegSource {
            url: "https://github.com/yt-dlp/FFmpeg-Builds/releases/latest/download/ffmpeg-master-latest-win64-gpl.zip",
            archive_name: "ffmpeg.zip",
            kind: ArchiveKind::Zip,
        },
        Platform::MacOs => FfmpegSource {
            url: "https://evermeet.cx/ffmpeg/getrelease/ffmpeg/zip",
            archive_name: "ffmpeg.zip",
            kind: ArchiveKind::Zip,
        },
        Platform::Linux => FfmpegSource {
            url: "https://github.com/yt-dlp/FFmpeg-Builds/releases/latest/download/ffmpeg-master-latest-linux64-gpl.tar.xz",
            archive_name: "ffmpeg.tar.xz",
            kind: ArchiveKind::TarXz,
        },
    }
}

/// The programs taken out of an ffmpeg archive are ffmpeg and ffprobe.
pub open spec fn is_wanted_binary_spec(base: Seq<char>, platform: Platform) -> bool {
    base == exe_spec("ffmpeg"@, platform) || base == exe_spec("ffprobe"@, platform)
}

/// Whether an archive member with file name `base` is one of the programs to keep.
pub fn is_wanted_binary(base: &str, platform: Platform) -> (r: bool)
    ensures
        r == is_wanted_binary_spec(base@, platform),
{
    let ffmpeg = exe("ffmpeg", platform);
    let ffprobe = exe("ffprobe", platform);
    crate::text::eq_str(base, ffmpeg.as_str()) || crate::text::eq_str(base, ffprobe.as_str())
}

/// The part of a zip member's name after its last `'/'` (all of it when it has none).
pub open spec fn last_segment_spec(name: Seq<char>) -> Seq<char> {
    if exists|i: int| 0 <= i < name.len() && name[i] == '/' {
        let i = choose|i: int|
            0 <= i < name.len() && name[i] == '/' && forall|j: int| i < j < name.len() ==> name[j] != '/';
        name.skip(i + 1)
    } else {
        name
    }
}

/// The part of `name` after its last `'/'` (all of it when it has none).
pub fn last_segment(name: &str) -> (r: String)
    ensures
        r@ == last_segment_spec(name@),
{
    let n = name.unicode_len();
    let mut i: usize = n;
    while i > 0 && name.get_char(i - 1) != '/'
        invariant
            n == name@.len(),
            i <= n,
            forall|j: int| i <= j < n ==> name@[j] != '/',
        decreases i,
    {
        i = i - 1;
    }
    proof {
        if i > 0 {
            let k = (i - 1) as int;
            assert(name@[k] == '/');
            let c = choose|c: int|
                0 <= c < name@.len() && name@[c] == '/' && forall|j: int| c < j < name@.len() ==> name@[j] != '/';
            if c < k {
                assert(name@[k] != '/');
            }
            if c > k {
                assert(name@[c] != '/');
            }
        } else {
            assert(name@.skip(0) =~= name@);
        }
    }
    let base = name.substring_char(i, n).to_owned();
    assert(base@ =~= last_segment_spec(name@));
    base
}

/// The file name a zip member is written to, when it is one of the programs to keep.
pub fn zip_member_target(name: &str, platform: Platform) -> (r: Option<String>)
    ensures
        match r {
            Some(base) => base@ == last_segment_spec(name@) && is_wanted_binary_spec(base@, platform),
            None => !is_wanted_binary_spec(last_segment_spec(name@), platform),
        },
{
    let base = last_segment(name);
    if is_wanted_binary(base.as_str(), platform) {
        Some(base)
    } else {
        None
    }
}

/// The message shown when updating a yt-dlp that the system's package manager owns.
pub open spec fn system_update_message_spec(version_output: Seq<char>) -> Seq<char> {
    "Using system yt-dlp "@ + trim(version_output) + " \u{2014} update it with your package manager"@
}

/// The message shown when updating a yt-dlp that the system's package manager
/// owns, from what `yt-dlp --version` printed.
pub fn system_update_message(version_output: &str) -> (r: String)
    ensures
        r@ == system_update_message_spec(version_output@),
{
    let version = trim_str(version_output);
    let mut r = "Using system yt-dlp ".to_owned();
    r.append(version.as_str());
    r.append(" \u{2014} update it with your package manager");
    r
}

/// The message shown after the application's own copy of yt-dlp was downloaded again.
pub fn updated_message() -> (r: String)
    ensures
        r@ == "yt-dlp updated to the latest release"@,
{
    "yt-dlp updated to the latest release".to_owned()
}

/// Which programs engine setup has to download: yt-dlp when it was not
/// found, ffmpeg when it was not found.
pub fn missing_components(current: &EnginePaths) -> (r: (bool, bool))
    ensures
        r.0 == (current.ytdlp is None),
        r.1 == (current.ffmpeg_dir is None),
{
    (current.ytdlp.is_none(), current.ffmpeg_dir.is_none())
}

impl AppState {
    /// Detects the engine from a fresh probe and remembers what was found.
    pub fn check_engine(&mut self, probe: EngineProbe) -> (r: EnginePaths)
        requires
            old(self).wf(),
        ensures
            final(self).wf(),
            r == detected(probe),
            final(self).engine == r,
            final(self).settings == old(self).settings,
            final(self).downloads == old(self).downloads,
            final(self).history == old(self).history,
            final(self).next_id == old(self).next_id,
            final(self).next_job == old(self).next_job,
    {
        let paths = detect(probe);
        self.engine = paths.clone();
        paths
    }

    /// After engine setup has downloaded what was missing: detects the engine
    /// again and remembers it, or fails when a program is still missing.
    pub fn complete_engine_setup(&mut self, probe: EngineProbe) -> (r: Result<EnginePaths, String>)
        requires
            old(self).wf(),
        ensures
            final(self).wf(),
            final(self).settings == old(self).settings,
            final(self).downloads == old(self).downloads,
            final(self).history == old(self).history,
            final(self).next_id == old(self).next_id,
            final(self).next_job == old(self).next_job,
            detected(probe).ready ==> r == Ok::<EnginePaths, String>(detected(probe))
                && final(self).engine == detected(probe),
            !detected(probe).ready ==> final(self).engine == old(self).engine && (r matches Err(m)
                && m@ == "engine setup did not produce working binaries"@),
    {
        let paths = detect(probe);
        if !paths.ready {
            return Err("engine setup did not produce working binaries".to_owned());
        }
        self.engine = paths.clone();
        Ok(paths)
    }

    /// The yt-dlp to update, or the error shown when there is none.
    pub fn update_target(&self) -> (r: Result<String, String>)
        ensures
            match r {
                Ok(p) => self.engine.ytdlp == Some(p),
                Err(e) => self.engine.ytdlp is None && e@ == "yt-dlp not installed"@,
            },
    {
        match &self.engine.ytdlp {
            Some(p) => Ok(p.clone()),
            None => Err("yt-dlp not installed".to_owned()),
        }
    }
}

} // verus!
