//! Taking ffmpeg and ffprobe out of the archive that ffmpeg is fetched in,
//! and the trusted calls into `zip`, `tar` and `xz2` that read the archive.
use crate::engine::{
    is_wanted_binary, is_wanted_binary_spec, last_segment, last_segment_spec, zip_member_target,
    ArchiveKind, Platform,
};
use std::io::Read;
use vstd::prelude::*;

verus! {

/// Archive members as plain values: each member's name and content.
pub open spec fn member_views(v: Seq<(String, Vec<u8>)>) -> Seq<(Seq<char>, Seq<u8>)> {
    v.map_values(|m: (String, Vec<u8>)| (m.0@, m.1@))
}

/// A list of archive members, or the error met while reading them, as plain values.
pub open spec fn members_result(r: Result<Vec<(String, Vec<u8>)>, String>) -> Result<
    Seq<(Seq<char>, Seq<u8>)>,
    Seq<char>,
> {
    match r {
        Ok(v) => Ok(member_views(v@)),
        Err(e) => Err(e@),
    }
}

/// What the `zip` crate reads out of the bytes of a zip archive: every member
/// in the archive's order, with its name and its decompressed content, or the
/// text of the first error met.
pub uninterp spec fn zip_members(bytes: Seq<u8>) -> Result<Seq<(Seq<char>, Seq<u8>)>, Seq<char>>;

/// What the `xz2` and `tar` crates read out of the bytes of a tar.xz archive:
/// every entry in the archive's order, with its path and its content, or the
/// text of the first error met.
pub uninterp spec fn tar_xz_members(bytes: Seq<u8>) -> Result<Seq<(Seq<char>, Seq<u8>)>, Seq<char>>;

/// The members of an archive of kind `kind`.
pub open spec fn archive_members(bytes: Seq<u8>, kind: ArchiveKind) -> Result<
    Seq<(Seq<char>, Seq<u8>)>,
    Seq<char>,
> {
    match kind {
        ArchiveKind::Zip => zip_members(bytes),
        ArchiveKind::TarXz => tar_xz_members(bytes),
    }
}

/// Opens `bytes` with `zip::ZipArchive::new` over a `std::io::Cursor`, and reads
/// each member, by index, with `ZipArchive::by_index`, `ZipFile::name` and
/// `Read::read_to_end`; errors are turned into their text. The contract claims
/// only that the result is a function of the bytes.
#[verifier::external_body]
fn read_zip_members(bytes: &[u8]) -> (r: Result<Vec<(String, Vec<u8>)>, String>)
    ensures
        members_result(r) == zip_members(bytes@),
{
    let mut zip = zip::ZipArchive::new(std::io::Cursor::new(bytes)).map_err(|e| e.to_string())?;
    let mut out = Vec::new();
    for i in 0..zip.len() {
        let mut member = zip.by_index(i).map_err(|e| e.to_string())?;
        let mut data = Vec::new();
        member.read_to_end(&mut data).map_err(|e| e.to_string())?;
        out.push((member.name().to_string(), data));
    }
    Ok(out)
}

/// Decompresses `bytes` with `xz2::read::XzDecoder` and reads the entries of the
/// tar archive inside with `tar::Archive::entries`, each entry's path with
/// `Entry::path_bytes` (read as UTF-8, invalid sequences replaced by U+FFFD,
/// with `String::from_utf8_lossy`) and its content with `Read::read_to_end`;
/// errors are turned into their text. The contract claims only that the result
/// is a function of the bytes.
#[verifier::external_body]
fn read_tar_xz_members(bytes: &[u8]) -> (r: Result<Vec<(String, Vec<u8>)>, String>)
    ensures
        members_result(r) == tar_xz_members(bytes@),
{
    let mut tar = tar::Archive::new(xz2::read::XzDecoder::new(bytes));
    let mut out = Vec::new();
    for entry in tar.entries().map_err(|e| e.to_string())? {
        let mut entry = entry.map_err(|e| e.to_string())?;
        let name = String::from_utf8_lossy(&entry.path_bytes()).into_owned();
        let mut data = Vec::new();
        entry.read_to_end(&mut data).map_err(|e| e.to_string())?;
        out.push((name, data));
    }
    Ok(out)
}

/// The file name of a `'/'`-separated path, as `std::path::Path::file_name`
/// reads it on Unix: trailing `'/'` and `"."` components are passed over; a
/// path that ends in `".."`, or that has no name left, has none.
pub open spec fn file_name(p: Seq<char>) -> Option<Seq<char>>
    decreases p.len(),
{
    if p.len() == 0 {
        None
    } else if p.last() == '/' {
        file_name(p.drop_last())
    } else if p =~= "."@ {
        None
    } else if p.len() >= 2 && p[p.len() - 1] == '.' && p[p.len() - 2] == '/' {
        file_name(p.take(p.len() - 2))
    } else if last_segment_spec(p) =~= ".."@ {
        None
    } else {
        Some(last_segment_spec(p))
    }
}

/// The file name of the `'/'`-separated path `p`.
pub fn path_file_name(p: &str) -> (r: Option<String>)
    ensures
        match r {
            Some(b) => file_name(p@) == Some(b@),
            None => file_name(p@) is None,
        },
{
    proof {
        reveal_strlit(".");
        reveal_strlit("..");
    }
    let n = p.unicode_len();
    let mut end: usize = n;
    assert(p@.take(n as int) =~= p@);
    loop
        invariant
            n == p@.len(),
            end <= n,
            file_name(p@) == file_name(p@.take(end as int)),
        ensures
            end <= n,
            file_name(p@) == file_name(p@.take(end as int)),
            end > 0 ==> p@[end - 1] != '/',
            end >= 2 ==> !(p@[end - 1] == '.' && p@[end - 2] == '/'),
        decreases end,
    {
        let ghost head = p@.take(end as int);
        if end > 0 && p.get_char(end - 1) == '/' {
            assert(head.last() == '/');
            assert(head.drop_last() =~= p@.take(end - 1));
            end = end - 1;
        } else if end >= 2 && p.get_char(end - 1) == '.' && p.get_char(end - 2) == '/' {
            assert(head.last() == '.' && head[head.len() - 2] == '/');
            proof { reveal_strlit("."); }
            assert(head.len() != "."@.len());
            assert(head.take(head.len() - 2) =~= p@.take(end - 2));
            end = end - 2;
        } else {
            break ;
        }
    }
    let ghost head = p@.take(end as int);
    assert(end > 0 ==> head.last() != '/');
    assert(end >= 2 ==> !(head[head.len() - 1] == '.' && head[head.len() - 2] == '/'));
    if end == 0 {
        return None;
    }
    if end == 1 && p.get_char(0) == '.' {
        assert(head =~= "."@);
        return None;
    }
    proof {
        if head =~= "."@ {
            assert(head[0] == '.');
        }
    }
    let prefix = p.substring_char(0, end);
    assert(prefix@ =~= head);
    let seg = last_segment(prefix);
    if crate::text::eq_str(seg.as_str(), "..") {
        None
    } else {
        Some(seg)
    }
}

/// The file name that archive member `name` is written under, when it is one
/// of the programs to keep: for a zip, the part of the name after its last
/// `'/'`; for a tar archive, the path's file name.
pub open spec fn member_target(name: Seq<char>, kind: ArchiveKind, platform: Platform) -> Option<
    Seq<char>,
> {
    let base = match kind {
        ArchiveKind::Zip => Some(last_segment_spec(name)),
        ArchiveKind::TarXz => file_name(name),
    };
    match base {
        Some(b) => if is_wanted_binary_spec(b, platform) {
            Some(b)
        } else {
            None
        },
        None => None,
    }
}

/// The members to keep, in the archive's order, each under the file name it is written to.
pub open spec fn wanted_members(
    ms: Seq<(Seq<char>, Seq<u8>)>,
    kind: ArchiveKind,
    platform: Platform,
) -> Seq<(Seq<char>, Seq<u8>)>
    decreases ms.len(),
{
    if ms.len() == 0 {
        Seq::empty()
    } else {
        let rest = wanted_members(ms.drop_last(), kind, platform);
        match member_target(ms.last().0, kind, platform) {
            Some(b) => rest.push((b, ms.last().1)),
            None => rest,
        }
    }
}

/// The file name archive member `name` is written under, when it is kept.
pub fn member_target_exec(name: &str, kind: ArchiveKind, platform: Platform) -> (r: Option<String>)
    ensures
        match r {
            Some(b) => member_target(name@, kind, platform) == Some(b@),
            None => member_target(name@, kind, platform) is None,
        },
{
    match kind {
        ArchiveKind::Zip => zip_member_target(name, platform),
        ArchiveKind::TarXz => match path_file_name(name) {
            Some(b) => if is_wanted_binary(b.as_str(), platform) {
                Some(b)
            } else {
                None
            },
            None => None,
        },
    }
}

/// The ffmpeg programs in the bytes of an ffmpeg archive of kind `kind`: each
/// kept member, in the archive's order, as its file name and content; or the
/// error the archive reader met.
pub fn ffmpeg_files(archive: &[u8], kind: ArchiveKind, platform: Platform) -> (r: Result<
    Vec<(String, Vec<u8>)>,
    String,
>)
    ensures
        match archive_members(archive@, kind) {
            Err(e) => r matches Err(m) && m@ == e,
            Ok(ms) => r matches Ok(v) && member_views(v@) == wanted_members(ms, kind, platform),
        },
{
    let read = match kind {
        ArchiveKind::Zip => read_zip_members(archive),
        ArchiveKind::TarXz => read_tar_xz_members(archive),
    };
    let mut members = match read {
        Ok(v) => v,
        Err(e) => {
            return Err(e);
        },
    };
    let ghost ms = member_views(members@);
    let ghost n = ms.len();
    let mut out: Vec<(String, Vec<u8>)> = Vec::new();
    let ghost mut i: int = 0;
    while members.len() > 0
        invariant
            0 <= i <= n,
            n == ms.len(),
            member_views(members@) == ms.skip(i),
            member_views(out@) == wanted_members(ms.take(i), kind, platform),
        decreases members.len(),
    {
        proof {
            assert(ms.skip(i).len() == members@.len());
        }
        let ghost before = members@;
        proof {
            assert(member_views(before)[0] == ms.skip(i)[0]);
        }
        let (name, data) = members.remove(0);
        proof {
            assert(members@ =~= before.remove(0));
            assert forall|k: int| 0 <= k < members@.len() implies #[trigger] member_views(members@)[k]
                == ms.skip(i + 1)[k] by {
                assert(members@[k] == before[k + 1]);
                assert(member_views(before)[k + 1] == ms.skip(i)[k + 1]);
            }
            assert(member_views(members@) =~= ms.skip(i + 1));
            assert(ms.take(i + 1).drop_last() =~= ms.take(i));
            assert(ms[i] == (name@, data@));
        }
        match member_target_exec(name.as_str(), kind, platform) {
            Some(b) => {
                out.push((b, data));
                proof {
                    assert(member_views(out@) =~= wanted_members(ms.take(i), kind, platform).push(
                        (member_target(name@, kind, platform).unwrap(), data@),
                    ));
                }
            },
            None => {},
        }
        proof {
            i = i + 1;
        }
    }
    proof {
        assert(ms.skip(i).len() == 0);
        assert(ms.take(i) =~= ms);
    }
    Ok(out)
}

} // verus!
