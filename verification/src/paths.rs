//! Whether a program lies inside a directory, by the parts of their paths.
use crate::engine::Platform;
use crate::text::eq_str;
use vstd::prelude::*;

verus! {

/// A character that separates the parts of a path on `platform`: `'/'`, and
/// on Windows also `'\\'`.
pub open spec fn is_separator(c: char, platform: Platform) -> bool {
    c == '/' || (platform == Platform::Windows && c == '\\')
}

/// `done` with the part `cur` added, unless `cur` is empty or `"."`.
pub open spec fn close_part(done: Seq<Seq<char>>, cur: Seq<char>) -> Seq<Seq<char>> {
    if cur.len() == 0 || cur == seq!['.'] {
        done
    } else {
        done.push(cur)
    }
}

/// Reading path `p` from the left: the parts completed so far, and the part
/// being read.
pub open spec fn path_scan(p: Seq<char>, platform: Platform) -> (Seq<Seq<char>>, Seq<char>)
    decreases p.len(),
{
    if p.len() == 0 {
        (Seq::empty(), Seq::empty())
    } else {
        let (done, cur) = path_scan(p.drop_last(), platform);
        if is_separator(p.last(), platform) {
            (close_part(done, cur), Seq::empty())
        } else {
            (done, cur.push(p.last()))
        }
    }
}

/// The names a path is made of: the pieces between separators, without empty
/// pieces and `"."`.
pub open spec fn path_parts(p: Seq<char>, platform: Platform) -> Seq<Seq<char>> {
    close_part(path_scan(p, platform).0, path_scan(p, platform).1)
}

/// The path starts at the root (with a separator).
pub open spec fn is_rooted(p: Seq<char>, platform: Platform) -> bool {
    p.len() > 0 && is_separator(p[0], platform)
}

/// `path` lies within `dir`: both start at the root or neither does, and the
/// parts of `dir` are the first parts of `path`.
pub open spec fn within(path: Seq<char>, dir: Seq<char>, platform: Platform) -> bool {
    let a = path_parts(path, platform);
    let b = path_parts(dir, platform);
    &&& is_rooted(path, platform) == is_rooted(dir, platform)
    &&& b.len() <= a.len()
    &&& a.take(b.len() as int) == b
}

/// The views of a list of strings.
pub open spec fn string_views(v: Seq<String>) -> Seq<Seq<char>> {
    v.map_values(|s: String| s@)
}

/// Whether `c` separates the parts of a path on `platform`.
pub fn separates(c: char, platform: Platform) -> (r: bool)
    ensures
        r == is_separator(c, platform),
{
    c == '/' || (platform == Platform::Windows && c == '\\')
}

/// `done` with `p`'s characters from `start` to `end` added as a part, unless
/// they are none or `"."`.
fn close_part_exec(done: &mut Vec<String>, p: &str, start: usize, end: usize)
    requires
        start <= end <= p@.len(),
    ensures
        string_views(final(done)@) == close_part(string_views(old(done)@), p@.subrange(
            start as int,
            end as int,
        )),
{
    proof {
        reveal_strlit(".");
    }
    let part = p.substring_char(start, end);
    if start < end && !eq_str(part, ".") {
        let ghost before = done@;
        done.push(part.to_owned());
        proof {
            assert(seq!['.'] =~= "."@);
            assert(string_views(done@) =~= string_views(before).push(part@));
        }
    } else {
        proof {
            assert(seq!['.'] =~= "."@);
        }
    }
}

/// The names path `p` is made of on `platform`.
pub fn path_parts_exec(p: &str, platform: Platform) -> (r: Vec<String>)
    ensures
        string_views(r@) == path_parts(p@, platform),
{
    let n = p.unicode_len();
    let mut done: Vec<String> = Vec::new();
    let mut start: usize = 0;
    let mut i: usize = 0;
    proof {
        assert(p@.take(0) =~= Seq::<char>::empty());
        assert(string_views(done@) =~= Seq::<Seq<char>>::empty());
    }
    while i < n
        invariant
            n == p@.len(),
            start <= i <= n,
            path_scan(p@.take(i as int), platform) == (string_views(done@), p@.subrange(
                start as int,
                i as int,
            )),
        decreases n - i,
    {
        let c = p.get_char(i);
        proof {
            assert(p@.take(i + 1).drop_last() =~= p@.take(i as int));
            assert(p@.take(i + 1).last() == c);
        }
        if separates(c, platform) {
            close_part_exec(&mut done, p, start, i);
            start = i + 1;
            proof {
                assert(p@.subrange(start as int, start as int) =~= Seq::<char>::empty());
            }
        } else {
            proof {
                assert(p@.subrange(start as int, i + 1) =~= p@.subrange(start as int, i as int).push(c));
            }
        }
        i = i + 1;
    }
    proof {
        assert(p@.take(n as int) =~= p@);
    }
    close_part_exec(&mut done, p, start, n);
    done
}

/// Whether program `path` lies within directory `dir` on `platform`, by the
/// parts of their paths.
pub fn is_within(path: &str, dir: &str, platform: Platform) -> (r: bool)
    ensures
        r == within(path@, dir@, platform),
{
    let rooted_path = path.unicode_len() > 0 && separates(path.get_char(0), platform);
    let rooted_dir = dir.unicode_len() > 0 && separates(dir.get_char(0), platform);
    if rooted_path != rooted_dir {
        return false;
    }
    let a = path_parts_exec(path, platform);
    let b = path_parts_exec(dir, platform);
    if b.len() > a.len() {
        return false;
    }
    let ghost sa = string_views(a@);
    let ghost sb = string_views(b@);
    let mut k: usize = 0;
    while k < b.len()
        invariant
            b@.len() <= a@.len(),
            k <= b@.len(),
            sa == string_views(a@),
            sb == string_views(b@),
            sa == path_parts(path@, platform),
            sb == path_parts(dir@, platform),
            forall|j: int| 0 <= j < k ==> sa[j] == sb[j],
        decreases b@.len() - k,
    {
        if !eq_str(a[k].as_str(), b[k].as_str()) {
            proof {
                assert(sa.take(sb.len() as int)[k as int] != sb[k as int]);
            }
            return false;
        }
        k = k + 1;
    }
    proof {
        assert(sa.take(sb.len() as int) =~= sb);
    }
    true
}

} // verus!
