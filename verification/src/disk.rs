//! The disk that holds a directory: which mount owns it, read from the
//! system's mount table, and how much space it has.
use vstd::prelude::*;

use crate::paths::{path_starts_with, starts_with_path};
use crate::text::{
    append_str, char_is_whitespace, chars_of, is_prefix, is_whitespace, split, split_on,
    starts_with, string_from_chars, str_eq,
};

verus! {

/// A disk: where it is mounted and its space in bytes.
#[derive(Clone, Debug)]
pub struct DiskInfo {
    pub mount_point: String,
    pub available_space: u64,
    pub total_space: u64,
}

/// `s` with every occurrence of the non-empty `pat` replaced by `rep`,
/// scanning from the left, as `str::replace` does.
pub open spec fn replace_all(s: Seq<char>, pat: Seq<char>, rep: Seq<char>) -> Seq<char>
    decreases s.len(),
{
    if s.len() == 0 {
        Seq::empty()
    } else if pat.len() > 0 && is_prefix(pat, s) {
        rep + replace_all(s.skip(pat.len() as int), pat, rep)
    } else {
        seq![s[0]] + replace_all(s.skip(1), pat, rep)
    }
}

fn replace_all_of(s: &Vec<char>, pat: &str, rep: &str) -> (r: Vec<char>)
    ensures
        r@ == replace_all(s@, pat@, rep@),
{
    let p = chars_of(pat);
    let mut out: Vec<char> = Vec::new();
    let mut i: usize = 0;
    assert(s@.skip(0) =~= s@);
    while i < s.len()
        invariant
            p@ == pat@,
            i <= s@.len(),
            out@ + replace_all(s@.skip(i as int), pat@, rep@) == replace_all(s@, pat@, rep@),
        decreases s@.len() - i,
    {
        let rest = crate::text::slice(s, i, s.len());
        assert(rest@ =~= s@.skip(i as int));
        if p.len() > 0 && starts_with(&rest, &p) {
            assert(s@.skip(i as int).skip(p@.len() as int) =~= s@.skip(i + p@.len()));
            let ghost before = out@;
            append_str(&mut out, rep);
            assert(out@ + replace_all(s@.skip(i + p@.len()), pat@, rep@) =~= before + replace_all(
                s@.skip(i as int),
                pat@,
                rep@,
            ));
            i = i + p.len();
        } else {
            assert(s@.skip(i as int).skip(1) =~= s@.skip(i + 1));
            let ghost before = out@;
            out.push(s[i]);
            assert(out@ + replace_all(s@.skip(i + 1), pat@, rep@) =~= before + replace_all(
                s@.skip(i as int),
                pat@,
                rep@,
            ));
            i = i + 1;
        }
    }
    assert(s@.skip(s@.len() as int) =~= Seq::<char>::empty());
    assert(out@ =~= out@ + Seq::<char>::empty());
    out
}

/// A field of the mount table with its octal escapes undone: `\134`
/// (backslash), `\040` (space), `\011` (tab) and `\012` (newline), in that
/// order.
pub open spec fn spec_unescape_mount_field(field: Seq<char>) -> Seq<char> {
    replace_all(
        replace_all(
            replace_all(replace_all(field, "\\134"@, "\\"@), "\\040"@, " "@),
            "\\011"@,
            "\t"@,
        ),
        "\\012"@,
        "\n"@,
    )
}

/// A field of the mount table with its octal escapes undone.
pub fn unescape_mount_field(field: &str) -> (r: String)
    ensures
        r@ == spec_unescape_mount_field(field@),
{
    let a = replace_all_of(&chars_of(field), "\\134", "\\");
    let b = replace_all_of(&a, "\\040", " ");
    let c = replace_all_of(&b, "\\011", "\t");
    let d = replace_all_of(&c, "\\012", "\n");
    string_from_chars(&d)
}

/// The file system types that never hold the user's files.
pub open spec fn is_ignored_fs_type(t: Seq<char>) -> bool {
    t == "rootfs"@ || t == "sysfs"@ || t == "proc"@ || t == "devtmpfs"@ || t == "cgroup"@ || t
        == "cgroup2"@ || t == "pstore"@ || t == "squashfs"@ || t == "rpc_pipefs"@ || t
        == "iso9660"@ || t == "tmpfs"@ || t == "cifs"@ || t == "nfs"@ || t == "nfs4"@
}

/// Whether a mount is left out: a system or network file system, one under
/// `/sys`, `/proc` or `/run` (but for removable media under `/run/media`),
/// or an RPC pipe.
pub open spec fn spec_is_ignored_mount(fs_spec: Seq<char>, fs_file: Seq<char>, fs_vfstype: Seq<char>) -> bool {
    is_ignored_fs_type(fs_vfstype) || is_prefix("/sys"@, fs_file) || is_prefix("/proc"@, fs_file) || (
    is_prefix("/run"@, fs_file) && !is_prefix("/run/media"@, fs_file)) || is_prefix(
        "sunrpc"@,
        fs_spec,
    )
}

fn has_prefix(s: &Vec<char>, p: &str) -> (b: bool)
    ensures
        b == is_prefix(p@, s@),
{
    starts_with(s, &chars_of(p))
}

/// Whether a mount is left out (see `spec_is_ignored_mount`).
pub fn is_ignored_mount(fs_spec: &str, fs_file: &str, fs_vfstype: &str) -> (b: bool)
    ensures
        b == spec_is_ignored_mount(fs_spec@, fs_file@, fs_vfstype@),
{
    let t = fs_vfstype;
    let filtered = str_eq(t, "rootfs") || str_eq(t, "sysfs") || str_eq(t, "proc") || str_eq(
        t,
        "devtmpfs",
    ) || str_eq(t, "cgroup") || str_eq(t, "cgroup2") || str_eq(t, "pstore") || str_eq(
        t,
        "squashfs",
    ) || str_eq(t, "rpc_pipefs") || str_eq(t, "iso9660") || str_eq(t, "tmpfs") || str_eq(
        t,
        "cifs",
    ) || str_eq(t, "nfs") || str_eq(t, "nfs4");
    let file = chars_of(fs_file);
    let spec_chars = chars_of(fs_spec);
    filtered || has_prefix(&file, "/sys") || has_prefix(&file, "/proc") || (has_prefix(&file, "/run")
        && !has_prefix(&file, "/run/media")) || has_prefix(&spec_chars, "sunrpc")
}

/// The lines of `s` as `str::lines` gives them: cut at `\n`, one trailing
/// `\r` taken off each, no final empty line.
pub open spec fn text_lines(s: Seq<char>) -> Seq<Seq<char>> {
    let parts = split_on(s, seq!['\n']);
    let kept = if parts.len() > 0 && parts.last().len() == 0 {
        parts.drop_last()
    } else {
        parts
    };
    kept.map_values(
        |l: Seq<char>|
            if l.len() > 0 && l.last() == '\r' {
                l.drop_last()
            } else {
                l
            },
    )
}

/// The words of `s` as `str::split_whitespace` gives them: the maximal runs
/// of characters that are not white space.
pub open spec fn words(s: Seq<char>) -> Seq<Seq<char>>
    decreases s.len(),
{
    if s.len() == 0 {
        Seq::empty()
    } else {
        let prev = words(s.drop_last());
        let c = s.last();
        if char_is_whitespace(c) {
            prev
        } else if s.len() >= 2 && !char_is_whitespace(s[s.len() - 2]) && prev.len() > 0 {
            prev.update(prev.len() - 1, prev.last().push(c))
        } else {
            prev.push(seq![c])
        }
    }
}

fn words_of(s: &Vec<char>) -> (w: Vec<Vec<char>>)
    ensures
        w@.len() == words(s@).len(),
        forall|k: int| 0 <= k < w@.len() ==> w@[k]@ == words(s@)[k],
{
    let mut w: Vec<Vec<char>> = Vec::new();
    let mut i: usize = 0;
    let mut in_word = false;
    assert(s@.take(0) =~= Seq::<char>::empty());
    while i < s.len()
        invariant
            i <= s@.len(),
            w@.len() == words(s@.take(i as int)).len(),
            forall|k: int| 0 <= k < w@.len() ==> w@[k]@ == words(s@.take(i as int))[k],
            in_word == (i > 0 && !char_is_whitespace(s@[i - 1])),
            in_word ==> w@.len() > 0,
        decreases s@.len() - i,
    {
        let c = s[i];
        proof {
            assert(s@.take(i + 1).drop_last() =~= s@.take(i as int));
            assert(s@.take(i + 1).last() == c);
            if i >= 1 {
                assert(s@.take(i + 1)[i - 1] == s@[i - 1]);
            }
        }
        let ghost prev = words(s@.take(i as int));
        if is_whitespace(c) {
            in_word = false;
        } else if in_word {
            let last = w.len() - 1;
            let mut cur = w.pop().unwrap();
            cur.push(c);
            w.push(cur);
            proof {
                assert forall|k: int| 0 <= k < w@.len() implies w@[k]@ == words(s@.take(i + 1))[k] by {
                    if k < last {
                        assert(w@[k]@ == prev[k]);
                    }
                }
            }
        } else {
            w.push(vec![c]);
            in_word = true;
            proof {
                assert(w@[w@.len() - 1]@ =~= seq![c]);
                assert forall|k: int| 0 <= k < w@.len() implies w@[k]@ == words(s@.take(i + 1))[k] by {
                    if k < w@.len() - 1 {
                        assert(w@[k]@ == prev[k]);
                    }
                }
            }
        }
        i = i + 1;
    }
    assert(s@.take(s@.len() as int) =~= s@);
    w
}

/// The mount point that a line of the mount table names, unless the line
/// has fewer than three fields or the mount is left out.
pub open spec fn mount_of_line(line: Seq<char>) -> Option<Seq<char>> {
    let f = words(line);
    if f.len() < 3 {
        None
    } else {
        let file = spec_unescape_mount_field(f[1]);
        if spec_is_ignored_mount(f[0], file, f[2]) {
            None
        } else {
            Some(file)
        }
    }
}

/// The mount points that a mount table lists, in order.
pub open spec fn mounts_of_lines(lines: Seq<Seq<char>>) -> Seq<Seq<char>>
    decreases lines.len(),
{
    if lines.len() == 0 {
        Seq::empty()
    } else {
        let prev = mounts_of_lines(lines.drop_last());
        match mount_of_line(lines.last()) {
            Some(m) => prev.push(m),
            None => prev,
        }
    }
}

fn mount_of_line_of(line: &Vec<char>) -> (r: Option<String>)
    ensures
        match r {
            Some(m) => mount_of_line(line@) == Some(m@),
            None => mount_of_line(line@) is None,
        },
{
    let f = words_of(line);
    if f.len() < 3 {
        return None;
    }
    let spec_s = string_from_chars(&f[0]);
    let file = unescape_mount_field(string_from_chars(&f[1]).as_str());
    let vfstype = string_from_chars(&f[2]);
    if is_ignored_mount(spec_s.as_str(), file.as_str(), vfstype.as_str()) {
        None
    } else {
        Some(file)
    }
}

pub(crate) fn lines_of(s: &Vec<char>) -> (ls: Vec<Vec<char>>)
    ensures
        ls@.len() == text_lines(s@).len(),
        forall|k: int| 0 <= k < ls@.len() ==> ls@[k]@ == text_lines(s@)[k],
{
    let nl = vec!['\n'];
    let parts = split(s, &nl);
    let ghost sep = seq!['\n'];
    assert(nl@ =~= sep);
    let ghost ps = split_on(s@, sep);
    let n = if parts.len() > 0 && parts[parts.len() - 1].len() == 0 {
        parts.len() - 1
    } else {
        parts.len()
    };
    let ghost kept = if ps.len() > 0 && ps.last().len() == 0 {
        ps.drop_last()
    } else {
        ps
    };
    assert(kept.len() == n);
    let mut ls: Vec<Vec<char>> = Vec::new();
    let mut k: usize = 0;
    while k < n
        invariant
            n == kept.len(),
            n <= parts@.len(),
            parts@.len() == ps.len(),
            forall|j: int| 0 <= j < parts@.len() ==> parts@[j]@ == ps[j],
            forall|j: int| 0 <= j < kept.len() ==> kept[j] == ps[j],
            ps == split_on(s@, seq!['\n']),
            kept == (if ps.len() > 0 && ps.last().len() == 0 {
                ps.drop_last()
            } else {
                ps
            }),
            k <= n,
            ls@.len() == k,
            forall|j: int| 0 <= j < k ==> ls@[j]@ == text_lines(s@)[j],
        decreases n - k,
    {
        let p = &parts[k];
        let l = if p.len() > 0 && p[p.len() - 1] == '\r' {
            crate::text::slice(p, 0, p.len() - 1)
        } else {
            crate::text::slice(p, 0, p.len())
        };
        proof {
            assert(p@ == kept[k as int]);
            if p@.len() > 0 && p@.last() == '\r' {
                assert(l@ =~= p@.drop_last());
            } else {
                assert(l@ =~= p@);
            }
        }
        ls.push(l);
        k = k + 1;
    }
    ls
}

/// The mount points listed by a mount table (the text of `/proc/mounts`),
/// in order, leaving out the ignored mounts.
pub fn parse_mount_points(content: &str) -> (r: Vec<String>)
    ensures
        r@.map_values(|m: String| m@) == mounts_of_lines(text_lines(content@)),
{
    let lines = lines_of(&chars_of(content));
    let ghost ls = text_lines(content@);
    let mut r: Vec<String> = Vec::new();
    let mut k: usize = 0;
    assert(ls.take(0) =~= Seq::<Seq<char>>::empty());
    while k < lines.len()
        invariant
            lines@.len() == ls.len(),
            forall|j: int| 0 <= j < lines@.len() ==> lines@[j]@ == ls[j],
            k <= lines@.len(),
            r@.map_values(|m: String| m@) == mounts_of_lines(ls.take(k as int)),
        decreases lines@.len() - k,
    {
        proof {
            assert(ls.take(k + 1).drop_last() =~= ls.take(k as int));
            assert(ls.take(k + 1).last() == lines@[k as int]@);
        }
        let ghost before = r@;
        match mount_of_line_of(&lines[k]) {
            Some(m) => {
                r.push(m);
                assert(r@.map_values(|m: String| m@) =~= before.map_values(|m: String| m@).push(
                    r@.last()@,
                ));
            },
            None => {},
        }
        k = k + 1;
    }
    assert(ls.take(ls.len() as int) =~= ls);
    r
}

/// Among the first `n` mount points, the one that owns `dir`: the longest
/// one that `dir` starts with (the later one on a tie).
pub open spec fn owning_mount(dir: Seq<char>, mounts: Seq<Seq<char>>, n: int) -> Option<int>
    decreases n,
{
    if n <= 0 {
        None
    } else {
        let prev = owning_mount(dir, mounts, n - 1);
        if path_starts_with(dir, mounts[n - 1]) && (match prev {
            None => true,
            Some(p) => mounts[n - 1].len() >= mounts[p].len(),
        }) {
            Some(n - 1)
        } else {
            prev
        }
    }
}

/// The mount point that owns `dir`: the longest listed mount point that
/// `dir` starts with, component by component (the later one on a tie).
pub fn resolve_disk_for(dir: &str, mounts: &Vec<String>) -> (r: Option<String>)
    ensures
        match owning_mount(dir@, mounts@.map_values(|m: String| m@), mounts@.len() as int) {
            Some(i) => r matches Some(m) && m@ == mounts@[i]@,
            None => r is None,
        },
{
    let ghost ms = mounts@.map_values(|m: String| m@);
    let d = chars_of(dir);
    let mut best: Option<usize> = None;
    let mut best_len: usize = 0;
    let mut n: usize = 0;
    while n < mounts.len()
        invariant
            ms == mounts@.map_values(|m: String| m@),
            d@ == dir@,
            n <= mounts@.len(),
            match best {
                Some(b) => owning_mount(dir@, ms, n as int) == Some(b as int) && b < n
                    && best_len == ms[b as int].len(),
                None => owning_mount(dir@, ms, n as int) is None,
            },
        decreases mounts@.len() - n,
    {
        let m = chars_of(mounts[n].as_str());
        assert(m@ == ms[n as int]);
        if starts_with_path(&d, &m) {
            let take = match best {
                None => true,
                Some(_) => m.len() >= best_len,
            };
            if take {
                best = Some(n);
                best_len = m.len();
            }
        }
        n = n + 1;
    }
    match best {
        Some(b) => Some(mounts[b].clone()),
        None => None,
    }
}

/// The space of a disk from what `statvfs` reports of it (block size, total
/// blocks, blocks available), each product saturating: `None` when the
/// lookup failed or reports no blocks.
pub fn space_from_statvfs(stat: Option<(u64, u64, u64)>) -> (r: Option<(u64, u64)>)
    ensures
        match stat {
            None => r is None,
            Some((bsize, blocks, bavail)) => {
                let total = if bsize * blocks > u64::MAX {
                    u64::MAX as int
                } else {
                    bsize * blocks
                };
                let avail = if bsize * bavail > u64::MAX {
                    u64::MAX as int
                } else {
                    bsize * bavail
                };
                if total == 0 {
                    r is None
                } else {
                    r == Some((total as u64, avail as u64))
                }
            },
        },
{
    match stat {
        None => None,
        Some((bsize, blocks, bavail)) => {
            let total = match bsize.checked_mul(blocks) {
                Some(v) => v,
                None => u64::MAX,
            };
            let available = match bsize.checked_mul(bavail) {
                Some(v) => v,
                None => u64::MAX,
            };
            if total == 0 {
                None
            } else {
                Some((total, available))
            }
        },
    }
}

impl DiskInfo {
    /// The disk mounted at `mount_point`, given its space (total, available).
    pub fn new(mount_point: String, space: Option<(u64, u64)>) -> (r: Option<DiskInfo>)
        ensures
            match space {
                None => r is None,
                Some((total, avail)) => r matches Some(d) && d.mount_point == mount_point
                    && d.total_space == total && d.available_space == avail,
            },
    {
        match space {
            None => None,
            Some((total_space, available_space)) => Some(
                DiskInfo { mount_point, available_space, total_space },
            ),
        }
    }
}

} // verus!
