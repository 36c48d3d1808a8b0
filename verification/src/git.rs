//! Git status of the listed files: the arguments of the `git status` call,
//! reading its porcelain output into a snapshot, and the status shown for a
//! file or a folder.
use vstd::prelude::*;

use crate::paths::{join, parent, path_join, path_parent, path_starts_with, starts_with_path};
use rustc_hash::FxHashMap;
use crate::settings::{GitCliSettings, GitStatusSettings};
use crate::text::{
    chars_of, find, find_from, is_prefix, slice, split, split_on, starts_with, string_from_chars,
    trim, trim_chars, trim_end_char, trim_end_matches_char, split_bytes, split_bytes_at,
    lemma_split_bytes_nonempty, utf8_lossy, lossy_string, all_digits, digits_value,
};

verus! {

/// The git status of one path.
#[derive(Clone, Copy, Debug, PartialEq, Eq, Structural)]
pub enum GitFileStatus {
    Conflicted,
    Deleted,
    Modified,
    Renamed,
    Added,
    Untracked,
    Ignored,
}

/// How urgent a status is: lower is worse.
pub open spec fn status_priority(s: GitFileStatus) -> int {
    match s {
        GitFileStatus::Conflicted => 0,
        GitFileStatus::Deleted => 1,
        GitFileStatus::Modified => 2,
        GitFileStatus::Renamed => 3,
        GitFileStatus::Added => 3,
        GitFileStatus::Untracked => 4,
        GitFileStatus::Ignored => 5,
    }
}

/// The more urgent of two statuses, the first one on a tie.
pub open spec fn spec_worse(a: GitFileStatus, b: GitFileStatus) -> GitFileStatus {
    if status_priority(a) <= status_priority(b) {
        a
    } else {
        b
    }
}

impl GitFileStatus {
    /// How severe a status is: lower is more severe.
    pub fn priority(self) -> (p: u8)
        ensures
            p as int == status_priority(self),
    {
        match self {
            GitFileStatus::Conflicted => 0,
            GitFileStatus::Deleted => 1,
            GitFileStatus::Modified => 2,
            GitFileStatus::Renamed => 3,
            GitFileStatus::Added => 3,
            GitFileStatus::Untracked => 4,
            GitFileStatus::Ignored => 5,
        }
    }

    /// The more severe of two statuses, this one on a tie.
    pub fn worse(self, other: GitFileStatus) -> (r: GitFileStatus)
        ensures
            r == spec_worse(self, other),
    {
        if self.priority() <= other.priority() {
            self
        } else {
            other
        }
    }
}

/// The one-letter badge shown for a status.
pub fn git_letter_for(status: GitFileStatus) -> (r: &'static str)
    ensures
        r@ == (match status {
            GitFileStatus::Modified => "M"@,
            GitFileStatus::Added => "A"@,
            GitFileStatus::Deleted => "D"@,
            GitFileStatus::Renamed => "R"@,
            GitFileStatus::Untracked => "U"@,
            GitFileStatus::Ignored => "I"@,
            GitFileStatus::Conflicted => "!"@,
        }),
{
    match status {
        GitFileStatus::Modified => "M",
        GitFileStatus::Added => "A",
        GitFileStatus::Deleted => "D",
        GitFileStatus::Renamed => "R",
        GitFileStatus::Untracked => "U",
        GitFileStatus::Ignored => "I",
        GitFileStatus::Conflicted => "!",
    }
}

/// The number of bytes `c` takes in UTF-8.
pub open spec fn char_utf8_len(c: char) -> int {
    if (c as u32) < 0x80 {
        1
    } else if (c as u32) < 0x800 {
        2
    } else if (c as u32) < 0x10000 {
        3
    } else {
        4
    }
}

/// The number of bytes `s` takes in UTF-8.
pub open spec fn utf8_len(s: Seq<char>) -> int
    decreases s.len(),
{
    if s.len() == 0 {
        0
    } else {
        char_utf8_len(s[0]) + utf8_len(s.drop_first())
    }
}

pub open spec fn is_ascii_char(c: char) -> bool {
    (c as u32) < 0x80
}

/// Whether a status record has the shape `XY path` with `X`, `Y` and the
/// separating space single-byte characters.
pub open spec fn record_is_ascii_headed(t: Seq<char>) -> bool {
    t.len() >= 3 && is_ascii_char(t[0]) && is_ascii_char(t[1]) && is_ascii_char(t[2])
}

/// Whether a status record can be cut after its second and third byte:
/// either it is shorter than four bytes (and is skipped), or its first three
/// bytes are single characters, or it starts with a two-byte character and a
/// single-byte one.
pub open spec fn record_is_splittable(t: Seq<char>) -> bool {
    utf8_len(t) < 4 || record_is_ascii_headed(t) || (t.len() >= 2 && char_utf8_len(t[0]) == 2
        && is_ascii_char(t[1]))
}

/// The two status letters of a record, when they are single-byte characters.
pub open spec fn record_xy(t: Seq<char>) -> Option<(char, char)> {
    if record_is_ascii_headed(t) {
        Some((t[0], t[1]))
    } else {
        None
    }
}

/// The path of a record: what follows its first three bytes.
pub open spec fn record_path(t: Seq<char>) -> Seq<char> {
    if record_is_ascii_headed(t) {
        t.skip(3)
    } else {
        t.skip(2)
    }
}

pub open spec fn spec_is_rename_or_copy(xy: Option<(char, char)>) -> bool {
    match xy {
        Some((x, y)) => x == 'R' || y == 'R' || x == 'C' || y == 'C',
        None => false,
    }
}

/// What the two status letters mean.
pub open spec fn spec_classify(xy: Option<(char, char)>) -> GitFileStatus {
    match xy {
        Some((x, y)) => {
            if x == '?' && y == '?' {
                GitFileStatus::Untracked
            } else if x == '!' && y == '!' {
                GitFileStatus::Ignored
            } else if (x == 'U' && y == 'U') || (x == 'A' && y == 'A') || (x == 'D' && y == 'D')
                || (x == 'A' && y == 'U') || (x == 'U' && y == 'A') || (x == 'U' && y == 'D') || (
            x == 'D' && y == 'U') {
                GitFileStatus::Conflicted
            } else if x == 'D' || y == 'D' {
                GitFileStatus::Deleted
            } else if x == 'R' || y == 'R' {
                GitFileStatus::Renamed
            } else if x == 'A' || y == 'A' || x == 'C' || y == 'C' {
                GitFileStatus::Added
            } else {
                GitFileStatus::Modified
            }
        },
        None => GitFileStatus::Modified,
    }
}

/// What a two-letter porcelain code means: `??` is untracked and `!!`
/// ignored; an unmerged pair (`DD`, `AU`, `UD`, `UA`, `DU`, `AA`, `UU`) is
/// conflicted; otherwise a deletion on either side makes the file deleted,
/// else a rename renamed, else an addition or a copy added, and any other
/// change (a modification, a type change) modified.
pub proof fn lemma_classify_meaning(x: char, y: char)
    ensures
        ({
            let s = spec_classify(Some((x, y)));
            let unmerged = (x == 'D' && y == 'D') || (x == 'A' && y == 'U') || (x == 'U' && y == 'D')
                || (x == 'U' && y == 'A') || (x == 'D' && y == 'U') || (x == 'A' && y == 'A') || (
            x == 'U' && y == 'U');
            let code_has = |c: char| x == c || y == c;
            &&& (x == '?' && y == '?') ==> s == GitFileStatus::Untracked
            &&& (x == '!' && y == '!') ==> s == GitFileStatus::Ignored
            &&& unmerged ==> s == GitFileStatus::Conflicted
            &&& (!unmerged && code_has('D')) ==> s == GitFileStatus::Deleted
            &&& (!unmerged && !code_has('D') && code_has('R')) ==> s == GitFileStatus::Renamed
            &&& (!unmerged && !code_has('D') && !code_has('R') && (code_has('A') || code_has('C'))) ==> s
                == GitFileStatus::Added
            &&& (!unmerged && !code_has('D') && !code_has('R') && !code_has('A') && !code_has('C') && !(x == '?' && y == '?')
                && !(x == '!' && y == '!')) ==> s == GitFileStatus::Modified
        }),
{
}

/// A code whose letters are not single-byte characters marks a change
/// of an unknown kind, shown as modified.
pub proof fn lemma_classify_unreadable_code()
    ensures
        spec_classify(None) == GitFileStatus::Modified,
{
}

/// A record of a porcelain listing is read as its path (what follows the
/// two status letters and the space) with the status its letters mean.
pub proof fn lemma_record_status(t: Seq<char>, rest: Seq<Seq<char>>)
    requires
        utf8_len(t) >= 4,
        record_is_ascii_headed(t),
    ensures
        porcelain_records(seq![t] + rest).len() > 0,
        porcelain_records(seq![t] + rest)[0] == (t.skip(3), spec_classify(Some((t[0], t[1])))),
{
    let toks = seq![t] + rest;
    assert(toks[0] == t);
}

/// A rename or copy record is followed by the path it came from, which
/// is not read as a record of its own; any other record is followed by
/// the next record.
pub proof fn lemma_record_sequence(t: Seq<char>, origin: Seq<char>, rest: Seq<Seq<char>>)
    requires
        utf8_len(t) >= 4,
        record_is_ascii_headed(t),
    ensures
        (t[0] == 'R' || t[1] == 'R' || t[0] == 'C' || t[1] == 'C') ==> porcelain_records(
            seq![t, origin] + rest,
        ) == seq![(t.skip(3), spec_classify(Some((t[0], t[1]))))] + porcelain_records(rest),
        !(t[0] == 'R' || t[1] == 'R' || t[0] == 'C' || t[1] == 'C') ==> porcelain_records(
            seq![t] + rest,
        ) == seq![(t.skip(3), spec_classify(Some((t[0], t[1]))))] + porcelain_records(rest),
{
    let a = seq![t, origin] + rest;
    assert(a[0] == t);
    assert(a.skip(2) =~= rest);
    let b = seq![t] + rest;
    assert(b[0] == t);
    assert(b.drop_first() =~= rest);
}

/// Whether a two-letter porcelain code marks a rename or a copy, whose
/// record carries the original path as a second field.
pub fn is_rename_or_copy(xy: Option<(char, char)>) -> (b: bool)
    ensures
        b == spec_is_rename_or_copy(xy),
{
    match xy {
        Some((x, y)) => x == 'R' || y == 'R' || x == 'C' || y == 'C',
        None => false,
    }
}

/// The status a two-letter porcelain code stands for.
pub fn classify(xy: Option<(char, char)>) -> (s: GitFileStatus)
    ensures
        s == spec_classify(xy),
{
    match xy {
        Some((x, y)) => {
            if x == '?' && y == '?' {
                GitFileStatus::Untracked
            } else if x == '!' && y == '!' {
                GitFileStatus::Ignored
            } else if (x == 'U' && y == 'U') || (x == 'A' && y == 'A') || (x == 'D' && y == 'D')
                || (x == 'A' && y == 'U') || (x == 'U' && y == 'A') || (x == 'U' && y == 'D') || (
            x == 'D' && y == 'U') {
                GitFileStatus::Conflicted
            } else if x == 'D' || y == 'D' {
                GitFileStatus::Deleted
            } else if x == 'R' || y == 'R' {
                GitFileStatus::Renamed
            } else if x == 'A' || y == 'A' || x == 'C' || y == 'C' {
                GitFileStatus::Added
            } else {
                GitFileStatus::Modified
            }
        },
        None => GitFileStatus::Modified,
    }
}

fn char_len_utf8(c: char) -> (n: usize)
    ensures
        n as int == char_utf8_len(c),
{
    let v = c as u32;
    if v < 0x80 {
        1
    } else if v < 0x800 {
        2
    } else if v < 0x10000 {
        3
    } else {
        4
    }
}

proof fn lemma_utf8_len_at_least_len(s: Seq<char>)
    ensures
        utf8_len(s) >= s.len(),
    decreases s.len(),
{
    if s.len() > 0 {
        lemma_utf8_len_at_least_len(s.drop_first());
    }
}

/// Whether `t` takes fewer than four bytes in UTF-8.
fn is_short_record(t: &Vec<char>) -> (b: bool)
    ensures
        b == (utf8_len(t@) < 4),
{
    if t.len() >= 4 {
        proof {
            lemma_utf8_len_at_least_len(t@);
        }
        return false;
    }
    let mut total: usize = 0;
    let mut i = t.len();
    assert(t@.skip(i as int) =~= Seq::<char>::empty());
    while i > 0
        invariant
            i <= t@.len() < 4,
            total as int == utf8_len(t@.skip(i as int)),
            total <= 4 * (t@.len() - i),
        decreases i,
    {
        assert(t@.skip(i - 1).drop_first() =~= t@.skip(i as int));
        total = total + char_len_utf8(t[i - 1]);
        i = i - 1;
    }
    assert(t@.skip(0) =~= t@);
    total < 4
}

/// Whether every record token (all but the first) of a porcelain listing can
/// be cut where the status letters end.
pub open spec fn porcelain_is_splittable(tokens: Seq<Seq<char>>) -> bool {
    forall|k: int| 1 <= k < tokens.len() ==> record_is_splittable(#[trigger] tokens[k])
}

/// The (path, status) records of a porcelain listing, in order; `toks` are the
/// tokens after the header. Tokens shorter than four bytes are skipped, and a
/// rename or copy record is followed by its origin path, which is skipped.
pub open spec fn porcelain_records(toks: Seq<Seq<char>>) -> Seq<(Seq<char>, GitFileStatus)>
    decreases toks.len(),
{
    if toks.len() == 0 {
        Seq::empty()
    } else {
        let t = toks[0];
        if utf8_len(t) < 4 {
            porcelain_records(toks.drop_first())
        } else {
            let rec = (record_path(t), spec_classify(record_xy(t)));
            if spec_is_rename_or_copy(record_xy(t)) && toks.len() >= 2 {
                seq![rec] + porcelain_records(toks.skip(2))
            } else if spec_is_rename_or_copy(record_xy(t)) {
                seq![rec]
            } else {
                seq![rec] + porcelain_records(toks.drop_first())
            }
        }
    }
}

/// The position of the last entry for `key`, if any.
pub open spec fn last_index_of_key(
    entries: Seq<(Seq<char>, GitFileStatus)>,
    key: Seq<char>,
) -> Option<int>
    decreases entries.len(),
{
    if entries.len() == 0 {
        None
    } else if entries.last().0 == key {
        Some(entries.len() - 1)
    } else {
        last_index_of_key(entries.drop_last(), key)
    }
}

/// Recording `status` for `key`: its entry is replaced, or a new one appended.
pub open spec fn status_insert(
    entries: Seq<(Seq<char>, GitFileStatus)>,
    key: Seq<char>,
    status: GitFileStatus,
) -> Seq<(Seq<char>, GitFileStatus)> {
    match last_index_of_key(entries, key) {
        Some(i) => entries.update(i, (key, status)),
        None => entries.push((key, status)),
    }
}

/// Recording each record in turn, each path taken relative to `dir`.
pub open spec fn insert_records(
    entries: Seq<(Seq<char>, GitFileStatus)>,
    dir: Seq<char>,
    recs: Seq<(Seq<char>, GitFileStatus)>,
) -> Seq<(Seq<char>, GitFileStatus)>
    decreases recs.len(),
{
    if recs.len() == 0 {
        entries
    } else {
        insert_records(
            status_insert(entries, path_join(dir, recs[0].0), recs[0].1),
            dir,
            recs.drop_first(),
        )
    }
}

/// The branch line of a porcelain listing: `## <branch>`, optionally followed
/// by `...<upstream> [ahead N, behind M]`; a detached head has no branch.
pub open spec fn spec_branch_header(h: Seq<char>) -> (Option<Seq<char>>, u32, u32) {
    if !is_prefix("## "@, h) {
        (None, 0, 0)
    } else {
        let rest = h.skip(3);
        if is_prefix("HEAD (no branch)"@, rest) {
            (None, 0, 0)
        } else if is_prefix("No commits yet on "@, rest) {
            (Some(rest.skip(18)), 0, 0)
        } else {
            match find_from(rest, "..."@, 0) {
                None => (Some(rest), 0, 0),
                Some(i) => {
                    let (a, b) = tracking_counts(rest.skip(i + 3));
                    (Some(rest.take(i)), a, b)
                },
            }
        }
    }
}

/// The ahead/behind counts in the bracketed part of an upstream description.
pub open spec fn tracking_counts(tracking: Seq<char>) -> (u32, u32) {
    match find_from(tracking, "["@, 0) {
        None => (0, 0),
        Some(b) => counts_from_parts(
            split_on(trim_end_char(tracking.skip(b + 1), ']'), ", "@),
            0,
            0,
        ),
    }
}

/// Reading `ahead N` and `behind M` parts in order; a later part overrides an
/// earlier one, and an unreadable number counts as zero.
pub open spec fn counts_from_parts(parts: Seq<Seq<char>>, ahead: u32, behind: u32) -> (u32, u32)
    decreases parts.len(),
{
    if parts.len() == 0 {
        (ahead, behind)
    } else {
        let p = parts[0];
        if is_prefix("ahead "@, p) {
            counts_from_parts(parts.drop_first(), number_or_zero(trim(p.skip(6))), behind)
        } else if is_prefix("behind "@, p) {
            counts_from_parts(parts.drop_first(), ahead, number_or_zero(trim(p.skip(7))))
        } else {
            counts_from_parts(parts.drop_first(), ahead, behind)
        }
    }
}

pub open spec fn number_or_zero(s: Seq<char>) -> u32 {
    match parsed_u32(s) {
        Some(n) => n,
        None => 0,
    }
}

/// What `str::parse::<u32>` gives for `s`: the number written by an
/// optional `+` and then one or more ASCII digits, when it fits in a u32.
pub open spec fn parsed_u32(s: Seq<char>) -> Option<u32> {
    let d = if s.len() > 0 && s[0] == '+' {
        s.skip(1)
    } else {
        s
    };
    if d.len() > 0 && all_digits(d) && digits_value(d) <= u32::MAX {
        Some(digits_value(d) as u32)
    } else {
        None
    }
}

/// Reads a decimal number as `str::parse::<u32>` does (see `parsed_u32`).
pub fn parse_u32(s: &Vec<char>) -> (r: Option<u32>)
    ensures
        r == parsed_u32(s@),
{
    let start: usize = if s.len() > 0 && s[0] == '+' {
        1
    } else {
        0
    };
    let ghost d = if s@.len() > 0 && s@[0] == '+' {
        s@.skip(1)
    } else {
        s@
    };
    assert(d =~= s@.skip(start as int));
    if start >= s.len() {
        return None;
    }
    let mut acc: u64 = 0;
    let mut over = false;
    let mut i: usize = start;
    assert(d.take(0) =~= Seq::<char>::empty());
    while i < s.len()
        invariant
            start <= i <= s@.len(),
            d == s@.skip(start as int),
            d == (if s@.len() > 0 && s@[0] == '+' { s@.skip(1) } else { s@ }),
            all_digits(d.take(i - start)),
            !over ==> acc == digits_value(d.take(i - start)) && acc <= u32::MAX,
            over ==> digits_value(d.take(i - start)) > u32::MAX,
        decreases s@.len() - i,
    {
        let c = s[i];
        let ghost k = i - start;
        assert(d[k] == c);
        if !('0' <= c && c <= '9') {
            assert(!('0' <= d[k] <= '9'));
            assert(!all_digits(d));
            return None;
        }
        let digit = (c as u32 - '0' as u32) as u64;
        assert(d.take(k + 1).drop_last() =~= d.take(k));
        assert(d.take(k + 1).last() == c);
        assert(digits_value(d.take(k + 1)) == digits_value(d.take(k)) * 10 + digit);
        assert forall|j: int| 0 <= j < d.take(k + 1).len() implies '0' <= #[trigger] d.take(k + 1)[j]
            <= '9' by {
            if j < k {
                assert(d.take(k + 1)[j] == d.take(k)[j]);
            }
        }
        if !over {
            let next = acc * 10 + digit;
            if next > u32::MAX as u64 {
                over = true;
            } else {
                acc = next;
            }
        }
        i = i + 1;
    }
    assert(d.take(d.len() as int) =~= d);
    if over {
        None
    } else {
        Some(acc as u32)
    }
}

fn number_or_zero_of(s: &Vec<char>) -> (n: u32)
    ensures
        n == number_or_zero(trim(s@)),
{
    let t = trim_chars(s);
    match parse_u32(&t) {
        Some(n) => n,
        None => 0,
    }
}

/// Reads the branch line of a porcelain listing: branch name, commits ahead
/// of and behind the upstream.
pub fn parse_branch_header(header: &Vec<char>) -> (r: (Option<String>, u32, u32))
    ensures
        r.0 is Some == spec_branch_header(header@).0 is Some,
        r.0 matches Some(b) ==> b@ == spec_branch_header(header@).0->0,
        r.1 == spec_branch_header(header@).1,
        r.2 == spec_branch_header(header@).2,
{
    proof {
        reveal_strlit("## ");
        reveal_strlit("HEAD (no branch)");
        reveal_strlit("No commits yet on ");
        reveal_strlit("...");
    }
    let prefix = chars_of("## ");
    if !starts_with(header, &prefix) {
        return (None, 0, 0);
    }
    let rest = slice(header, 3, header.len());
    assert(rest@ =~= header@.skip(3));
    if starts_with(&rest, &chars_of("HEAD (no branch)")) {
        return (None, 0, 0);
    }
    let unborn = chars_of("No commits yet on ");
    if starts_with(&rest, &unborn) {
        let name = slice(&rest, 18, rest.len());
        assert(name@ =~= rest@.skip(18));
        return (Some(string_from_chars(&name)), 0, 0);
    }
    match find(&rest, &chars_of("..."), 0) {
        None => {
            (Some(string_from_chars(&rest)), 0, 0)
        },
        Some(i) => {
            proof {
                crate::text::lemma_find_from_bounds(rest@, "..."@, 0);
            }
            let head = slice(&rest, 0, i);
            assert(head@ =~= rest@.take(i as int));
            let tracking = slice(&rest, i + 3, rest.len());
            assert(tracking@ =~= rest@.skip(i + 3));
            let (ahead, behind) = parse_tracking(&tracking);
            (Some(string_from_chars(&head)), ahead, behind)
        },
    }
}

fn parse_tracking(tracking: &Vec<char>) -> (r: (u32, u32))
    ensures
        r == tracking_counts(tracking@),
{
    proof {
        reveal_strlit("[");
        reveal_strlit(", ");
        reveal_strlit("ahead ");
        reveal_strlit("behind ");
    }
    match find(tracking, &chars_of("["), 0) {
        None => (0, 0),
        Some(b) => {
            proof {
                crate::text::lemma_find_from_bounds(tracking@, "["@, 0);
                assert(tracking@.len() == tracking.len());
            }
            let after = slice(tracking, b + 1, tracking.len());
            assert(after@ =~= tracking@.skip(b + 1));
            let inside = trim_end_matches_char(&after, ']');
            let sep = chars_of(", ");
            let parts = split(&inside, &sep);
            let ghost all = split_on(inside@, sep@);
            let ahead_prefix = chars_of("ahead ");
            let behind_prefix = chars_of("behind ");
            let mut ahead: u32 = 0;
            let mut behind: u32 = 0;
            let mut k: usize = 0;
            assert(all.skip(0) =~= all);
            while k < parts.len()
                invariant
                    parts@.len() == all.len(),
                    forall|j: int| 0 <= j < parts@.len() ==> parts@[j]@ == all[j],
                    k <= parts@.len(),
                    ahead_prefix@ == "ahead "@,
                    behind_prefix@ == "behind "@,
                    "ahead "@.len() == 6,
                    "behind "@.len() == 7,
                    counts_from_parts(all.skip(k as int), ahead, behind) == counts_from_parts(
                        all,
                        0,
                        0,
                    ),
                decreases parts@.len() - k,
            {
                let p = &parts[k];
                assert(all.skip(k as int).drop_first() =~= all.skip(k + 1));
                assert(all.skip(k as int)[0] == p@);
                if starts_with(p, &ahead_prefix) {
                    let n = slice(p, 6, p.len());
                    assert(n@ =~= p@.skip(6));
                    ahead = number_or_zero_of(&n);
                } else if starts_with(p, &behind_prefix) {
                    let n = slice(p, 7, p.len());
                    assert(n@ =~= p@.skip(7));
                    behind = number_or_zero_of(&n);
                }
                k = k + 1;
            }
            assert(all.skip(k as int) =~= Seq::<Seq<char>>::empty());
            (ahead, behind)
        },
    }
}

#[verifier::external_type_specification]
#[verifier::external_body]
pub struct ExFxBuildHasher(rustc_hash::FxBuildHasher);

/// Git status by path.
pub type StatusMap = FxHashMap<String, GitFileStatus>;

/// The path-to-status entries held by a status map.
pub uninterp spec fn status_map_contents(m: StatusMap) -> Map<Seq<char>, GitFileStatus>;

/// An empty status map (`HashMap::default`).
#[verifier::external_body]
fn new_status_map() -> (fresh: StatusMap)
    ensures
        (status_map_contents(fresh) == Map::<Seq<char>, GitFileStatus>::empty()),
{
    FxHashMap::default()
}

/// Records `status` for `path`, replacing what was recorded before (`HashMap::insert`).
#[verifier::external_body]
fn status_map_insert(m: &mut StatusMap, path: String, status: GitFileStatus)
    ensures
        status_map_contents(*final(m)) == status_map_contents(*old(m)).insert(path@, status),
{
    m.insert(path, status);
}

/// The status recorded for `path` (`HashMap::get`).
#[verifier::external_body]
fn status_map_get(m: &StatusMap, path: &str) -> (r: Option<GitFileStatus>)
    ensures
        status_map_contents(*m).contains_key(path@) ==> r == Some(
            status_map_contents(*m)[path@],
        ),
        !status_map_contents(*m).contains_key(path@) ==> r is None,
{
    m.get(path).copied()
}

/// The number of paths with a recorded status (`HashMap::len`).
#[verifier::external_body]
fn status_map_len(m: &StatusMap) -> (count: usize)
    ensures
        count as int == status_map_contents(*m).dom().len(),
{
    m.len()
}

/// Every recorded (path, status) pair once, in no particular order (`HashMap::iter`).
#[verifier::external_body]
fn status_map_entries(m: &StatusMap) -> (v: Vec<(String, GitFileStatus)>)
    ensures
        forall|i: int|
            0 <= i < v@.len() ==> status_map_contents(*m).contains_key(#[trigger] v@[i].0@)
                && status_map_contents(*m)[v@[i].0@] == v@[i].1,
        forall|k: Seq<char>|
            #[trigger] status_map_contents(*m).contains_key(k) ==> exists|i: int|
                0 <= i < v@.len() && #[trigger] v@[i].0@ == k,
        forall|i: int, j: int| 0 <= i < j < v@.len() ==> v@[i].0@ != v@[j].0@,
{
    let mut out = Vec::new();
    for (path, status) in m.iter() {
        out.push((path.clone(), *status));
    }
    out
}

/// What a porcelain listing reports: branch, distance to upstream, and the
/// status of every changed path.
#[derive(Clone, Debug)]
pub struct GitSnapshot {
    pub branch: Option<String>,
    pub ahead: u32,
    pub behind: u32,
    pub statuses: StatusMap,
}

impl GitSnapshot {
    /// The status recorded for `path`.
    pub fn status(&self, path: &str) -> (r: Option<GitFileStatus>)
        ensures
            status_map_contents(self.statuses).contains_key(path@) ==> r == Some(
                status_map_contents(self.statuses)[path@],
            ),
            !status_map_contents(self.statuses).contains_key(path@) ==> r is None,
    {
        status_map_get(&self.statuses, path)
    }

    /// The number of paths with a recorded status.
    pub fn status_count(&self) -> (n: usize)
        ensures
            n as int == status_map_contents(self.statuses).dom().len(),
    {
        status_map_len(&self.statuses)
    }
}

/// The text tokens of a porcelain listing: its zero-separated pieces, read as UTF-8.
pub open spec fn porcelain_tokens(output: Seq<u8>) -> Seq<Seq<char>> {
    split_bytes(output, 0).map_values(|b: Seq<u8>| utf8_lossy(b))
}

/// Recording each record's status in turn, its path taken relative to `dir`.
pub open spec fn records_into_map(
    m: Map<Seq<char>, GitFileStatus>,
    dir: Seq<char>,
    recs: Seq<(Seq<char>, GitFileStatus)>,
) -> Map<Seq<char>, GitFileStatus>
    decreases recs.len(),
{
    if recs.len() == 0 {
        m
    } else {
        records_into_map(m.insert(path_join(dir, recs[0].0), recs[0].1), dir, recs.drop_first())
    }
}

fn record_splittable(t: &Vec<char>) -> (b: bool)
    ensures
        b == record_is_splittable(t@),
{
    if is_short_record(t) {
        return true;
    }
    if t.len() >= 3 && (t[0] as u32) < 0x80 && (t[1] as u32) < 0x80 && (t[2] as u32) < 0x80 {
        return true;
    }
    t.len() >= 2 && char_len_utf8(t[0]) == 2 && (t[1] as u32) < 0x80
}

fn lossy_tokens(output: &[u8]) -> (toks: Vec<Vec<char>>)
    ensures
        toks@.len() == porcelain_tokens(output@).len(),
        forall|k: int| 0 <= k < toks@.len() ==> toks@[k]@ == porcelain_tokens(output@)[k],
{
    let parts = split_bytes_at(output, 0);
    let mut toks: Vec<Vec<char>> = Vec::new();
    let mut k: usize = 0;
    while k < parts.len()
        invariant
            parts@.len() == split_bytes(output@, 0).len(),
            forall|j: int| 0 <= j < parts@.len() ==> parts@[j]@ == split_bytes(output@, 0)[j],
            k <= parts@.len(),
            toks@.len() == k,
            forall|j: int| 0 <= j < k ==> toks@[j]@ == utf8_lossy(split_bytes(output@, 0)[j]),
        decreases parts@.len() - k,
    {
        let text = lossy_string(parts[k].as_slice());
        toks.push(chars_of(text.as_str()));
        k = k + 1;
    }
    toks
}

/// Whether every record of a porcelain listing can be cut where its status
/// letters end (see `record_is_splittable`).
pub fn porcelain_is_parseable(output: &[u8]) -> (b: bool)
    ensures
        b == porcelain_is_splittable(porcelain_tokens(output@)),
{
    let toks = lossy_tokens(output);
    let mut k: usize = 1;
    while k < toks.len()
        invariant
            toks@.len() == porcelain_tokens(output@).len(),
            forall|j: int| 0 <= j < toks@.len() ==> toks@[j]@ == porcelain_tokens(output@)[j],
            1 <= k,
            forall|j: int| 1 <= j < k && j < toks@.len() ==> record_is_splittable(
                #[trigger] porcelain_tokens(output@)[j],
            ),
        decreases toks@.len() - k,
    {
        if !record_splittable(&toks[k]) {
            assert(!record_is_splittable(porcelain_tokens(output@)[k as int]));
            return false;
        }
        k = k + 1;
    }
    true
}

proof fn lemma_records_cons(
    m: Map<Seq<char>, GitFileStatus>,
    dir: Seq<char>,
    rec: (Seq<char>, GitFileStatus),
    recs: Seq<(Seq<char>, GitFileStatus)>,
)
    ensures
        records_into_map(m, dir, seq![rec] + recs) == records_into_map(
            m.insert(path_join(dir, rec.0), rec.1),
            dir,
            recs,
        ),
{
    let all = seq![rec] + recs;
    assert(all[0] == rec);
    assert(all.drop_first() =~= recs);
}

/// Reads `git status --porcelain=v1 -z --branch` output, with paths taken
/// relative to `dir`.
pub fn parse_porcelain(dir: &str, output: &[u8]) -> (r: Option<GitSnapshot>)
    requires
        porcelain_is_splittable(porcelain_tokens(output@)),
    ensures
        r is Some,
        r matches Some(snap) ==> {
            let toks = porcelain_tokens(output@);
            let h = spec_branch_header(toks[0]);
            &&& snap.branch is Some == h.0 is Some
            &&& (snap.branch matches Some(b) ==> b@ == h.0->0)
            &&& snap.ahead == h.1
            &&& snap.behind == h.2
            &&& status_map_contents(snap.statuses) == records_into_map(
                Map::empty(),
                dir@,
                porcelain_records(toks.drop_first()),
            )
        },
{
    let toks = lossy_tokens(output);
    let ghost stoks = porcelain_tokens(output@);
    proof {
        lemma_split_bytes_nonempty(output@, 0);
    }
    let (branch, ahead, behind) = parse_branch_header(&toks[0]);
    let dir_chars = chars_of(dir);
    let mut statuses = new_status_map();
    let ghost target = records_into_map(Map::empty(), dir@, porcelain_records(stoks.drop_first()));
    let mut k: usize = 1;
    assert(stoks.skip(1) =~= stoks.drop_first());
    while k < toks.len()
        invariant
            toks@.len() == stoks.len(),
            stoks == porcelain_tokens(output@),
            forall|j: int| 0 <= j < toks@.len() ==> toks@[j]@ == stoks[j],
            porcelain_is_splittable(stoks),
            dir_chars@ == dir@,
            1 <= k,
            k <= toks@.len(),
            records_into_map(status_map_contents(statuses), dir@, porcelain_records(stoks.skip(k as int))) == target,
        decreases toks@.len() - k,
    {
        let t = &toks[k];
        let ghost rest = stoks.skip(k as int);
        assert(rest[0] == t@);
        assert(rest.drop_first() =~= stoks.skip(k + 1));
        assert(record_is_splittable(stoks[k as int]));
        if is_short_record(t) {
            k = k + 1;
        } else {
            let ascii = t.len() >= 3 && (t[0] as u32) < 0x80 && (t[1] as u32) < 0x80 && (t[2] as u32) < 0x80;
            let xy = if ascii { Some((t[0], t[1])) } else { None };
            assert(xy == record_xy(t@));
            let path = if ascii {
                let p = slice(t, 3, t.len());
                assert(p@ =~= t@.skip(3));
                p
            } else {
                let p = slice(t, 2, t.len());
                assert(p@ =~= t@.skip(2));
                p
            };
            let full = join(&dir_chars, &path);
            let status = classify(xy);
            let ghost before = status_map_contents(statuses);
            status_map_insert(&mut statuses, string_from_chars(&full), status);
            proof {
                let rec = (record_path(t@), spec_classify(record_xy(t@)));
                assert(path@ == rec.0);
                if spec_is_rename_or_copy(record_xy(t@)) && rest.len() >= 2 {
                    lemma_records_cons(before, dir@, rec, porcelain_records(rest.skip(2)));
                } else if spec_is_rename_or_copy(record_xy(t@)) {
                    lemma_records_cons(before, dir@, rec, Seq::empty());
                    assert(seq![rec] =~= seq![rec] + Seq::<(Seq<char>, GitFileStatus)>::empty());
                } else {
                    lemma_records_cons(before, dir@, rec, porcelain_records(rest.drop_first()));
                }
            }
            if is_rename_or_copy(xy) {
                if k + 1 < toks.len() {
                    assert(rest.skip(2) =~= stoks.skip(k + 2));
                    k = k + 2;
                } else {
                    assert(stoks.skip(k + 1) =~= Seq::<Seq<char>>::empty());
                    assert(porcelain_records(stoks.skip(k + 1)) =~= Seq::<(Seq<char>, GitFileStatus)>::empty());
                    k = k + 1;
                }
            } else {
                k = k + 1;
            }
        }
    }
    proof {
        assert(stoks.skip(k as int) =~= Seq::<Seq<char>>::empty());
    }
    Some(GitSnapshot { branch, ahead, behind, statuses })
}

/// Whether some recorded path lies at or below `dir`.
pub open spec fn has_status_under(m: Map<Seq<char>, GitFileStatus>, dir: Seq<char>) -> bool {
    exists|k: Seq<char>| #[trigger] m.contains_key(k) && path_starts_with(k, dir)
}

/// The most urgent status among the paths at or below `dir`, if any.
pub fn worst_status_under(statuses: &StatusMap, dir: &str) -> (r: Option<GitFileStatus>)
    ensures
        r is None <==> !has_status_under(status_map_contents(*statuses), dir@),
        r matches Some(w) ==> {
            let m = status_map_contents(*statuses);
            &&& exists|k: Seq<char>| #[trigger] m.contains_key(k) && path_starts_with(k, dir@) && m[k] == w
            &&& forall|k: Seq<char>| #[trigger] m.contains_key(k) && path_starts_with(k, dir@)
                ==> status_priority(w) <= status_priority(m[k])
        },
{
    let entries = status_map_entries(statuses);
    let ghost m = status_map_contents(*statuses);
    let d = chars_of(dir);
    let mut worst: Option<GitFileStatus> = None;
    let mut i: usize = 0;
    while i < entries.len()
        invariant
            m == status_map_contents(*statuses),
            d@ == dir@,
            i <= entries@.len(),
            forall|j: int|
                0 <= j < entries@.len() ==> m.contains_key(#[trigger] entries@[j].0@) && m[entries@[j].0@]
                    == entries@[j].1,
            worst is None ==> forall|j: int| 0 <= j < i ==> !path_starts_with(#[trigger] entries@[j].0@, dir@),
            worst matches Some(w) ==> {
                &&& exists|j: int| 0 <= j < i && path_starts_with(#[trigger] entries@[j].0@, dir@) && entries@[j].1 == w
                &&& forall|j: int| 0 <= j < i && path_starts_with(#[trigger] entries@[j].0@, dir@)
                    ==> status_priority(w) <= status_priority(entries@[j].1)
            },
        decreases entries@.len() - i,
    {
        let path = chars_of(entries[i].0.as_str());
        if starts_with_path(&path, &d) {
            let status = entries[i].1;
            worst = match worst {
                None => Some(status),
                Some(w) => Some(w.worse(status)),
            };
        }
        i = i + 1;
    }
    proof {
        if worst is None {
            if has_status_under(m, dir@) {
                let k = choose|k: Seq<char>| #[trigger] m.contains_key(k) && path_starts_with(k, dir@);
                let j = choose|j: int| 0 <= j < entries@.len() && #[trigger] entries@[j].0@ == k;
                assert(!path_starts_with(entries@[j].0@, dir@));
            }
        }
        if let Some(w) = worst {
            let j = choose|j: int| 0 <= j < i && path_starts_with(#[trigger] entries@[j].0@, dir@) && entries@[j].1 == w;
            assert(m.contains_key(entries@[j].0@));
            assert forall|k: Seq<char>| #[trigger] m.contains_key(k) && path_starts_with(k, dir@)
                implies status_priority(w) <= status_priority(m[k]) by {
                let j2 = choose|j2: int| 0 <= j2 < entries@.len() && #[trigger] entries@[j2].0@ == k;
                assert(path_starts_with(entries@[j2].0@, dir@));
            }
        }
    }
    worst
}

/// The arguments that ask git for a porcelain status listing of the
/// current directory.
pub open spec fn spec_snapshot_args(status: GitStatusSettings) -> Seq<Seq<char>> {
    let untracked = if status.show_untracked {
        "--untracked-files=all"@
    } else {
        "--untracked-files=no"@
    };
    let head = seq!["status"@, "--porcelain=v1"@, "-z"@, "--branch"@, untracked];
    let with_ignored = if status.show_ignored {
        head.push("--ignored=matching"@)
    } else {
        head
    };
    with_ignored.push("--"@).push("."@)
}

/// The arguments of the `git status` call that takes a snapshot of a
/// repository.
pub fn snapshot_args(status: &GitStatusSettings) -> (args: Vec<String>)
    ensures
        args@.map_values(|a: String| a@) == spec_snapshot_args(*status),
{
    let mut args: Vec<String> = Vec::new();
    args.push(String::from_str("status"));
    args.push(String::from_str("--porcelain=v1"));
    args.push(String::from_str("-z"));
    args.push(String::from_str("--branch"));
    if status.show_untracked {
        args.push(String::from_str("--untracked-files=all"));
    } else {
        args.push(String::from_str("--untracked-files=no"));
    }
    if status.show_ignored {
        args.push(String::from_str("--ignored=matching"));
    }
    args.push(String::from_str("--"));
    args.push(String::from_str("."));
    assert(args@.map_values(|a: String| a@) =~= spec_snapshot_args(*status));
    args
}

/// Turns what git printed into a snapshot: `None` when git failed, when the
/// listing cannot be read, or when it reports more paths than allowed.
/// Paths are taken relative to `repo_root`, or to `dir` outside a repository.
pub fn snapshot(
    dir: &str,
    cli: &GitCliSettings,
    output: Option<Vec<u8>>,
    repo_root: Option<String>,
) -> (r: Option<GitSnapshot>)
    ensures
        output is None ==> r is None,
        output matches Some(o) ==> !porcelain_is_splittable(porcelain_tokens(o@)) ==> r is None,
        output matches Some(o) ==> porcelain_is_splittable(porcelain_tokens(o@)) ==> {
            let root = match repo_root {
                Some(p) => p@,
                None => dir@,
            };
            let toks = porcelain_tokens(o@);
            let m = records_into_map(Map::empty(), root, porcelain_records(toks.drop_first()));
            let h = spec_branch_header(toks[0]);
            let too_many = match cli.max_repo_entries {
                Some(max) => m.dom().len() > max,
                None => false,
            };
            &&& r is None <==> too_many
            &&& r matches Some(snap) ==> {
                &&& snap.branch is Some == h.0 is Some
                &&& (snap.branch matches Some(b) ==> b@ == h.0->0)
                &&& snap.ahead == h.1
                &&& snap.behind == h.2
                &&& status_map_contents(snap.statuses) == m
            }
        },
{
    let output = match output {
        Some(o) => o,
        None => return None,
    };
    if !porcelain_is_parseable(output.as_slice()) {
        return None;
    }
    let root = match repo_root {
        Some(p) => p,
        None => String::from_str(dir),
    };
    let snap = match parse_porcelain(root.as_str(), output.as_slice()) {
        Some(s) => s,
        None => return None,
    };
    if let Some(max) = cli.max_repo_entries {
        if snap.status_count() as u64 > max {
            return None;
        }
    }
    Some(snap)
}

/// `dir` and its ancestors, nearest first.
pub fn repo_root_candidates(dir: &str) -> (v: Vec<String>)
    ensures
        v@.len() >= 1,
        v@[0]@ == dir@,
        forall|k: int| 0 <= k < v@.len() - 1 ==> path_parent(#[trigger] v@[k]@) == Some(v@[k + 1]@),
        path_parent(v@[v@.len() - 1]@) is None,
{
    let mut v: Vec<String> = Vec::new();
    let mut cur = chars_of(dir);
    let mut steps: usize = 0;
    v.push(string_from_chars(&cur));
    loop
        invariant
            v@.len() >= 1,
            v@[0]@ == dir@,
            v@[v@.len() - 1]@ == cur@,
            forall|k: int| 0 <= k < v@.len() - 1 ==> path_parent(#[trigger] v@[k]@) == Some(v@[k + 1]@),
        decreases cur@.len(),
    {
        match parent(&cur) {
            None => {
                return v;
            },
            Some(p) => {
                proof {
                    crate::paths::lemma_parent_shorter(cur@);
                }
                v.push(string_from_chars(&p));
                cur = p;
            },
        }
    }
}

/// The nearest of the candidates that holds a `.git` marker.
pub fn find_repo_root(candidates: &Vec<String>, has_marker: &Vec<bool>) -> (r: Option<String>)
    requires
        candidates@.len() == has_marker@.len(),
    ensures
        r is None <==> forall|k: int| 0 <= k < has_marker@.len() ==> !has_marker@[k],
        r matches Some(root) ==> exists|k: int|
            0 <= k < candidates@.len() && has_marker@[k] && candidates@[k]@ == root@ && forall|j: int|
                0 <= j < k ==> !has_marker@[j],
{
    let mut k: usize = 0;
    while k < candidates.len()
        invariant
            candidates@.len() == has_marker@.len(),
            k <= candidates@.len(),
            forall|j: int| 0 <= j < k ==> !has_marker@[j],
        decreases candidates@.len() - k,
    {
        if has_marker[k] {
            return Some(candidates[k].clone());
        }
        k = k + 1;
    }
    None
}

/// Whether the snapshot reports any change that is not merely ignored.
pub fn git_is_dirty(snapshot: Option<&GitSnapshot>) -> (dirty: bool)
    ensures
        dirty == (snapshot matches Some(s) && exists|k: Seq<char>|
            #[trigger] status_map_contents(s.statuses).contains_key(k)
                && status_map_contents(s.statuses)[k] != GitFileStatus::Ignored),
{
    let snap = match snapshot {
        Some(s) => s,
        None => return false,
    };
    let entries = status_map_entries(&snap.statuses);
    let ghost m = status_map_contents(snap.statuses);
    let mut i: usize = 0;
    while i < entries.len()
        invariant
            snapshot == Some(snap),
            m == status_map_contents(snap.statuses),
            i <= entries@.len(),
            forall|j: int|
                0 <= j < entries@.len() ==> m.contains_key(#[trigger] entries@[j].0@) && m[entries@[j].0@]
                    == entries@[j].1,
            forall|k: Seq<char>| #[trigger] m.contains_key(k) ==> exists|j: int|
                0 <= j < entries@.len() && #[trigger] entries@[j].0@ == k,
            forall|j: int| 0 <= j < i ==> entries@[j].1 == GitFileStatus::Ignored,
        decreases entries@.len() - i,
    {
        if entries[i].1 != GitFileStatus::Ignored {
            assert(m.contains_key(entries@[i as int].0@) && m[entries@[i as int].0@] != GitFileStatus::Ignored);
            return true;
        }
        i = i + 1;
    }
    proof {
        assert forall|k: Seq<char>| #[trigger] m.contains_key(k) implies m[k] == GitFileStatus::Ignored by {
            let j = choose|j: int| 0 <= j < entries@.len() && #[trigger] entries@[j].0@ == k;
        }
    }
    false
}

/// The status to show for an entry: nothing while git is off or no snapshot
/// is at hand; for a directory the most urgent status below it, when
/// folders aggregate; for a file its own status.
pub fn git_status_for(
    settings: &crate::settings::GitSettings,
    snapshot: Option<&GitSnapshot>,
    path: &str,
    is_dir: bool,
) -> (r: Option<GitFileStatus>)
    ensures
        !settings.enabled ==> r is None,
        snapshot is None ==> r is None,
        is_dir && !settings.status.aggregate_folders ==> r is None,
        settings.enabled && is_dir && settings.status.aggregate_folders ==> (snapshot matches Some(s)
            ==> (r is None <==> !has_status_under(status_map_contents(s.statuses), path@))),
        settings.enabled && is_dir && settings.status.aggregate_folders ==> (snapshot matches Some(s)
            ==> (r matches Some(w) ==> {
            let m = status_map_contents(s.statuses);
            &&& exists|k: Seq<char>| #[trigger] m.contains_key(k) && path_starts_with(k, path@) && m[k] == w
            &&& forall|k: Seq<char>| #[trigger] m.contains_key(k) && path_starts_with(k, path@)
                ==> status_priority(w) <= status_priority(m[k])
        })),
        settings.enabled && !is_dir ==> (snapshot matches Some(s) ==> {
            let m = status_map_contents(s.statuses);
            &&& m.contains_key(path@) ==> r == Some(m[path@])
            &&& !m.contains_key(path@) ==> r is None
        }),
{
    if !settings.enabled {
        return None;
    }
    let snap = match snapshot {
        Some(s) => s,
        None => return None,
    };
    if is_dir {
        if !settings.status.aggregate_folders {
            return None;
        }
        worst_status_under(&snap.statuses, path)
    } else {
        snap.status(path)
    }
}

/// The more urgent of two statuses ranks no lower than either of them, and
/// is one of them.
pub proof fn lemma_worse_is_minimum(a: GitFileStatus, b: GitFileStatus)
    ensures
        status_priority(spec_worse(a, b)) <= status_priority(a),
        status_priority(spec_worse(a, b)) <= status_priority(b),
        spec_worse(a, b) == a || spec_worse(a, b) == b,
{
}

/// Picking the more urgent status does not depend on how the statuses are grouped.
pub proof fn lemma_worse_associative(a: GitFileStatus, b: GitFileStatus, c: GitFileStatus)
    ensures
        spec_worse(a, spec_worse(b, c)) == spec_worse(spec_worse(a, b), c),
{
}

} // verus!
