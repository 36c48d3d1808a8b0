//! Entries of a directory listing: how they are ordered, and how their type
//! and permissions are shown.
use vstd::prelude::*;

use crate::columns::{SortColumn, SortDirection};
use crate::paths::path_file_name;
use crate::text::{append_str, chars_of, lowercase, string_from_chars, to_lowercase};

verus! {

/// An entry of a directory.
#[derive(Clone, Debug)]
pub struct FsEntry {
    pub name: String,
    pub path: String,
    pub is_dir: bool,
    pub size: u64,
    /// When it was last modified (seconds since the epoch), if known.
    pub modified: Option<i64>,
}

impl FsEntry {
    /// A copy of this entry.
    pub fn duplicate(&self) -> (r: FsEntry)
        ensures
            r == *self,
    {
        FsEntry {
            name: self.name.clone(),
            path: self.path.clone(),
            is_dir: self.is_dir,
            size: self.size,
            modified: self.modified,
        }
    }
}

// ---------------------------------------------------------------------------
// Type labels

/// What `str::to_uppercase` makes of `s`.
pub uninterp spec fn uppercase(s: Seq<char>) -> Seq<char>;

/// `str::to_uppercase`.
#[verifier::external_body]
pub(crate) fn to_uppercase(s: &str) -> (r: String)
    ensures
        r@ == uppercase(s@),
{
    s.to_uppercase()
}

/// The position of the last `.` in `s`.
pub open spec fn last_dot(s: Seq<char>) -> Option<int>
    decreases s.len(),
{
    if s.len() == 0 {
        None
    } else if s.last() == '.' {
        Some(s.len() - 1)
    } else {
        last_dot(s.drop_last())
    }
}

proof fn lemma_last_dot(s: Seq<char>)
    ensures
        last_dot(s) matches Some(i) ==> 0 <= i < s.len() && s[i] == '.',
    decreases s.len(),
{
    if s.len() > 0 && s.last() != '.' {
        lemma_last_dot(s.drop_last());
    }
}

/// The extension of a path as `Path::extension` gives it: what follows the
/// last `.` of the file name, unless there is none or the only one starts
/// the name.
pub open spec fn extension(p: Seq<char>) -> Option<Seq<char>> {
    match path_file_name(p) {
        None => None,
        Some(n) => match last_dot(n) {
            None => None,
            Some(i) => if i == 0 {
                None
            } else {
                Some(n.skip(i + 1))
            },
        },
    }
}

/// The type shown for an entry: `Folder`, `<EXT> File` with the extension
/// in capitals, or `File`.
pub open spec fn spec_type_label(name: Seq<char>, is_dir: bool) -> Seq<char> {
    if is_dir {
        "Folder"@
    } else {
        match extension(name) {
            Some(ext) => uppercase(ext) + " File"@,
            None => "File"@,
        }
    }
}

proof fn lemma_last_dot_spots(s: Seq<char>)
    ensures
        last_dot(s) matches Some(i) ==> 0 <= i < s.len() && s[i] == '.' && forall|k: int|
            i < k < s.len() ==> #[trigger] s[k] != '.',
        last_dot(s) is None ==> forall|k: int| 0 <= k < s.len() ==> #[trigger] s[k] != '.',
    decreases s.len(),
{
    if s.len() > 0 && s.last() != '.' {
        let d = s.drop_last();
        lemma_last_dot_spots(d);
        assert forall|k: int| 0 <= k < d.len() implies #[trigger] s[k] == d[k] by {}
    }
}

/// The type shown for an entry: a folder is a "Folder"; a file whose name
/// (`n`, the last component of the path) has a dot after its first
/// character shows what follows the last dot in capitals, then " File";
/// any other file is a "File".
pub proof fn lemma_type_label_meaning(name: Seq<char>, is_dir: bool, n: Seq<char>, i: int)
    ensures
        is_dir ==> spec_type_label(name, is_dir) == "Folder"@,
        (!is_dir && path_file_name(name) is None) ==> spec_type_label(name, is_dir) == "File"@,
        (!is_dir && path_file_name(name) == Some(n) && forall|k: int|
            0 < k < n.len() ==> #[trigger] n[k] != '.') ==> spec_type_label(name, is_dir) == "File"@,
        (!is_dir && path_file_name(name) == Some(n) && 0 < i < n.len() && n[i] == '.' && forall|
            k: int,
        |
            i < k < n.len() ==> #[trigger] n[k] != '.') ==> spec_type_label(name, is_dir) == uppercase(
            n.skip(i + 1),
        ) + " File"@,
{
    lemma_last_dot_spots(n);
    if let Some(j) = last_dot(n) {
        if 0 < i < n.len() && n[i] == '.' && (forall|k: int| i < k < n.len() ==> #[trigger] n[k] != '.') {
            if j < i {
                assert(n[i] != '.');
            }
            if j > i {
                assert(n[j] != '.');
            }
        }
    }
}

pub(crate) fn extension_of(p: &str) -> (r: Option<String>)
    ensures
        match r {
            Some(e) => extension(p@) == Some(e@),
            None => extension(p@) is None,
        },
{
    let n = match crate::paths::file_name(&chars_of(p)) {
        Some(n) => n,
        None => return None,
    };
    let mut i: usize = n.len();
    assert(n@.take(n@.len() as int) =~= n@);
    while i > 0 && n[i - 1] != '.'
        invariant
            i <= n@.len(),
            last_dot(n@) == last_dot(n@.take(i as int)),
        decreases i,
    {
        assert(n@.take(i as int).drop_last() =~= n@.take(i - 1));
        i = i - 1;
    }
    proof {
        assert(n@.take(n@.len() as int) =~= n@);
    }
    if i == 0 {
        return None;
    }
    assert(n@.take(i as int).last() == '.');
    if i == 1 {
        return None;
    }
    let ext = crate::text::slice(&n, i, n.len());
    assert(ext@ =~= n@.skip(i as int));
    Some(string_from_chars(&ext))
}

/// The type shown for an entry (see `spec_type_label`).
pub fn type_label_for(name: &str, is_dir: bool) -> (r: String)
    ensures
        r@ == spec_type_label(name@, is_dir),
{
    if is_dir {
        return "Folder".to_owned();
    }
    match extension_of(name) {
        Some(ext) => {
            let up = to_uppercase(ext.as_str());
            let mut out = chars_of(up.as_str());
            append_str(&mut out, " File");
            string_from_chars(&out)
        },
        None => "File".to_owned(),
    }
}

/// The type shown for an entry.
pub fn type_label(entry: &FsEntry) -> (r: String)
    ensures
        r@ == spec_type_label(entry.name@, entry.is_dir),
{
    type_label_for(entry.name.as_str(), entry.is_dir)
}

// ---------------------------------------------------------------------------
// Permissions

/// One character per permission bit, owner then group then others, each
/// read, write, execute: the letter when the bit is set, `-` otherwise.
pub open spec fn spec_permission_string(mode: u32) -> Seq<char> {
    seq![
        if mode & 0o400 != 0 { 'r' } else { '-' },
        if mode & 0o200 != 0 { 'w' } else { '-' },
        if mode & 0o100 != 0 { 'x' } else { '-' },
        if mode & 0o040 != 0 { 'r' } else { '-' },
        if mode & 0o020 != 0 { 'w' } else { '-' },
        if mode & 0o010 != 0 { 'x' } else { '-' },
        if mode & 0o004 != 0 { 'r' } else { '-' },
        if mode & 0o002 != 0 { 'w' } else { '-' },
        if mode & 0o001 != 0 { 'x' } else { '-' },
    ]
}

/// The permission bits of `mode` as `rwxr-xr-x`.
pub fn permission_string(mode: u32) -> (r: String)
    ensures
        r@ == spec_permission_string(mode),
{
    let mut out: Vec<char> = Vec::new();
    out.push(if mode & 0o400 != 0 { 'r' } else { '-' });
    out.push(if mode & 0o200 != 0 { 'w' } else { '-' });
    out.push(if mode & 0o100 != 0 { 'x' } else { '-' });
    out.push(if mode & 0o040 != 0 { 'r' } else { '-' });
    out.push(if mode & 0o020 != 0 { 'w' } else { '-' });
    out.push(if mode & 0o010 != 0 { 'x' } else { '-' });
    out.push(if mode & 0o004 != 0 { 'r' } else { '-' });
    out.push(if mode & 0o002 != 0 { 'w' } else { '-' });
    out.push(if mode & 0o001 != 0 { 'x' } else { '-' });
    assert(out@ =~= spec_permission_string(mode));
    string_from_chars(&out)
}

pub open spec fn octal_digit(d: nat) -> char {
    if d == 0 {
        '0'
    } else if d == 1 {
        '1'
    } else if d == 2 {
        '2'
    } else if d == 3 {
        '3'
    } else if d == 4 {
        '4'
    } else if d == 5 {
        '5'
    } else if d == 6 {
        '6'
    } else {
        '7'
    }
}

/// `n` written in base 8, without leading zeros.
pub open spec fn octal(n: nat) -> Seq<char>
    decreases n,
{
    if n < 8 {
        seq![octal_digit(n)]
    } else {
        octal(n / 8).push(octal_digit(n % 8))
    }
}

fn octal_digit_of(d: u32) -> (c: char)
    requires
        d < 8,
    ensures
        c == octal_digit(d as nat),
{
    if d == 0 {
        '0'
    } else if d == 1 {
        '1'
    } else if d == 2 {
        '2'
    } else if d == 3 {
        '3'
    } else if d == 4 {
        '4'
    } else if d == 5 {
        '5'
    } else if d == 6 {
        '6'
    } else {
        '7'
    }
}

fn octal_of(n: u32) -> (r: Vec<char>)
    ensures
        r@ == octal(n as nat),
    decreases n,
{
    if n < 8 {
        let mut r: Vec<char> = Vec::new();
        r.push(octal_digit_of(n));
        r
    } else {
        let mut r = octal_of(n / 8);
        r.push(octal_digit_of(n % 8));
        r
    }
}

/// The permission bits of `mode` (and the set-id and sticky bits) in octal.
pub fn octal_permissions(mode: u32) -> (r: String)
    ensures
        r@ == octal((mode & 0o7777) as nat),
{
    string_from_chars(&octal_of(mode & 0o7777))
}

// ---------------------------------------------------------------------------
// Ordering

/// Three-way comparison of character sequences, character by character,
/// a proper prefix first (the order of `str`).
pub open spec fn seq_order(a: Seq<char>, b: Seq<char>) -> int
    decreases a.len(),
{
    if a.len() == 0 {
        if b.len() == 0 {
            0
        } else {
            -1
        }
    } else if b.len() == 0 {
        1
    } else if a[0] < b[0] {
        -1
    } else if a[0] > b[0] {
        1
    } else {
        seq_order(a.drop_first(), b.drop_first())
    }
}

/// Comparing two texts the other way round flips the result, and only
/// equal texts compare equal.
pub proof fn lemma_seq_order_antisym(a: Seq<char>, b: Seq<char>)
    ensures
        seq_order(a, b) == -seq_order(b, a),
        -1 <= seq_order(a, b) <= 1,
        seq_order(a, b) == 0 <==> a == b,
    decreases a.len(),
{
    if a.len() > 0 && b.len() > 0 && a[0] == b[0] {
        lemma_seq_order_antisym(a.drop_first(), b.drop_first());
        if a.drop_first() == b.drop_first() {
            assert(a =~= seq![a[0]] + a.drop_first());
            assert(b =~= seq![b[0]] + b.drop_first());
        }
    }
    if a.len() == 0 && b.len() == 0 {
        assert(a =~= b);
    }
}

/// The order of texts is transitive.
pub proof fn lemma_seq_order_trans(a: Seq<char>, b: Seq<char>, c: Seq<char>)
    requires
        seq_order(a, b) <= 0,
        seq_order(b, c) <= 0,
    ensures
        seq_order(a, c) <= 0,
    decreases a.len(),
{
    if a.len() > 0 && b.len() > 0 && c.len() > 0 && a[0] == b[0] && b[0] == c[0] {
        lemma_seq_order_trans(a.drop_first(), b.drop_first(), c.drop_first());
    }
}

pub open spec fn int_order(a: int, b: int) -> int {
    if a < b {
        -1
    } else if a > b {
        1
    } else {
        0
    }
}

/// Three-way comparison of modification times, an unknown one first (the
/// order of `Option`).
pub open spec fn modified_order(a: Option<i64>, b: Option<i64>) -> int {
    match (a, b) {
        (None, None) => 0,
        (None, Some(_)) => -1,
        (Some(_), None) => 1,
        (Some(x), Some(y)) => int_order(x as int, y as int),
    }
}

/// Three-way comparison by the sort column, ties broken by the lowercased
/// name.
pub open spec fn column_order(a: FsEntry, b: FsEntry, column: SortColumn) -> int {
    let by_name = seq_order(lowercase(a.name@), lowercase(b.name@));
    let primary = match column {
        SortColumn::Name => 0,
        SortColumn::Type => seq_order(
            spec_type_label(a.name@, a.is_dir),
            spec_type_label(b.name@, b.is_dir),
        ),
        SortColumn::Size => int_order(a.size as int, b.size as int),
        SortColumn::Modified => modified_order(a.modified, b.modified),
    };
    if primary != 0 {
        primary
    } else {
        by_name
    }
}

/// Three-way comparison of entries as the file list orders them: folders
/// before files, then by the sort column in the sort direction.
pub open spec fn entry_order(a: FsEntry, b: FsEntry, column: SortColumn, direction: SortDirection) -> int {
    if a.is_dir && !b.is_dir {
        -1
    } else if !a.is_dir && b.is_dir {
        1
    } else {
        match direction {
            SortDirection::Ascending => column_order(a, b, column),
            SortDirection::Descending => -column_order(a, b, column),
        }
    }
}

proof fn lemma_primary_props(a: FsEntry, b: FsEntry, c: FsEntry, column: SortColumn)
    ensures
        ({
            let p = |x: FsEntry, y: FsEntry|
                match column {
                    SortColumn::Name => 0,
                    SortColumn::Type => seq_order(
                        spec_type_label(x.name@, x.is_dir),
                        spec_type_label(y.name@, y.is_dir),
                    ),
                    SortColumn::Size => int_order(x.size as int, y.size as int),
                    SortColumn::Modified => modified_order(x.modified, y.modified),
                };
            &&& p(a, b) == -p(b, a)
            &&& (p(a, b) <= 0 && p(b, c) <= 0 ==> p(a, c) <= 0)
        }),
{
    let la = spec_type_label(a.name@, a.is_dir);
    let lb = spec_type_label(b.name@, b.is_dir);
    let lc = spec_type_label(c.name@, c.is_dir);
    lemma_seq_order_antisym(la, lb);
    lemma_seq_order_antisym(lb, lc);
    lemma_seq_order_antisym(la, lc);
    if seq_order(la, lb) <= 0 && seq_order(lb, lc) <= 0 {
        lemma_seq_order_trans(la, lb, lc);
    }
}

/// Comparing two entries by a column the other way round flips the result.
pub proof fn lemma_column_order_antisym(a: FsEntry, b: FsEntry, column: SortColumn)
    ensures
        column_order(a, b, column) == -column_order(b, a, column),
{
    lemma_primary_props(a, b, b, column);
    lemma_seq_order_antisym(lowercase(a.name@), lowercase(b.name@));
}

/// The order of entries by a column is transitive.
pub proof fn lemma_column_order_trans(a: FsEntry, b: FsEntry, c: FsEntry, column: SortColumn)
    requires
        column_order(a, b, column) <= 0,
        column_order(b, c, column) <= 0,
    ensures
        column_order(a, c, column) <= 0,
{
    lemma_primary_props(a, b, c, column);
    lemma_primary_props(b, c, a, column);
    lemma_primary_props(c, a, b, column);
    let na = lowercase(a.name@);
    let nb = lowercase(b.name@);
    let nc = lowercase(c.name@);
    lemma_seq_order_antisym(na, nb);
    lemma_seq_order_antisym(nb, nc);
    lemma_seq_order_antisym(na, nc);
    if seq_order(na, nb) <= 0 && seq_order(nb, nc) <= 0 {
        lemma_seq_order_trans(na, nb, nc);
    }
}

/// The order of the file list is antisymmetric.
pub proof fn lemma_entry_order_antisym(a: FsEntry, b: FsEntry, column: SortColumn, direction: SortDirection)
    ensures
        entry_order(a, b, column, direction) == -entry_order(b, a, column, direction),
{
    lemma_column_order_antisym(a, b, column);
}

/// The order of the file list is transitive.
pub proof fn lemma_entry_order_trans(
    a: FsEntry,
    b: FsEntry,
    c: FsEntry,
    column: SortColumn,
    direction: SortDirection,
)
    requires
        entry_order(a, b, column, direction) <= 0,
        entry_order(b, c, column, direction) <= 0,
    ensures
        entry_order(a, c, column, direction) <= 0,
{
    if a.is_dir == b.is_dir && b.is_dir == c.is_dir {
        match direction {
            SortDirection::Ascending => lemma_column_order_trans(a, b, c, column),
            SortDirection::Descending => {
                lemma_column_order_antisym(a, b, column);
                lemma_column_order_antisym(b, c, column);
                lemma_column_order_antisym(a, c, column);
                lemma_column_order_trans(c, b, a, column);
            },
        }
    }
}

/// Sorted for the file list: no entry is ordered before one that precedes
/// it.
pub open spec fn entries_sorted(s: Seq<FsEntry>, column: SortColumn, direction: SortDirection) -> bool {
    forall|i: int, j: int| 0 <= i < j < s.len() ==> entry_order(s[i], s[j], column, direction) <= 0
}

/// The order of texts is the lexicographic one: when `a` and `b` agree on
/// their first `i` characters, a text that ends there comes before a
/// longer one, and otherwise the character at `i` decides.
pub proof fn lemma_seq_order_lexicographic(a: Seq<char>, b: Seq<char>, i: int)
    requires
        0 <= i <= a.len(),
        i <= b.len(),
        a.take(i) == b.take(i),
    ensures
        (i == a.len() && i < b.len()) ==> seq_order(a, b) == -1,
        (i == a.len() && i == b.len()) ==> seq_order(a, b) == 0,
        (i < a.len() && i < b.len() && a[i] < b[i]) ==> seq_order(a, b) == -1,
        (i < a.len() && i < b.len() && a[i] > b[i]) ==> seq_order(a, b) == 1,
    decreases i,
{
    if i > 0 {
        assert(a[0] == a.take(i)[0]);
        assert(b[0] == b.take(i)[0]);
        assert(a.drop_first().take(i - 1) =~= a.take(i).drop_first());
        assert(b.drop_first().take(i - 1) =~= b.take(i).drop_first());
        lemma_seq_order_lexicographic(a.drop_first(), b.drop_first(), i - 1);
    } else if i == a.len() && i == b.len() {
        assert(a.len() == 0 && b.len() == 0);
    }
}

/// Whether modification time `a` is no later than `b`, an unknown time
/// counting as earliest.
pub open spec fn modified_no_later(a: Option<i64>, b: Option<i64>) -> bool {
    a is None || (b is Some && a->0 <= b->0)
}

/// What a sorted file list looks like: folders come before files; among
/// entries of the same kind the column's values rise (or fall, when
/// descending): type labels and lowercased names in text order, sizes,
/// and modification times with an unknown one first; and entries with the
/// same value of the column are in the order of their lowercased names.
pub proof fn lemma_sorted_listing(
    s: Seq<FsEntry>,
    column: SortColumn,
    direction: SortDirection,
    i: int,
    j: int,
)
    requires
        entries_sorted(s, column, direction),
        0 <= i < j < s.len(),
    ensures
        s[i].is_dir || !s[j].is_dir,
        ({
            let (a, b) = if direction == SortDirection::Ascending {
                (s[i], s[j])
            } else {
                (s[j], s[i])
            };
            let la = spec_type_label(a.name@, a.is_dir);
            let lb = spec_type_label(b.name@, b.is_dir);
            let by_name = seq_order(lowercase(a.name@), lowercase(b.name@)) <= 0;
            s[i].is_dir == s[j].is_dir ==> match column {
                SortColumn::Name => by_name,
                SortColumn::Type => seq_order(la, lb) <= 0 && (la == lb ==> by_name),
                SortColumn::Size => a.size <= b.size && (a.size == b.size ==> by_name),
                SortColumn::Modified => modified_no_later(a.modified, b.modified) && (a.modified
                    == b.modified ==> by_name),
            }
        }),
{
    assert(entry_order(s[i], s[j], column, direction) <= 0);
    let (a, b) = if direction == SortDirection::Ascending {
        (s[i], s[j])
    } else {
        (s[j], s[i])
    };
    lemma_seq_order_antisym(lowercase(a.name@), lowercase(b.name@));
    lemma_seq_order_antisym(spec_type_label(a.name@, a.is_dir), spec_type_label(b.name@, b.is_dir));
    if s[i].is_dir == s[j].is_dir {
        assert(column_order(a, b, column) <= 0) by {
            if direction == SortDirection::Descending {
                lemma_column_order_antisym(s[i], s[j], column);
            }
        }
    }
}

/// The entries of `s` that the file list ranks level with `x`, in their
/// order in `s`.
pub open spec fn ties_of(s: Seq<FsEntry>, x: FsEntry, column: SortColumn, direction: SortDirection) -> Seq<
    FsEntry,
> {
    s.filter(|y: FsEntry| entry_order(y, x, column, direction) == 0)
}

proof fn lemma_above_a_tie(a: FsEntry, b: FsEntry, c: FsEntry, column: SortColumn, direction: SortDirection)
    requires
        entry_order(a, b, column, direction) > 0,
        entry_order(b, c, column, direction) == 0,
    ensures
        entry_order(a, c, column, direction) > 0,
{
    lemma_entry_order_antisym(b, c, column, direction);
    if entry_order(a, c, column, direction) <= 0 {
        lemma_entry_order_trans(a, c, b, column, direction);
    }
}

proof fn lemma_ties_push(s: Seq<FsEntry>, e: FsEntry, x: FsEntry, column: SortColumn, direction: SortDirection)
    ensures
        ties_of(s.push(e), x, column, direction) == if entry_order(e, x, column, direction) == 0 {
            ties_of(s, x, column, direction).push(e)
        } else {
            ties_of(s, x, column, direction)
        },
{
    reveal(Seq::filter);
    assert(s.push(e).drop_last() =~= s);
}

proof fn lemma_ties_none(s: Seq<FsEntry>, x: FsEntry, column: SortColumn, direction: SortDirection)
    requires
        forall|j: int| 0 <= j < s.len() ==> entry_order(#[trigger] s[j], x, column, direction) != 0,
    ensures
        ties_of(s, x, column, direction) == Seq::<FsEntry>::empty(),
    decreases s.len(),
{
    reveal(Seq::filter);
    if s.len() > 0 {
        lemma_ties_none(s.drop_last(), x, column, direction);
    }
}

proof fn lemma_ties_insert(
    bs: Seq<FsEntry>,
    pos: int,
    e: FsEntry,
    x: FsEntry,
    column: SortColumn,
    direction: SortDirection,
)
    requires
        0 <= pos <= bs.len(),
        forall|j: int| pos <= j < bs.len() ==> entry_order(#[trigger] bs[j], e, column, direction) > 0,
    ensures
        ties_of(bs.insert(pos, e), x, column, direction) == if entry_order(e, x, column, direction) == 0 {
            ties_of(bs, x, column, direction).push(e)
        } else {
            ties_of(bs, x, column, direction)
        },
{
    let pred = |y: FsEntry| entry_order(y, x, column, direction) == 0;
    let front = bs.take(pos);
    let back = bs.skip(pos);
    assert(bs =~= front + back);
    assert(bs.insert(pos, e) =~= front.push(e) + back);
    Seq::filter_distributes_over_add(front, back, pred);
    Seq::filter_distributes_over_add(front.push(e), back, pred);
    lemma_ties_push(front, e, x, column, direction);
    if entry_order(e, x, column, direction) == 0 {
        assert forall|j: int| 0 <= j < back.len() implies entry_order(
            #[trigger] back[j],
            x,
            column,
            direction,
        ) != 0 by {
            assert(back[j] == bs[pos + j]);
            lemma_above_a_tie(back[j], e, x, column, direction);
        }
        lemma_ties_none(back, x, column, direction);
        assert(ties_of(back, x, column, direction) == back.filter(pred));
        assert(ties_of(bs.insert(pos, e), x, column, direction) =~= ties_of(bs, x, column, direction).push(e));
    } else {
        assert(ties_of(bs.insert(pos, e), x, column, direction) =~= ties_of(bs, x, column, direction));
    }
}

fn compare_chars(a: &Vec<char>, b: &Vec<char>) -> (r: i8)
    ensures
        r as int == seq_order(a@, b@),
{
    let mut i: usize = 0;
    assert(a@.skip(0) =~= a@);
    assert(b@.skip(0) =~= b@);
    while i < a.len() && i < b.len()
        invariant
            i <= a@.len(),
            i <= b@.len(),
            seq_order(a@, b@) == seq_order(a@.skip(i as int), b@.skip(i as int)),
        decreases a@.len() - i,
    {
        let x = a[i];
        let y = b[i];
        if x < y {
            return -1;
        }
        if x > y {
            return 1;
        }
        assert(a@.skip(i as int).drop_first() =~= a@.skip(i + 1));
        assert(b@.skip(i as int).drop_first() =~= b@.skip(i + 1));
        i = i + 1;
    }
    if i < a.len() {
        1
    } else if i < b.len() {
        -1
    } else {
        0
    }
}

fn compare_u64(a: u64, b: u64) -> (r: i8)
    ensures
        r as int == int_order(a as int, b as int),
{
    if a < b {
        -1
    } else if a > b {
        1
    } else {
        0
    }
}

fn compare_modified(a: Option<i64>, b: Option<i64>) -> (r: i8)
    ensures
        r as int == modified_order(a, b),
{
    match (a, b) {
        (None, None) => 0,
        (None, Some(_)) => -1,
        (Some(_), None) => 1,
        (Some(x), Some(y)) => if x < y {
            -1
        } else if x > y {
            1
        } else {
            0
        },
    }
}

/// An entry with what the comparison needs computed once.
struct Keyed {
    entry: FsEntry,
    lower_name: Vec<char>,
    label: Vec<char>,
}

spec fn keyed_ok(k: Keyed) -> bool {
    &&& k.lower_name@ == lowercase(k.entry.name@)
    &&& k.label@ == spec_type_label(k.entry.name@, k.entry.is_dir)
}

fn keyed(entry: FsEntry) -> (k: Keyed)
    ensures
        keyed_ok(k),
        k.entry == entry,
{
    let lower_name = chars_of(to_lowercase(entry.name.as_str()).as_str());
    let label = chars_of(type_label(&entry).as_str());
    Keyed { entry, lower_name, label }
}

fn compare_keyed(a: &Keyed, b: &Keyed, column: SortColumn, direction: SortDirection) -> (r: i8)
    requires
        keyed_ok(*a),
        keyed_ok(*b),
    ensures
        r as int == entry_order(a.entry, b.entry, column, direction),
{
    if a.entry.is_dir && !b.entry.is_dir {
        return -1;
    }
    if !a.entry.is_dir && b.entry.is_dir {
        return 1;
    }
    let primary: i8 = match column {
        SortColumn::Name => 0,
        SortColumn::Type => compare_chars(&a.label, &b.label),
        SortColumn::Size => compare_u64(a.entry.size, b.entry.size),
        SortColumn::Modified => compare_modified(a.entry.modified, b.entry.modified),
    };
    let c: i8 = if primary != 0 {
        primary
    } else {
        compare_chars(&a.lower_name, &b.lower_name)
    };
    proof {
        lemma_seq_order_antisym(a.lower_name@, b.lower_name@);
        lemma_seq_order_antisym(a.label@, b.label@);
    }
    match direction {
        SortDirection::Ascending => c,
        SortDirection::Descending => -c,
    }
}

spec fn keyed_entries(s: Seq<Keyed>) -> Seq<FsEntry> {
    s.map_values(|k: Keyed| k.entry)
}

proof fn lemma_insert_to_multiset(s: Seq<FsEntry>, pos: int, e: FsEntry)
    requires
        0 <= pos <= s.len(),
    ensures
        s.insert(pos, e).to_multiset() == s.to_multiset().insert(e),
{
    let t = s.insert(pos, e);
    assert(t.remove(pos) =~= s);
    vstd::seq_lib::to_multiset_remove(t, pos);
    t.to_multiset_ensures();
    assert(t[pos] == e);
    assert(t.contains(e));
    assert(t.to_multiset() =~= s.to_multiset().insert(e));
}

proof fn lemma_insert_sorted(bs: Seq<FsEntry>, pos: int, e: FsEntry, column: SortColumn, direction: SortDirection)
    requires
        0 <= pos <= bs.len(),
        entries_sorted(bs, column, direction),
        forall|j: int| 0 <= j < pos ==> entry_order(#[trigger] bs[j], e, column, direction) <= 0,
        forall|j: int| pos <= j < bs.len() ==> entry_order(e, #[trigger] bs[j], column, direction) <= 0,
    ensures
        entries_sorted(bs.insert(pos, e), column, direction),
{
    let ns = bs.insert(pos, e);
    assert forall|i: int, j: int| 0 <= i < j < ns.len() implies entry_order(
        ns[i],
        ns[j],
        column,
        direction,
    ) <= 0 by {
        if j == pos {
            assert(ns[i] == bs[i]);
        } else if i == pos {
            assert(ns[j] == bs[j - 1]);
        } else if j < pos {
            assert(ns[i] == bs[i]);
            assert(ns[j] == bs[j]);
        } else if i < pos {
            assert(ns[i] == bs[i]);
            assert(ns[j] == bs[j - 1]);
        } else {
            assert(ns[i] == bs[i - 1]);
            assert(ns[j] == bs[j - 1]);
        }
    }
}

fn insert_keyed(sorted: &mut Vec<Keyed>, e: Keyed, column: SortColumn, direction: SortDirection)
    requires
        keyed_ok(e),
        forall|j: int| 0 <= j < old(sorted)@.len() ==> keyed_ok(#[trigger] old(sorted)@[j]),
        entries_sorted(keyed_entries(old(sorted)@), column, direction),
    ensures
        forall|j: int| 0 <= j < final(sorted)@.len() ==> keyed_ok(#[trigger] final(sorted)@[j]),
        entries_sorted(keyed_entries(final(sorted)@), column, direction),
        keyed_entries(final(sorted)@).to_multiset() == keyed_entries(old(sorted)@).to_multiset().insert(
            e.entry,
        ),
        forall|x: FsEntry|
            #[trigger] ties_of(keyed_entries(final(sorted)@), x, column, direction) == if entry_order(
                e.entry,
                x,
                column,
                direction,
            ) == 0 {
                ties_of(keyed_entries(old(sorted)@), x, column, direction).push(e.entry)
            } else {
                ties_of(keyed_entries(old(sorted)@), x, column, direction)
            },
{
    let mut pos: usize = sorted.len();
    while pos > 0 && compare_keyed(&sorted[pos - 1], &e, column, direction) > 0
        invariant
            pos <= sorted@.len(),
            keyed_ok(e),
            forall|j: int| 0 <= j < sorted@.len() ==> keyed_ok(#[trigger] sorted@[j]),
            forall|j: int|
                pos <= j < sorted@.len() ==> entry_order(
                    #[trigger] sorted@[j].entry,
                    e.entry,
                    column,
                    direction,
                ) > 0,
        decreases pos,
    {
        pos = pos - 1;
    }
    let ghost before = sorted@;
    let ghost ee = e.entry;
    proof {
        let bs = keyed_entries(before);
        assert forall|j: int| 0 <= j < pos implies entry_order(
            #[trigger] bs[j],
            ee,
            column,
            direction,
        ) <= 0 by {
            if j < pos - 1 {
                lemma_entry_order_trans(bs[j], bs[pos - 1], ee, column, direction);
            }
        }
        assert forall|j: int| pos <= j < bs.len() implies entry_order(
            ee,
            #[trigger] bs[j],
            column,
            direction,
        ) <= 0 by {
            assert(bs[j] == before[j].entry);
            lemma_entry_order_antisym(ee, bs[j], column, direction);
        }
        lemma_insert_sorted(bs, pos as int, ee, column, direction);
        lemma_insert_to_multiset(bs, pos as int, ee);
    }
    sorted.insert(pos, e);
    proof {
        let bs = keyed_entries(before);
        assert(keyed_entries(sorted@) =~= bs.insert(pos as int, ee));
        assert forall|j: int| pos <= j < bs.len() implies entry_order(
            #[trigger] bs[j],
            ee,
            column,
            direction,
        ) > 0 by {
            assert(bs[j] == before[j].entry);
        }
        assert forall|x: FsEntry|
            #[trigger] ties_of(keyed_entries(sorted@), x, column, direction) == if entry_order(
                ee,
                x,
                column,
                direction,
            ) == 0 {
                ties_of(bs, x, column, direction).push(ee)
            } else {
                ties_of(bs, x, column, direction)
            } by {
            lemma_ties_insert(bs, pos as int, ee, x, column, direction);
        }
    }
}

/// Orders the entries for the file list: folders first, then by the sort
/// column in the sort direction, ties by lowercased name; entries that
/// compare equal keep their order.
pub fn sort_entries(entries: &mut Vec<FsEntry>, column: SortColumn, direction: SortDirection)
    ensures
        final(entries)@.to_multiset() == old(entries)@.to_multiset(),
        entries_sorted(final(entries)@, column, direction),
        forall|x: FsEntry|
            #[trigger] ties_of(final(entries)@, x, column, direction) == ties_of(
                old(entries)@,
                x,
                column,
                direction,
            ),
{
    let ghost orig = entries@;
    let mut sorted: Vec<Keyed> = Vec::new();
    proof {
        assert(orig.take(0) =~= Seq::<FsEntry>::empty());
        assert(keyed_entries(sorted@) =~= Seq::<FsEntry>::empty());
    }
    let mut k: usize = 0;
    let n = entries.len();
    while k < n
        invariant
            n == orig.len(),
            entries@ == orig,
            k <= n,
            forall|j: int| 0 <= j < sorted@.len() ==> keyed_ok(#[trigger] sorted@[j]),
            keyed_entries(sorted@).to_multiset() == orig.take(k as int).to_multiset(),
            entries_sorted(keyed_entries(sorted@), column, direction),
            forall|x: FsEntry|
                #[trigger] ties_of(keyed_entries(sorted@), x, column, direction) == ties_of(
                    orig.take(k as int),
                    x,
                    column,
                    direction,
                ),
        decreases n - k,
    {
        let e = keyed(entries[k].duplicate());
        let ghost before = sorted@;
        insert_keyed(&mut sorted, e, column, direction);
        proof {
            assert(orig.take(k + 1) =~= orig.take(k as int).push(orig[k as int]));
            vstd::seq_lib::to_multiset_build(orig.take(k as int), orig[k as int]);
            assert forall|x: FsEntry|
                #[trigger] ties_of(keyed_entries(sorted@), x, column, direction) == ties_of(
                    orig.take(k + 1),
                    x,
                    column,
                    direction,
                ) by {
                lemma_ties_push(orig.take(k as int), orig[k as int], x, column, direction);
                assert(ties_of(keyed_entries(before), x, column, direction) == ties_of(
                    orig.take(k as int),
                    x,
                    column,
                    direction,
                ));
            }
        }
        k = k + 1;
    }
    proof {
        assert(orig.take(n as int) =~= orig);
    }
    let ghost ks = keyed_entries(sorted@);
    let mut out: Vec<FsEntry> = Vec::new();
    let mut rest = sorted;
    let mut i: usize = 0;
    let m = rest.len();
    while i < m
        invariant
            m == ks.len(),
            i <= m,
            rest@.len() == m - i,
            forall|j: int| 0 <= j < rest@.len() ==> #[trigger] rest@[j].entry == ks[i + j],
            out@ == ks.take(i as int),
        decreases m - i,
    {
        let kd = rest.remove(0);
        assert(kd.entry == ks[i as int]);
        out.push(kd.entry);
        assert(ks.take(i + 1) =~= ks.take(i as int).push(ks[i as int]));
        i = i + 1;
    }
    assert(ks.take(m as int) =~= ks);
    *entries = out;
}

/// Whether a listing shows an entry: hidden ones (name starting with `.`)
/// only on request.
pub open spec fn is_shown(e: FsEntry, show_hidden: bool) -> bool {
    show_hidden || !(e.name@.len() > 0 && e.name@[0] == '.')
}

/// The entries a listing shows, in their order.
pub open spec fn shown_entries(s: Seq<FsEntry>, show_hidden: bool) -> Seq<FsEntry>
    decreases s.len(),
{
    if s.len() == 0 {
        Seq::empty()
    } else {
        let prev = shown_entries(s.drop_last(), show_hidden);
        if is_shown(s.last(), show_hidden) {
            prev.push(s.last())
        } else {
            prev
        }
    }
}

/// A directory listing as the file list first shows it: hidden entries
/// left out unless requested, folders first, then by lowercased name.
pub fn listing_sorted(entries: Vec<FsEntry>, show_hidden: bool) -> (r: Vec<FsEntry>)
    ensures
        r@.to_multiset() == shown_entries(entries@, show_hidden).to_multiset(),
        entries_sorted(r@, SortColumn::Name, SortDirection::Ascending),
        forall|x: FsEntry|
            #[trigger] ties_of(r@, x, SortColumn::Name, SortDirection::Ascending) == ties_of(
                shown_entries(entries@, show_hidden),
                x,
                SortColumn::Name,
                SortDirection::Ascending,
            ),
{
    let mut kept: Vec<FsEntry> = Vec::new();
    let mut k: usize = 0;
    assert(entries@.take(0) =~= Seq::<FsEntry>::empty());
    while k < entries.len()
        invariant
            k <= entries@.len(),
            kept@ == shown_entries(entries@.take(k as int), show_hidden),
        decreases entries@.len() - k,
    {
        let e = entries[k].duplicate();
        assert(entries@.take(k + 1).drop_last() =~= entries@.take(k as int));
        assert(entries@.take(k + 1).last() == e);
        let name = chars_of(e.name.as_str());
        if show_hidden || !(name.len() > 0 && name[0] == '.') {
            kept.push(e);
        }
        k = k + 1;
    }
    assert(entries@.take(entries@.len() as int) =~= entries@);
    sort_entries(&mut kept, SortColumn::Name, SortDirection::Ascending);
    kept
}

} // verus!
