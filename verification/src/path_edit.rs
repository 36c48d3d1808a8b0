//! Editing the path bar: which folders are suggested while typing, moving
//! through the suggestions, and where committing the text leads.
use vstd::prelude::*;

use crate::entry::{lemma_seq_order_antisym, lemma_seq_order_trans, seq_order};
use crate::paths::{file_name, join, parent, path_file_name, path_join, path_parent};
use crate::text::{
    append_str, chars_of, is_prefix, lowercase, starts_with, string_from_chars, to_lowercase,
    trim, trim_chars,
};

verus! {

/// How many folders the path bar suggests at most.
pub const MAX_PATH_SUGGESTIONS: usize = 8;

/// Where suggestions for the typed text come from, and what their names
/// must start with: an empty text or one ending in `/` lists that folder
/// with no prefix; otherwise the parent lists names starting with the last
/// component (the root for a bare name); the root with no prefix when the
/// text has no parent or no name.
pub open spec fn spec_completion_query(text: Seq<char>) -> (Seq<char>, Seq<char>) {
    if text.len() == 0 || text.last() == '/' {
        (text, Seq::empty())
    } else {
        match (path_parent(text), path_file_name(text)) {
            (Some(p), Some(n)) => (
                if p.len() == 0 {
                    seq!['/']
                } else {
                    p
                },
                n,
            ),
            _ => (seq!['/'], Seq::empty()),
        }
    }
}

/// Where suggestions for the typed text come from, and the name prefix.
pub fn completion_query(text: &str) -> (r: (String, String))
    ensures
        (r.0@, r.1@) == spec_completion_query(text@),
{
    let t = chars_of(text);
    if t.len() == 0 || t[t.len() - 1] == '/' {
        return (string_from_chars(&t), String::new());
    }
    match (parent(&t), file_name(&t)) {
        (Some(p), Some(n)) => {
            let dir = if p.len() == 0 {
                let mut root: Vec<char> = Vec::new();
                root.push('/');
                assert(root@ =~= seq!['/']);
                root
            } else {
                p
            };
            (string_from_chars(&dir), string_from_chars(&n))
        },
        _ => {
            let mut root: Vec<char> = Vec::new();
            root.push('/');
            assert(root@ =~= seq!['/']);
            (string_from_chars(&root), String::new())
        },
    }
}

/// Whether a folder's name is suggested for the prefix: any name for an
/// empty prefix, else one whose lowercase form starts with the lowercase
/// prefix.
pub open spec fn name_matches(name: Seq<char>, prefix: Seq<char>) -> bool {
    prefix.len() == 0 || is_prefix(lowercase(prefix), lowercase(name))
}

/// The names of the folders among `entries` (name, is a folder) that
/// match the prefix, in order.
pub open spec fn matching_names(entries: Seq<(Seq<char>, bool)>, prefix: Seq<char>) -> Seq<Seq<char>>
    decreases entries.len(),
{
    if entries.len() == 0 {
        Seq::empty()
    } else {
        let prev = matching_names(entries.drop_last(), prefix);
        let (n, is_dir) = entries.last();
        if is_dir && name_matches(n, prefix) {
            prev.push(n)
        } else {
            prev
        }
    }
}

pub open spec fn names_sorted(s: Seq<Seq<char>>) -> bool {
    forall|i: int, j: int| 0 <= i < j < s.len() ==> seq_order(s[i], s[j]) <= 0
}

pub open spec fn entries_view(v: Seq<(String, bool)>) -> Seq<(Seq<char>, bool)> {
    v.map_values(|e: (String, bool)| (e.0@, e.1))
}

proof fn lemma_insert_names_sorted(bs: Seq<Seq<char>>, pos: int, e: Seq<char>)
    requires
        0 <= pos <= bs.len(),
        names_sorted(bs),
        forall|j: int| 0 <= j < pos ==> seq_order(#[trigger] bs[j], e) <= 0,
        forall|j: int| pos <= j < bs.len() ==> seq_order(e, #[trigger] bs[j]) <= 0,
    ensures
        names_sorted(bs.insert(pos, e)),
{
    let ns = bs.insert(pos, e);
    assert forall|i: int, j: int| 0 <= i < j < ns.len() implies seq_order(ns[i], ns[j]) <= 0 by {
        if j == pos {
            assert(ns[i] == bs[i]);
        } else if i == pos {
            assert(ns[j] == bs[j - 1]);
        } else if j < pos {
            assert(ns[i] == bs[i]);
            assert(ns[j] == bs[j]);
        } else if i < pos {
            assert(ns[i] == bs[i]);
            assert(ns[j] == bs[j - 1]);
        } else {
            assert(ns[i] == bs[i - 1]);
            assert(ns[j] == bs[j - 1]);
        }
    }
}

proof fn lemma_insert_names_multiset(s: Seq<Seq<char>>, pos: int, e: Seq<char>)
    requires
        0 <= pos <= s.len(),
    ensures
        s.insert(pos, e).to_multiset() == s.to_multiset().insert(e),
{
    let t = s.insert(pos, e);
    assert(t.remove(pos) =~= s);
    vstd::seq_lib::to_multiset_remove(t, pos);
    t.to_multiset_ensures();
    assert(t[pos] == e);
    assert(t.contains(e));
    assert(t.to_multiset() =~= s.to_multiset().insert(e));
}

fn compare_names(a: &Vec<char>, b: &Vec<char>) -> (r: i8)
    ensures
        r as int == seq_order(a@, b@),
{
    let mut i: usize = 0;
    assert(a@.skip(0) =~= a@);
    assert(b@.skip(0) =~= b@);
    while i < a.len() && i < b.len()
        invariant
            i <= a@.len(),
            i <= b@.len(),
            seq_order(a@, b@) == seq_order(a@.skip(i as int), b@.skip(i as int)),
        decreases a@.len() - i,
    {
        if a[i] < b[i] {
            return -1;
        }
        if a[i] > b[i] {
            return 1;
        }
        assert(a@.skip(i as int).drop_first() =~= a@.skip(i + 1));
        assert(b@.skip(i as int).drop_first() =~= b@.skip(i + 1));
        i = i + 1;
    }
    if i < a.len() {
        1
    } else if i < b.len() {
        -1
    } else {
        0
    }
}

fn insert_name(sorted: &mut Vec<Vec<char>>, e: Vec<char>)
    requires
        names_sorted(old(sorted)@.map_values(|v: Vec<char>| v@)),
    ensures
        names_sorted(final(sorted)@.map_values(|v: Vec<char>| v@)),
        final(sorted)@.map_values(|v: Vec<char>| v@).to_multiset() == old(sorted)@.map_values(
            |v: Vec<char>| v@,
        ).to_multiset().insert(e@),
{
    let ghost bs = sorted@.map_values(|v: Vec<char>| v@);
    let mut pos: usize = sorted.len();
    while pos > 0 && compare_names(&sorted[pos - 1], &e) > 0
        invariant
            pos <= sorted@.len(),
            bs == sorted@.map_values(|v: Vec<char>| v@),
            forall|j: int| pos <= j < bs.len() ==> seq_order(#[trigger] bs[j], e@) > 0,
        decreases pos,
    {
        pos = pos - 1;
    }
    proof {
        assert forall|j: int| 0 <= j < pos implies seq_order(#[trigger] bs[j], e@) <= 0 by {
            if j < pos - 1 {
                lemma_seq_order_trans(bs[j], bs[pos - 1], e@);
            }
        }
        assert forall|j: int| pos <= j < bs.len() implies seq_order(e@, #[trigger] bs[j]) <= 0 by {
            lemma_seq_order_antisym(e@, bs[j]);
        }
        lemma_insert_names_sorted(bs, pos as int, e@);
        lemma_insert_names_multiset(bs, pos as int, e@);
    }
    let ghost ev = e@;
    sorted.insert(pos, e);
    assert(sorted@.map_values(|v: Vec<char>| v@) =~= bs.insert(pos as int, ev));
}

/// The folders suggested for the typed text, given the entries of the
/// folder it lists (name, is a folder): the matching folders sorted by
/// name, at most `MAX_PATH_SUGGESTIONS` of them, as paths in that folder.
pub fn path_completions(dir: &str, prefix: &str, entries: &Vec<(String, bool)>) -> (r: Vec<String>)
    ensures
        ({
            let m = matching_names(entries_view(entries@), prefix@);
            exists|s: Seq<Seq<char>>|
                {
                    &&& s.to_multiset() == m.to_multiset()
                    &&& names_sorted(s)
                    &&& r@.len() == (if s.len() < MAX_PATH_SUGGESTIONS {
                        s.len() as int
                    } else {
                        MAX_PATH_SUGGESTIONS as int
                    })
                    &&& forall|i: int| 0 <= i < r@.len() ==> #[trigger] r@[i]@ == path_join(dir@, s[i])
                }
        }),
{
    let ghost ev = entries_view(entries@);
    let pre = chars_of(prefix);
    let pre_lower = chars_of(to_lowercase(prefix).as_str());
    let mut sorted: Vec<Vec<char>> = Vec::new();
    let mut k: usize = 0;
    assert(ev.take(0) =~= Seq::<(Seq<char>, bool)>::empty());
    assert(sorted@.map_values(|v: Vec<char>| v@) =~= Seq::<Seq<char>>::empty());
    while k < entries.len()
        invariant
            ev == entries_view(entries@),
            pre@ == prefix@,
            pre_lower@ == lowercase(prefix@),
            k <= entries@.len(),
            names_sorted(sorted@.map_values(|v: Vec<char>| v@)),
            sorted@.map_values(|v: Vec<char>| v@).to_multiset() == matching_names(
                ev.take(k as int),
                prefix@,
            ).to_multiset(),
        decreases entries@.len() - k,
    {
        let (name, is_dir) = (&entries[k].0, entries[k].1);
        proof {
            assert(ev.take(k + 1).drop_last() =~= ev.take(k as int));
            assert(ev.take(k + 1).last() == (name@, is_dir));
        }
        let matches = is_dir && (pre.len() == 0 || starts_with(
            &chars_of(to_lowercase(name.as_str()).as_str()),
            &pre_lower,
        ));
        if matches {
            let ghost before = matching_names(ev.take(k as int), prefix@);
            insert_name(&mut sorted, chars_of(name.as_str()));
            proof {
                vstd::seq_lib::to_multiset_build(before, name@);
            }
        }
        k = k + 1;
    }
    assert(ev.take(entries@.len() as int) =~= ev);
    let ghost s = sorted@.map_values(|v: Vec<char>| v@);
    let d = chars_of(dir);
    let mut r: Vec<String> = Vec::new();
    let mut i: usize = 0;
    while i < sorted.len() && i < MAX_PATH_SUGGESTIONS
        invariant
            s == sorted@.map_values(|v: Vec<char>| v@),
            d@ == dir@,
            i <= sorted@.len(),
            i <= MAX_PATH_SUGGESTIONS,
            r@.len() == i,
            forall|j: int| 0 <= j < i ==> #[trigger] r@[j]@ == path_join(dir@, s[j]),
        decreases sorted@.len() - i,
    {
        r.push(string_from_chars(&join(&d, &sorted[i])));
        i = i + 1;
    }
    r
}

/// Where committing the path bar leads.
#[derive(Debug, PartialEq, Eq)]
pub enum PathEditTarget {
    /// The selected suggestion.
    Suggestion(String),
    /// The trash.
    Trash,
    /// The typed path (trimmed), if it is a folder.
    Typed(String),
}

/// Where committing the path bar leads: the selected suggestion if there
/// is one, the trash for its virtual path, else the typed path trimmed.
pub fn commit_target(selected_suggestion: Option<String>, text: &str) -> (r: PathEditTarget)
    ensures
        match selected_suggestion {
            Some(s) => r == PathEditTarget::Suggestion(s),
            None => if trim(text@) == ":trash"@ {
                r == PathEditTarget::Trash
            } else {
                r matches PathEditTarget::Typed(p) && p@ == trim(text@)
            },
        },
{
    match selected_suggestion {
        Some(s) => PathEditTarget::Suggestion(s),
        None => {
            let t = string_from_chars(&trim_chars(&chars_of(text)));
            if crate::navigation::is_trash_path(t.as_str()) {
                PathEditTarget::Trash
            } else {
                PathEditTarget::Typed(t)
            }
        },
    }
}

/// What is reported when the typed path is not a folder.
pub fn not_a_directory_message(path: &str) -> (m: String)
    ensures
        m@ == "Not a directory: "@ + path@,
{
    let mut out = chars_of("Not a directory: ");
    append_str(&mut out, path);
    string_from_chars(&out)
}

/// The text that completing a suggestion puts in the path bar: the
/// selected suggestion, or the first, followed by `/`; nothing without
/// suggestions.
pub fn completion_text(suggestions: &Vec<String>, selected: Option<usize>) -> (r: Option<String>)
    ensures
        ({
            let chosen: Option<int> = match selected {
                Some(ix) => if ix < suggestions@.len() {
                    Some(ix as int)
                } else if suggestions@.len() > 0 {
                    Some(0)
                } else {
                    None
                },
                None => if suggestions@.len() > 0 {
                    Some(0)
                } else {
                    None
                },
            };
            match chosen {
                Some(i) => r matches Some(t) && t@ == suggestions@[i]@.push('/'),
                None => r is None,
            }
        }),
{
    let ix = match selected {
        Some(ix) => if ix < suggestions.len() {
            ix
        } else if suggestions.len() > 0 {
            0
        } else {
            return None;
        },
        None => if suggestions.len() > 0 {
            0
        } else {
            return None;
        },
    };
    let mut out = chars_of(suggestions[ix].as_str());
    out.push('/');
    Some(string_from_chars(&out))
}

/// The suggestion selected after moving down: the next one, wrapping to
/// the first; the first when none was selected. Without suggestions the
/// selection stays as it is.
pub open spec fn spec_next_suggestion(selected: Option<usize>, len: nat) -> Option<usize> {
    if len == 0 {
        selected
    } else {
        match selected {
            Some(ix) => Some(((ix + 1) % (len as int)) as usize),
            None => Some(0),
        }
    }
}

/// The suggestion selected after moving up: the previous one, wrapping to
/// the last; the last when none was selected. Without suggestions the
/// selection stays as it is.
pub open spec fn spec_prev_suggestion(selected: Option<usize>, len: nat) -> Option<usize> {
    if len == 0 {
        selected
    } else {
        match selected {
            Some(ix) => if ix == 0 {
                Some((len - 1) as usize)
            } else {
                Some((ix - 1) as usize)
            },
            None => Some((len - 1) as usize),
        }
    }
}

/// Moves the suggestion selection down (see `spec_next_suggestion`).
pub fn next_suggestion(selected: Option<usize>, len: usize) -> (r: Option<usize>)
    ensures
        r == spec_next_suggestion(selected, len as nat),
{
    if len == 0 {
        return selected;
    }
    match selected {
        Some(ix) => {
            let next = if ix < len {
                if ix + 1 == len { 0 } else { ix + 1 }
            } else {
                (ix % len + 1) % len
            };
            proof {
                if ix < len {
                    if ix + 1 == len {
                        assert((ix + 1) % (len as int) == 0) by (nonlinear_arith)
                            requires ix + 1 == len, len > 0;
                    } else {
                        assert((ix + 1) % (len as int) == ix + 1) by (nonlinear_arith)
                            requires ix + 1 < len;
                    }
                } else {
                    lemma_mod_succ(ix as int, len as int);
                }
            }
            Some(next)
        },
        None => Some(0),
    }
}

proof fn lemma_mod_succ(x: int, n: int)
    requires
        x >= 0,
        n > 0,
    ensures
        (x + 1) % n == (x % n + 1) % n,
{
    if n == 1 {
        assert((x + 1) % n == 0 && (x % n + 1) % n == 0) by (nonlinear_arith)
            requires n == 1;
    } else {
        vstd::arithmetic::div_mod::lemma_add_mod_noop(x, 1, n);
        vstd::arithmetic::div_mod::lemma_small_mod(1, n as nat);
    }
}

/// Moves the suggestion selection up (see `spec_prev_suggestion`).
pub fn prev_suggestion(selected: Option<usize>, len: usize) -> (r: Option<usize>)
    ensures
        r == spec_prev_suggestion(selected, len as nat),
{
    if len == 0 {
        return selected;
    }
    match selected {
        Some(ix) => if ix == 0 {
            Some(len - 1)
        } else {
            Some(ix - 1)
        },
        None => Some(len - 1),
    }
}

/// Moving down and then up returns to a selected suggestion.
pub proof fn lemma_next_then_prev_suggestion(ix: usize, len: usize)
    requires
        ix < len,
    ensures
        spec_prev_suggestion(spec_next_suggestion(Some(ix), len as nat), len as nat) == Some(ix),
{
    if ix + 1 == len {
        assert((ix + 1) % (len as int) == 0) by (nonlinear_arith)
            requires ix + 1 == len, len > 0;
    } else {
        assert((ix + 1) % (len as int) == ix + 1) by (nonlinear_arith)
            requires ix + 1 < len;
    }
}

/// Moving up and then down returns to a selected suggestion.
pub proof fn lemma_prev_then_next_suggestion(ix: usize, len: usize)
    requires
        ix < len,
    ensures
        spec_next_suggestion(spec_prev_suggestion(Some(ix), len as nat), len as nat) == Some(ix),
{
    if ix == 0 {
        assert(len as int % (len as int) == 0) by (nonlinear_arith)
            requires len > 0;
    } else {
        assert(ix as int % (len as int) == ix) by (nonlinear_arith)
            requires ix < len;
    }
}

} // verus!
