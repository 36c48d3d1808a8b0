//! The files bundled with the program, looked up by path.
use vstd::prelude::*;
use vstd::utf8::{decode_utf8, valid_utf8};

use crate::entry::{lemma_seq_order_antisym, lemma_seq_order_trans, seq_order};
use crate::text::{chars_of, is_prefix, str_eq, string_from_chars};

verus! {

/// The bundled files: each path with its bytes, each path once.
pub struct Assets {
    pub files: Vec<(String, Vec<u8>)>,
}

pub open spec fn files_view(f: Seq<(String, Vec<u8>)>) -> Seq<(Seq<char>, Seq<u8>)> {
    f.map_values(|p: (String, Vec<u8>)| (p.0@, p.1@))
}

/// The bytes of the first bundled file with this path.
pub open spec fn find_asset(files: Seq<(Seq<char>, Seq<u8>)>, path: Seq<char>) -> Option<Seq<u8>>
    decreases files.len(),
{
    if files.len() == 0 {
        None
    } else if files[0].0 == path {
        Some(files[0].1)
    } else {
        find_asset(files.drop_first(), path)
    }
}

/// `String::from_utf8`.
#[verifier::external_body]
fn string_from_utf8(bytes: Vec<u8>) -> (r: Option<String>)
    ensures
        r is Some <==> valid_utf8(bytes@),
        r matches Some(s) ==> s@ == decode_utf8(bytes@),
{
    String::from_utf8(bytes).ok()
}

/// The first piece of `path` after `prefix/`, if it lies under it.
pub open spec fn child_name(path: Seq<char>, prefix: Seq<char>) -> Option<Seq<char>> {
    if is_prefix(prefix, path) && path.len() > prefix.len() && path[prefix.len() as int] == '/' {
        let rest = path.skip((prefix.len() + 1) as int);
        Some(crate::text::split_on(rest, seq!['/'])[0])
    } else {
        None
    }
}

/// `prefix` without one trailing `/`.
pub open spec fn without_trailing_slash(p: Seq<char>) -> Seq<char> {
    if p.len() > 0 && p.last() == '/' {
        p.drop_last()
    } else {
        p
    }
}

/// The texts of a list of character vectors.
pub open spec fn vecs_view(s: Seq<Vec<char>>) -> Seq<Seq<char>> {
    s.map_values(|v: Vec<char>| v@)
}

/// The texts of a list of strings.
pub open spec fn strings_view(s: Seq<String>) -> Seq<Seq<char>> {
    s.map_values(|n: String| n@)
}

/// Strictly increasing: sorted, with no name twice.
pub open spec fn strictly_sorted(s: Seq<Seq<char>>) -> bool {
    forall|i: int, j: int| 0 <= i < j < s.len() ==> seq_order(s[i], s[j]) < 0
}

fn compare(a: &Vec<char>, b: &Vec<char>) -> (r: i8)
    ensures
        r as int == seq_order(a@, b@),
{
    let mut i: usize = 0;
    assert(a@.skip(0) =~= a@);
    assert(b@.skip(0) =~= b@);
    while i < a.len() && i < b.len()
        invariant
            i <= a@.len(),
            i <= b@.len(),
            seq_order(a@, b@) == seq_order(a@.skip(i as int), b@.skip(i as int)),
        decreases a@.len() - i,
    {
        if a[i] < b[i] {
            return -1;
        }
        if a[i] > b[i] {
            return 1;
        }
        assert(a@.skip(i as int).drop_first() =~= a@.skip(i + 1));
        assert(b@.skip(i as int).drop_first() =~= b@.skip(i + 1));
        i = i + 1;
    }
    if i < a.len() {
        1
    } else if i < b.len() {
        -1
    } else {
        0
    }
}

fn insert_unique(sorted: &mut Vec<Vec<char>>, e: Vec<char>)
    requires
        strictly_sorted(vecs_view(old(sorted)@)),
    ensures
        strictly_sorted(vecs_view(final(sorted)@)),
        vecs_view(final(sorted)@).to_set() == vecs_view(old(sorted)@).to_set().insert(e@),
{
    let ghost bs = vecs_view(sorted@);
    let mut pos: usize = 0;
    while pos < sorted.len() && compare(&sorted[pos], &e) < 0
        invariant
            pos <= sorted@.len(),
            bs == vecs_view(sorted@),
            forall|j: int| 0 <= j < pos ==> seq_order(#[trigger] bs[j], e@) < 0,
        decreases sorted@.len() - pos,
    {
        pos = pos + 1;
    }
    if pos < sorted.len() && compare(&sorted[pos], &e) == 0 {
        proof {
            lemma_seq_order_antisym(bs[pos as int], e@);
            assert(bs[pos as int] == e@);
            assert(bs.to_set().insert(e@) =~= bs.to_set());
        }
        return;
    }
    proof {
        if pos < bs.len() {
            lemma_seq_order_antisym(bs[pos as int], e@);
        }
        assert forall|j: int| pos < j < bs.len() implies seq_order(e@, #[trigger] bs[j]) < 0 by {
            lemma_seq_order_antisym(bs[pos as int], e@);
            lemma_seq_order_trans(e@, bs[pos as int], bs[j]);
            if seq_order(e@, bs[j]) == 0 {
                lemma_seq_order_antisym(e@, bs[j]);
                assert(e@ == bs[j]);
                assert(seq_order(bs[pos as int], bs[j]) < 0);
            }
        }
    }
    let ghost ev = e@;
    sorted.insert(pos, e);
    proof {
        let ns = vecs_view(sorted@);
        assert(ns =~= bs.insert(pos as int, ev));
        assert forall|i: int, j: int| 0 <= i < j < ns.len() implies seq_order(ns[i], ns[j]) < 0 by {
            if j == pos {
                assert(ns[i] == bs[i]);
            } else if i == pos {
                assert(ns[j] == bs[j - 1]);
                if pos < bs.len() {
                    lemma_seq_order_antisym(bs[pos as int], ev);
                }
            } else if j < pos {
                assert(ns[i] == bs[i]);
                assert(ns[j] == bs[j]);
            } else if i < pos {
                assert(ns[i] == bs[i]);
                assert(ns[j] == bs[j - 1]);
            } else {
                assert(ns[i] == bs[i - 1]);
                assert(ns[j] == bs[j - 1]);
            }
        }
        assert forall|x: Seq<char>| ns.to_set().contains(x) <==> bs.to_set().insert(ev).contains(x) by {
            if ns.contains(x) {
                let k = choose|k: int| 0 <= k < ns.len() && ns[k] == x;
                if k < pos {
                    assert(bs[k] == x);
                } else if k > pos {
                    assert(bs[k - 1] == x);
                }
            }
            if bs.contains(x) {
                let k = choose|k: int| 0 <= k < bs.len() && bs[k] == x;
                if k < pos {
                    assert(ns[k] == x);
                } else {
                    assert(ns[k + 1] == x);
                }
            }
            if x == ev {
                assert(ns[pos as int] == x);
            }
        }
        assert(ns.to_set() =~= bs.to_set().insert(ev));
    }
}

impl Assets {
    /// The bundled files.
    pub fn new(files: Vec<(String, Vec<u8>)>) -> (a: Assets)
        ensures
            a.files == files,
    {
        Assets { files }
    }

    /// The bytes of a bundled file.
    pub fn get(&self, path: &str) -> (r: Option<Vec<u8>>)
        ensures
            match r {
                Some(b) => find_asset(files_view(self.files@), path@) == Some(b@),
                None => find_asset(files_view(self.files@), path@) is None,
            },
    {
        let ghost fv = files_view(self.files@);
        let mut i: usize = 0;
        assert(fv.skip(0) =~= fv);
        while i < self.files.len()
            invariant
                fv == files_view(self.files@),
                i <= self.files@.len(),
                find_asset(fv, path@) == find_asset(fv.skip(i as int), path@),
            decreases self.files@.len() - i,
        {
            assert(fv.skip(i as int)[0] == (self.files@[i as int].0@, self.files@[i as int].1@));
            assert(fv.skip(i as int).drop_first() =~= fv.skip(i + 1));
            if str_eq(self.files[i].0.as_str(), path) {
                return Some(self.files[i].1.clone());
            }
            i = i + 1;
        }
        None
    }

    /// The text of a bundled file, which must exist and be UTF-8.
    pub fn read_to_string(&self, path: &str) -> (r: String)
        requires
            find_asset(files_view(self.files@), path@) matches Some(b) && valid_utf8(b),
        ensures
            r@ == decode_utf8(find_asset(files_view(self.files@), path@)->0),
    {
        match self.get(path) {
            Some(bytes) => match string_from_utf8(bytes) {
                Some(s) => s,
                None => String::new(),
            },
            None => String::new(),
        }
    }

    /// The names directly under a folder of the bundle (a trailing `/` on
    /// it ignored), sorted, each once.
    pub fn list_dir(&self, prefix: &str) -> (names: Vec<String>)
        ensures
            ({
                let p = without_trailing_slash(prefix@);
                let fv = files_view(self.files@);
                &&& strictly_sorted(strings_view(names@))
                &&& forall|x: Seq<char>|
                    #[trigger] strings_view(names@).contains(x) <==> exists|k: int|
                        0 <= k < fv.len() && #[trigger] child_name(fv[k].0, p) == Some(x)
            }),
    {
        let pc = chars_of(prefix);
        let p = if pc.len() > 0 && pc[pc.len() - 1] == '/' {
            crate::text::slice(&pc, 0, pc.len() - 1)
        } else {
            crate::text::slice(&pc, 0, pc.len())
        };
        assert(p@ =~= without_trailing_slash(prefix@));
        let ghost fv = files_view(self.files@);
        let mut sorted: Vec<Vec<char>> = Vec::new();
        let mut k: usize = 0;
        while k < self.files.len()
            invariant
                fv == files_view(self.files@),
                p@ == without_trailing_slash(prefix@),
                k <= self.files@.len(),
                strictly_sorted(vecs_view(sorted@)),
                forall|x: Seq<char>|
                    vecs_view(sorted@).to_set().contains(x) <==> exists|j: int|
                        0 <= j < k && #[trigger] child_name(fv[j].0, p@) == Some(x),
            decreases self.files@.len() - k,
        {
            let path = chars_of(self.files[k].0.as_str());
            assert(path@ == fv[k as int].0);
            let ghost before = vecs_view(sorted@);
            if crate::text::starts_with(&path, &p) && path.len() > p.len() && path[p.len()] == '/' {
                let rest = crate::text::slice(&path, p.len() + 1, path.len());
                assert(rest@ =~= path@.skip((p@.len() + 1) as int));
                let mut slash: Vec<char> = Vec::new();
                slash.push('/');
                assert(slash@ =~= seq!['/']);
                let pieces = crate::text::split(&rest, &slash);
                proof {
                    crate::text::lemma_split_on_nonempty(rest@, seq!['/']);
                }
                let first = crate::text::slice(&pieces[0], 0, pieces[0].len());
                assert(first@ =~= pieces@[0]@);
                let ghost name = first@;
                insert_unique(&mut sorted, first);
                proof {
                    assert(child_name(fv[k as int].0, p@) == Some(name));
                    assert forall|x: Seq<char>|
                        vecs_view(sorted@).to_set().contains(x) <==> exists|j: int|
                            0 <= j < k + 1 && #[trigger] child_name(fv[j].0, p@) == Some(x) by {
                        if x == name {
                            assert(child_name(fv[k as int].0, p@) == Some(x));
                        }
                        if exists|j: int| 0 <= j < k + 1 && #[trigger] child_name(fv[j].0, p@) == Some(x) {
                            let j = choose|j: int| 0 <= j < k + 1 && #[trigger] child_name(fv[j].0, p@) == Some(x);
                            if j < k {
                                assert(before.to_set().contains(x));
                            }
                        }
                    }
                }
            } else {
                proof {
                    assert(child_name(fv[k as int].0, p@) is None);
                    assert forall|x: Seq<char>|
                        vecs_view(sorted@).to_set().contains(x) <==> exists|j: int|
                            0 <= j < k + 1 && #[trigger] child_name(fv[j].0, p@) == Some(x) by {
                        if exists|j: int| 0 <= j < k + 1 && #[trigger] child_name(fv[j].0, p@) == Some(x) {
                            let j = choose|j: int| 0 <= j < k + 1 && #[trigger] child_name(fv[j].0, p@) == Some(x);
                            assert(j != k);
                        }
                    }
                }
            }
            k = k + 1;
        }
        let mut names: Vec<String> = Vec::new();
        let mut i: usize = 0;
        let ghost sv = vecs_view(sorted@);
        while i < sorted.len()
            invariant
                sv == vecs_view(sorted@),
                i <= sorted@.len(),
                strings_view(names@) == sv.take(i as int),
            decreases sorted@.len() - i,
        {
            let n = string_from_chars(&sorted[i]);
            let ghost before = names@;
            names.push(n);
            assert(names@ == before.push(n));
            assert(strings_view(names@) =~= strings_view(before).push(sv[i as int]));
            assert(sv.take(i + 1) =~= sv.take(i as int).push(sv[i as int]));
            i = i + 1;
        }
        assert(sv.take(sorted@.len() as int) =~= sv);
        proof {
            assert forall|x: Seq<char>| sv.contains(x) <==> sv.to_set().contains(x) by {}
        }
        names
    }
}

} // verus!
