//! Paths are handled as text: `/` separates components, a leading `/` makes
//! a path absolute, repeated and trailing separators are not significant.
use vstd::prelude::*;

use crate::text::{chars_of, slice, split, split_on};

verus! {

/// `rel` appended to `base` as `PathBuf::join` does on Unix: an absolute
/// `rel` replaces `base`, otherwise a separator is inserted unless `base` is
/// empty or already ends with one.
pub open spec fn path_join(base: Seq<char>, rel: Seq<char>) -> Seq<char> {
    if rel.len() > 0 && rel[0] == '/' {
        rel
    } else if base.len() == 0 || base.last() == '/' {
        base + rel
    } else {
        base.push('/') + rel
    }
}

/// `p` without trailing separators, keeping a lone root `/`.
pub open spec fn trim_trailing_separators(p: Seq<char>) -> Seq<char>
    decreases p.len(),
{
    if p.len() > 1 && p.last() == '/' {
        trim_trailing_separators(p.drop_last())
    } else {
        p
    }
}

/// The position of the last `/` in `p`, if any.
pub open spec fn last_separator(p: Seq<char>) -> Option<int>
    decreases p.len(),
{
    if p.len() == 0 {
        None
    } else if p.last() == '/' {
        Some(p.len() - 1)
    } else {
        last_separator(p.drop_last())
    }
}

/// `p` without what ends it but names no component: trailing separators,
/// and a final `.` after a separator (`a/./` is `a`), as `Path::components`
/// skips them.
pub open spec fn trim_path_end(p: Seq<char>) -> Seq<char>
    decreases p.len(),
{
    let t = trim_trailing_separators(p);
    if t.len() >= 2 && t.last() == '.' && t[t.len() - 2] == '/' {
        proof {
            lemma_trim_trailing_shorter(p);
        }
        trim_path_end(t.drop_last())
    } else {
        t
    }
}

/// The directory that contains `p`: `None` for the empty path and for the
/// root, `""` for a single relative component, `/` for a top-level entry.
/// A `.` component at the end names nothing (`x/.` is in `""`).
pub open spec fn path_parent(p: Seq<char>) -> Option<Seq<char>> {
    let t = trim_path_end(p);
    if t.len() == 0 || t == seq!['/'] {
        None
    } else {
        match last_separator(t) {
            None => Some(Seq::empty()),
            Some(i) => Some(trim_path_end(t.take(i + 1))),
        }
    }
}

/// The last component of `p`, unless it is empty, `.` or `..`; a `.` at
/// the end after a separator names nothing (`x/.` is named `x`).
pub open spec fn path_file_name(p: Seq<char>) -> Option<Seq<char>> {
    let t = trim_path_end(p);
    let name = match last_separator(t) {
        None => t,
        Some(i) => t.skip(i + 1),
    };
    if name.len() == 0 || name == seq!['.', '.'] || name == seq!['.'] {
        None
    } else {
        Some(name)
    }
}

pub open spec fn is_absolute(p: Seq<char>) -> bool {
    p.len() > 0 && p[0] == '/'
}

proof fn lemma_last_separator(p: Seq<char>)
    ensures
        last_separator(p) matches Some(i) ==> 0 <= i < p.len() && p[i] == '/' && forall|j: int|
            i < j < p.len() ==> p[j] != '/',
        last_separator(p) is None ==> forall|j: int| 0 <= j < p.len() ==> p[j] != '/',
    decreases p.len(),
{
    if p.len() > 0 && p.last() != '/' {
        let q = p.drop_last();
        lemma_last_separator(q);
        assert forall|j: int| 0 <= j < q.len() implies q[j] == p[j] by {}
    }
}

/// Taking off trailing separators shortens a path, never to nothing.
pub proof fn lemma_trim_trailing_shorter(p: Seq<char>)
    ensures
        trim_trailing_separators(p).len() <= p.len(),
        p.len() > 0 ==> trim_trailing_separators(p).len() > 0,
        trim_trailing_separators(p).len() > 1 ==> trim_trailing_separators(p).last() != '/',
    decreases p.len(),
{
    if p.len() > 1 && p.last() == '/' {
        lemma_trim_trailing_shorter(p.drop_last());
    }
}

proof fn lemma_trim_trailing_idempotent(p: Seq<char>)
    ensures
        trim_trailing_separators(trim_trailing_separators(p)) == trim_trailing_separators(p),
    decreases p.len(),
{
    if p.len() > 1 && p.last() == '/' {
        lemma_trim_trailing_idempotent(p.drop_last());
    }
}

proof fn lemma_trim_path_end_shorter(p: Seq<char>)
    ensures
        trim_path_end(p).len() <= p.len(),
        p.len() > 0 ==> trim_path_end(p).len() > 0,
        trim_path_end(p).len() > 1 ==> trim_path_end(p).last() != '/',
        trim_path_end(p) == trim_trailing_separators(trim_path_end(p)),
    decreases p.len(),
{
    let t = trim_trailing_separators(p);
    lemma_trim_trailing_shorter(p);
    lemma_trim_trailing_idempotent(p);
    if t.len() >= 2 && t.last() == '.' && t[t.len() - 2] == '/' {
        lemma_trim_path_end_shorter(t.drop_last());
    }
}

/// A parent path is shorter than the path itself.
pub proof fn lemma_parent_shorter(p: Seq<char>)
    ensures
        path_parent(p) matches Some(q) ==> q.len() < p.len(),
{
    let t = trim_path_end(p);
    lemma_trim_path_end_shorter(p);
    lemma_last_separator(t);
    if t.len() == 1 && t[0] == '/' {
        assert(t =~= seq!['/']);
    }
    if let Some(i) = last_separator(t) {
        lemma_trim_path_end_shorter(t.take(i + 1));
        if t.len() > 1 {
            assert(i < t.len() - 1);
        }
    }
}

/// `p` without what ends it but names no component (see `trim_path_end`).
fn trim_end(p: &Vec<char>) -> (r: Vec<char>)
    ensures
        r@ == trim_path_end(p@),
{
    let mut t = trim_trailing(p);
    proof {
        lemma_trim_trailing_idempotent(p@);
    }
    while t.len() >= 2 && t[t.len() - 1] == '.' && t[t.len() - 2] == '/'
        invariant
            trim_path_end(t@) == trim_path_end(p@),
            t@ == trim_trailing_separators(t@),
        decreases t@.len(),
    {
        let d = slice(&t, 0, t.len() - 1);
        assert(d@ =~= t@.drop_last());
        let next = trim_trailing(&d);
        proof {
            lemma_trim_trailing_idempotent(d@);
            lemma_trim_trailing_shorter(d@);
            assert(t@.last() == '.' && t@[t@.len() - 2] == '/');
            assert(trim_path_end(t@) == trim_path_end(d@));
            assert(trim_path_end(next@) == trim_path_end(d@));
        }
        t = next;
    }
    t
}

fn trim_trailing(p: &Vec<char>) -> (r: Vec<char>)
    ensures
        r@ == trim_trailing_separators(p@),
{
    let mut end = p.len();
    assert(p@.take(end as int) =~= p@);
    while end > 1 && p[end - 1] == '/'
        invariant
            end <= p@.len(),
            trim_trailing_separators(p@.take(end as int)) == trim_trailing_separators(p@),
        decreases end,
    {
        assert(p@.take(end as int).drop_last() =~= p@.take(end - 1));
        end = end - 1;
    }
    slice(p, 0, end)
}

fn find_last_separator(p: &Vec<char>) -> (r: Option<usize>)
    ensures
        r matches Some(i) ==> last_separator(p@) == Some(i as int) && i < p@.len(),
        r is None ==> last_separator(p@) is None,
{
    let mut end = p.len();
    assert(p@.take(end as int) =~= p@);
    while end > 0
        invariant
            end <= p@.len(),
            last_separator(p@.take(end as int)) == last_separator(p@),
        decreases end,
    {
        if p[end - 1] == '/' {
            return Some(end - 1);
        }
        assert(p@.take(end as int).drop_last() =~= p@.take(end - 1));
        end = end - 1;
    }
    None
}

/// `rel` appended to `base` (see `path_join`).
pub fn join(base: &Vec<char>, rel: &Vec<char>) -> (r: Vec<char>)
    ensures
        r@ == path_join(base@, rel@),
{
    if rel.len() > 0 && rel[0] == '/' {
        return slice(rel, 0, rel.len());
    }
    let mut r = slice(base, 0, base.len());
    if !(base.len() == 0 || base[base.len() - 1] == '/') {
        r.push('/');
    }
    let mut i: usize = 0;
    let ghost start = r@;
    while i < rel.len()
        invariant
            i <= rel@.len(),
            r@ == start + rel@.take(i as int),
        decreases rel@.len() - i,
    {
        r.push(rel[i]);
        assert(rel@.take(i + 1) =~= rel@.take(i as int).push(rel@[i as int]));
        i = i + 1;
    }
    assert(rel@.take(rel@.len() as int) =~= rel@);
    r
}

/// The directory that contains `p` (see `path_parent`).
pub fn parent(p: &Vec<char>) -> (r: Option<Vec<char>>)
    ensures
        r matches Some(v) ==> path_parent(p@) == Some(v@),
        r is None ==> path_parent(p@) is None,
{
    let t = trim_end(p);
    if t.len() == 0 || (t.len() == 1 && t[0] == '/') {
        assert(t@.len() == 1 ==> t@ =~= seq!['/']);
        return None;
    }
    assert(t@ != seq!['/']);
    match find_last_separator(&t) {
        None => Some(Vec::new()),
        Some(i) => {
            let head = slice(&t, 0, i + 1);
            assert(head@ =~= t@.take(i + 1));
            Some(trim_end(&head))
        },
    }
}

/// The last component of `p` (see `path_file_name`).
pub fn file_name(p: &Vec<char>) -> (r: Option<Vec<char>>)
    ensures
        r matches Some(v) ==> path_file_name(p@) == Some(v@),
        r is None ==> path_file_name(p@) is None,
{
    let t = trim_end(p);
    let name = match find_last_separator(&t) {
        None => t,
        Some(i) => {
            assert(t@.len() == t.len());
            let n = slice(&t, i + 1, t.len());
            assert(n@ =~= t@.skip(i + 1));
            n
        },
    };
    if name.len() == 0 || (name.len() == 2 && name[0] == '.' && name[1] == '.') || (name.len()
        == 1 && name[0] == '.') {
        assert(name@.len() == 2 && name@[0] == '.' && name@[1] == '.' ==> name@ =~= seq!['.', '.']);
        assert(name@.len() == 1 && name@[0] == '.' ==> name@ =~= seq!['.']);
        None
    } else {
        assert(name@ != seq!['.', '.']);
        assert(name@ != seq!['.']);
        Some(name)
    }
}

/// Whether the `i`th `/`-separated piece of a path is a component: empty
/// pieces never are, and `.` only at the very start.
pub open spec fn is_component_piece(pieces: Seq<Seq<char>>, i: int) -> bool {
    pieces[i].len() > 0 && (i == 0 || pieces[i] != seq!['.'])
}

pub open spec fn components_from(pieces: Seq<Seq<char>>, i: int) -> Seq<Seq<char>>
    decreases pieces.len() - i,
{
    if i < 0 || i >= pieces.len() {
        Seq::empty()
    } else if is_component_piece(pieces, i) {
        seq![pieces[i]] + components_from(pieces, i + 1)
    } else {
        components_from(pieces, i + 1)
    }
}

/// The named components of `p`, in order.
pub open spec fn path_components(p: Seq<char>) -> Seq<Seq<char>> {
    components_from(split_on(p, seq!['/']), 0)
}

/// Whether `base` is `p` itself or one of its ancestors, compared component
/// by component as `Path::starts_with` does.
pub open spec fn path_starts_with(p: Seq<char>, base: Seq<char>) -> bool {
    let pc = path_components(p);
    let bc = path_components(base);
    is_absolute(p) == is_absolute(base) && bc.len() <= pc.len() && pc.take(bc.len() as int) == bc
}

fn chars_equal(a: &Vec<char>, b: &Vec<char>) -> (r: bool)
    ensures
        r == (a@ == b@),
{
    if a.len() != b.len() {
        return false;
    }
    let mut i: usize = 0;
    while i < a.len()
        invariant
            a@.len() == b@.len(),
            i <= a@.len(),
            forall|j: int| 0 <= j < i ==> a@[j] == b@[j],
        decreases a@.len() - i,
    {
        if a[i] != b[i] {
            return false;
        }
        i = i + 1;
    }
    assert(a@ =~= b@);
    true
}

/// The named components of `p` (see `path_components`).
pub fn components(p: &Vec<char>) -> (r: Vec<Vec<char>>)
    ensures
        r@.len() == path_components(p@).len(),
        forall|k: int| 0 <= k < r@.len() ==> r@[k]@ == path_components(p@)[k],
{
    let mut sep: Vec<char> = Vec::new();
    sep.push('/');
    assert(sep@ =~= seq!['/']);
    let pieces = split(p, &sep);
    let ghost ps = split_on(p@, seq!['/']);
    let mut out: Vec<Vec<char>> = Vec::new();
    let ghost mut done: Seq<Seq<char>> = Seq::empty();
    let mut i: usize = 0;
    while i < pieces.len()
        invariant
            pieces@.len() == ps.len(),
            forall|k: int| 0 <= k < pieces@.len() ==> pieces@[k]@ == ps[k],
            i <= pieces@.len(),
            out@.len() == done.len(),
            forall|k: int| 0 <= k < out@.len() ==> out@[k]@ == done[k],
            done + components_from(ps, i as int) == components_from(ps, 0),
        decreases pieces@.len() - i,
    {
        let piece = &pieces[i];
        let is_dot = piece.len() == 1 && piece[0] == '.';
        assert(is_dot == (ps[i as int] == seq!['.'])) by {
            if piece@.len() == 1 && piece@[0] == '.' {
                assert(piece@ =~= seq!['.']);
            }
        }
        if piece.len() > 0 && (i == 0 || !is_dot) {
            out.push(slice(piece, 0, piece.len()));
            proof {
                assert(piece@.subrange(0, piece@.len() as int) =~= piece@);
                done = done.push(ps[i as int]);
                assert(done + components_from(ps, i + 1) =~= components_from(ps, 0));
            }
        }
        i = i + 1;
    }
    assert(done =~= components_from(ps, 0));
    out
}

/// Whether two paths name the same place, compared component by
/// component as `Path` equality does (repeated and trailing separators do
/// not count).
pub open spec fn same_path(a: Seq<char>, b: Seq<char>) -> bool {
    path_starts_with(a, b) && path_starts_with(b, a)
}

/// A path names the same place as itself.
pub proof fn lemma_same_path_refl(p: Seq<char>)
    ensures
        same_path(p, p),
{
    assert(path_components(p).take(path_components(p).len() as int) =~= path_components(p));
}

/// Equal texts name the same place.
pub proof fn lemma_equal_paths_same(a: Seq<char>, b: Seq<char>)
    requires
        a == b,
    ensures
        same_path(a, b),
{
    lemma_same_path_refl(a);
}

/// Whether `base` is `p` itself or one of its ancestors (see `path_starts_with`).
pub fn starts_with_path(p: &Vec<char>, base: &Vec<char>) -> (r: bool)
    ensures
        r == path_starts_with(p@, base@),
{
    let pa = p.len() > 0 && p[0] == '/';
    let ba = base.len() > 0 && base[0] == '/';
    if pa != ba {
        return false;
    }
    let pc = components(p);
    let bc = components(base);
    let ghost spc = path_components(p@);
    let ghost sbc = path_components(base@);
    if bc.len() > pc.len() {
        assert(sbc.len() > spc.len());
        return false;
    }
    let mut i: usize = 0;
    while i < bc.len()
        invariant
            spc == path_components(p@),
            sbc == path_components(base@),
            is_absolute(p@) == is_absolute(base@),
            pc@.len() == spc.len(),
            bc@.len() == sbc.len(),
            forall|k: int| 0 <= k < pc@.len() ==> pc@[k]@ == spc[k],
            forall|k: int| 0 <= k < bc@.len() ==> bc@[k]@ == sbc[k],
            bc@.len() <= pc@.len(),
            i <= bc@.len(),
            forall|k: int| 0 <= k < i ==> spc[k] == sbc[k],
        decreases bc@.len() - i,
    {
        if !chars_equal(&pc[i], &bc[i]) {
            assert(spc.take(sbc.len() as int)[i as int] != sbc[i as int]);
            assert(spc.take(sbc.len() as int) != sbc);
            return false;
        }
        i = i + 1;
    }
    assert(spc.take(sbc.len() as int) =~= sbc);
    true
}

/// Whether two paths name the same place (see `same_path`).
pub fn is_same_path(a: &str, b: &str) -> (r: bool)
    ensures
        r == same_path(a@, b@),
{
    let ac = chars_of(a);
    let bc = chars_of(b);
    starts_with_path(&ac, &bc) && starts_with_path(&bc, &ac)
}

} // verus!
