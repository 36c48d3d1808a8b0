//! Which icon a file or folder gets from an icon theme: by the file's
//! name, by each of its suffixes, by its extension, and otherwise from the
//! fallback theme.
use vstd::prelude::*;

use crate::entry::{extension, FsEntry};
use crate::paths::{file_name, join, path_file_name, path_join};
use crate::text::{append_str, chars_of, slice, str_eq, string_from_chars};

verus! {

/// An icon theme: its directory icon, the icon types of file names and of
/// file suffixes, and the icon of each type.
#[derive(Clone, Debug)]
pub struct LoadedIconTheme {
    pub name: String,
    pub directory_icon: Option<String>,
    pub file_stems: Vec<(String, String)>,
    pub file_suffixes: Vec<(String, String)>,
    pub file_icons: Vec<(String, String)>,
}

/// How an icon is drawn: tinted with the text color (the fallback theme),
/// or in its own colors (a chosen theme).
#[derive(Clone, Copy, PartialEq, Eq, Debug, Structural)]
pub enum IconRenderMode {
    Tinted,
    FullColor,
}

/// The icon chosen for an entry.
#[derive(Clone, Debug)]
pub struct ResolvedIcon {
    pub path: String,
    pub mode: IconRenderMode,
}

pub type Table = Seq<(Seq<char>, Seq<char>)>;

pub open spec fn table_view(t: Seq<(String, String)>) -> Table {
    t.map_values(|p: (String, String)| (p.0@, p.1@))
}

/// The value for `key` in a table: its first entry with that key.
pub open spec fn lookup(t: Table, key: Seq<char>) -> Option<Seq<char>>
    decreases t.len(),
{
    if t.len() == 0 {
        None
    } else if t[0].0 == key {
        Some(t[0].1)
    } else {
        lookup(t.drop_first(), key)
    }
}

fn lookup_of(t: &Vec<(String, String)>, key: &str) -> (r: Option<String>)
    ensures
        match r {
            Some(v) => lookup(table_view(t@), key@) == Some(v@),
            None => lookup(table_view(t@), key@) is None,
        },
{
    let ghost tv = table_view(t@);
    let mut i: usize = 0;
    assert(tv.skip(0) =~= tv);
    while i < t.len()
        invariant
            tv == table_view(t@),
            i <= t@.len(),
            lookup(tv, key@) == lookup(tv.skip(i as int), key@),
        decreases t@.len() - i,
    {
        assert(tv.skip(i as int)[0] == (t@[i as int].0@, t@[i as int].1@));
        assert(tv.skip(i as int).drop_first() =~= tv.skip(i + 1));
        if str_eq(t[i].0.as_str(), key) {
            return Some(t[i].1.clone());
        }
        i = i + 1;
    }
    None
}

/// The icon a theme has for a name or suffix: its type by file name, else
/// by suffix, then the icon of that type.
pub open spec fn resolve_key(theme: LoadedIconTheme, key: Seq<char>) -> Option<Seq<char>> {
    let ty = match lookup(table_view(theme.file_stems@), key) {
        Some(t) => Some(t),
        None => lookup(table_view(theme.file_suffixes@), key),
    };
    match ty {
        Some(t) => lookup(table_view(theme.file_icons@), t),
        None => None,
    }
}

fn resolve_key_of(theme: &LoadedIconTheme, key: &str) -> (r: Option<String>)
    ensures
        match r {
            Some(v) => resolve_key(*theme, key@) == Some(v@),
            None => resolve_key(*theme, key@) is None,
        },
{
    let ty = match lookup_of(&theme.file_stems, key) {
        Some(t) => Some(t),
        None => lookup_of(&theme.file_suffixes, key),
    };
    match ty {
        Some(t) => lookup_of(&theme.file_icons, t.as_str()),
        None => None,
    }
}

/// The position of the first `.` in `s`.
pub open spec fn first_dot(s: Seq<char>, from: int) -> Option<int>
    decreases s.len() - from,
{
    if from < 0 || from >= s.len() {
        None
    } else if s[from] == '.' {
        Some(from)
    } else {
        first_dot(s, from + 1)
    }
}

proof fn lemma_first_dot(s: Seq<char>, from: int)
    ensures
        first_dot(s, from) matches Some(i) ==> from <= i < s.len() && s[i] == '.',
    decreases s.len() - from,
{
    if 0 <= from < s.len() && s[from] != '.' {
        lemma_first_dot(s, from + 1);
    }
}

/// The icon for the first of `rest` and its suffixes (what follows each
/// `.` in turn) that the theme knows.
pub open spec fn suffix_chain_icon(theme: LoadedIconTheme, rest: Seq<char>) -> Option<Seq<char>>
    decreases rest.len(),
{
    match resolve_key(theme, rest) {
        Some(icon) => Some(icon),
        None => match first_dot(rest, 0) {
            Some(i) => if 0 <= i < rest.len() {
                suffix_chain_icon(theme, rest.skip(i + 1))
            } else {
                None
            },
            None => None,
        },
    }
}

/// The pieces of a name between its dots.
pub open spec fn dot_parts(name: Seq<char>) -> Seq<Seq<char>> {
    crate::text::split_on(name, seq!['.'])
}

/// The parts of `parts` joined by `.`.
pub open spec fn join_dots(parts: Seq<Seq<char>>) -> Seq<char>
    decreases parts.len(),
{
    if parts.len() == 0 {
        Seq::empty()
    } else if parts.len() == 1 {
        parts[0]
    } else {
        join_dots(parts.drop_last()).push('.') + parts.last()
    }
}

/// What follows the first `.` of the file name, when that holds another
/// `.`: `tar.gz` for `backup.tar.gz`.
pub open spec fn multiple_extensions(path: Seq<char>) -> Option<Seq<char>> {
    match path_file_name(path) {
        None => None,
        Some(n) => {
            let parts = dot_parts(n).drop_first();
            if parts.len() < 2 {
                None
            } else {
                Some(join_dots(parts))
            }
        },
    }
}

/// A hidden file's name without its leading `.`; otherwise the extension,
/// or the whole name when there is none.
pub open spec fn extension_or_hidden_file_name(path: Seq<char>) -> Option<Seq<char>> {
    match path_file_name(path) {
        None => None,
        Some(n) => if n.len() > 0 && n[0] == '.' {
            Some(n.drop_first())
        } else {
            match extension(path) {
                Some(e) => Some(e),
                None => Some(n),
            }
        },
    }
}

pub open spec fn opt_icon(theme: LoadedIconTheme, key: Option<Seq<char>>) -> Option<Seq<char>> {
    match key {
        Some(k) => resolve_key(theme, k),
        None => None,
    }
}

/// The icon a theme gives a file: by its name and each of its suffixes,
/// then by all its extensions together, then by its extension (or, for a
/// hidden file, its name without the dot), then by its extension alone.
pub open spec fn theme_icon_for_path(theme: LoadedIconTheme, path: Seq<char>) -> Option<Seq<char>> {
    let by_name = match path_file_name(path) {
        Some(n) => suffix_chain_icon(theme, n),
        None => None,
    };
    match by_name {
        Some(i) => Some(i),
        None => match opt_icon(theme, multiple_extensions(path)) {
            Some(i) => Some(i),
            None => match opt_icon(theme, extension_or_hidden_file_name(path)) {
                Some(i) => Some(i),
                None => opt_icon(theme, extension(path)),
            },
        },
    }
}

fn suffix_chain_icon_of(theme: &LoadedIconTheme, name: &Vec<char>) -> (r: Option<String>)
    ensures
        match r {
            Some(v) => suffix_chain_icon(*theme, name@) == Some(v@),
            None => suffix_chain_icon(*theme, name@) is None,
        },
{
    let mut rest = crate::text::slice(name, 0, name.len());
    assert(rest@ =~= name@);
    loop
        invariant
            suffix_chain_icon(*theme, name@) == suffix_chain_icon(*theme, rest@),
        decreases rest@.len(),
    {
        if let Some(icon) = resolve_key_of(theme, string_from_chars(&rest).as_str()) {
            return Some(icon);
        }
        let mut i: usize = 0;
        while i < rest.len() && rest[i] != '.'
            invariant
                i <= rest@.len(),
                first_dot(rest@, 0) == first_dot(rest@, i as int),
            decreases rest@.len() - i,
        {
            i = i + 1;
        }
        if i >= rest.len() {
            return None;
        }
        let next = crate::text::slice(&rest, i + 1, rest.len());
        assert(next@ =~= rest@.skip(i + 1));
        rest = next;
    }
}

fn multiple_extensions_of(path: &Vec<char>) -> (r: Option<String>)
    ensures
        match r {
            Some(v) => multiple_extensions(path@) == Some(v@),
            None => multiple_extensions(path@) is None,
        },
{
    let n = match file_name(path) {
        Some(n) => n,
        None => return None,
    };
    let mut dot: Vec<char> = Vec::new();
    dot.push('.');
    assert(dot@ =~= seq!['.']);
    let all = crate::text::split(&n, &dot);
    let ghost pv = dot_parts(n@);
    if all.len() < 3 {
        return None;
    }
    let ghost parts = pv.drop_first();
    let mut out: Vec<char> = Vec::new();
    let mut k: usize = 1;
    assert(parts.take(0) =~= Seq::<Seq<char>>::empty());
    while k < all.len()
        invariant
            all@.len() == pv.len(),
            forall|j: int| 0 <= j < all@.len() ==> all@[j]@ == pv[j],
            parts == pv.drop_first(),
            1 <= k <= all@.len(),
            out@ == join_dots(parts.take(k - 1)),
        decreases all@.len() - k,
    {
        if k > 1 {
            out.push('.');
        }
        let ghost before = out@;
        append_str(&mut out, string_from_chars(&all[k]).as_str());
        proof {
            assert(parts.take(k as int).drop_last() =~= parts.take(k - 1));
            assert(parts.take(k as int).last() == all@[k as int]@);
            if k == 1 {
                assert(out@ =~= join_dots(parts.take(1)));
            }
        }
        k = k + 1;
    }
    assert(parts.take(all@.len() - 1) =~= parts);
    Some(string_from_chars(&out))
}

fn extension_or_hidden_of(path: &Vec<char>) -> (r: Option<String>)
    ensures
        match r {
            Some(v) => extension_or_hidden_file_name(path@) == Some(v@),
            None => extension_or_hidden_file_name(path@) is None,
        },
{
    let n = match file_name(path) {
        Some(n) => n,
        None => return None,
    };
    if n.len() > 0 && n[0] == '.' {
        let rest = crate::text::slice(&n, 1, n.len());
        assert(rest@ =~= n@.drop_first());
        return Some(string_from_chars(&rest));
    }
    match crate::entry::extension_of(string_from_chars(path).as_str()) {
        Some(e) => Some(e),
        None => Some(string_from_chars(&n)),
    }
}

fn opt_icon_of(theme: &LoadedIconTheme, key: Option<String>) -> (r: Option<String>)
    ensures
        match r {
            Some(v) => opt_icon(*theme, match key {
                Some(k) => Some(k@),
                None => None,
            }) == Some(v@),
            None => opt_icon(*theme, match key {
                Some(k) => Some(k@),
                None => None,
            }) is None,
        },
{
    match key {
        Some(k) => resolve_key_of(theme, k.as_str()),
        None => None,
    }
}

/// The icon a theme gives a file (see `theme_icon_for_path`).
pub fn resolve_in(theme: &LoadedIconTheme, path: &str) -> (r: Option<String>)
    ensures
        match r {
            Some(v) => theme_icon_for_path(*theme, path@) == Some(v@),
            None => theme_icon_for_path(*theme, path@) is None,
        },
{
    let p = chars_of(path);
    if let Some(n) = file_name(&p) {
        if let Some(icon) = suffix_chain_icon_of(theme, &n) {
            return Some(icon);
        }
    }
    if let Some(icon) = opt_icon_of(theme, multiple_extensions_of(&p)) {
        return Some(icon);
    }
    if let Some(icon) = opt_icon_of(theme, extension_or_hidden_of(&p)) {
        return Some(icon);
    }
    opt_icon_of(theme, crate::entry::extension_of(path))
}

/// One theme of an icon theme manifest, as written: its directory icons
/// and its tables, the icon paths relative to the manifest's folder.
#[derive(Clone, Debug)]
pub struct IconThemeEntry {
    pub name: String,
    pub collapsed_directory_icon: Option<String>,
    pub expanded_directory_icon: Option<String>,
    pub file_stems: Vec<(String, String)>,
    pub file_suffixes: Vec<(String, String)>,
    pub file_icons: Vec<(String, String)>,
}

/// An icon path of a manifest, under the manifest's folder, a leading
/// `./` dropped.
pub open spec fn spec_resolve_theme_path(base_dir: Seq<char>, relative: Seq<char>) -> Seq<char> {
    let rel = if relative.len() >= 2 && relative[0] == '.' && relative[1] == '/' {
        relative.skip(2)
    } else {
        relative
    };
    path_join(base_dir, rel)
}

/// An icon path of a manifest, under the manifest's folder (see
/// `spec_resolve_theme_path`).
pub fn resolve_theme_path(base_dir: &str, relative: &str) -> (r: String)
    ensures
        r@ == spec_resolve_theme_path(base_dir@, relative@),
{
    let rc = chars_of(relative);
    let rel = if rc.len() >= 2 && rc[0] == '.' && rc[1] == '/' {
        slice(&rc, 2, rc.len())
    } else {
        slice(&rc, 0, rc.len())
    };
    assert(rel@ =~= (if relative@.len() >= 2 && relative@[0] == '.' && relative@[1] == '/' {
        relative@.skip(2)
    } else {
        relative@
    }));
    string_from_chars(&join(&chars_of(base_dir), &rel))
}

/// A table of icon paths, each resolved under the manifest's folder.
pub open spec fn resolved_table(base_dir: Seq<char>, t: Table) -> Table {
    t.map_values(|p: (Seq<char>, Seq<char>)| (p.0, spec_resolve_theme_path(base_dir, p.1)))
}

/// The theme a manifest entry describes. The directory icon is the
/// collapsed one, else the expanded one; icon paths lie under the
/// manifest's folder; the entry's own file names and suffixes come before
/// the default ones, so that they win.
pub fn load_theme_entry(
    entry: IconThemeEntry,
    base_dir: &str,
    default_stems: Vec<(String, String)>,
    default_suffixes: Vec<(String, String)>,
) -> (t: LoadedIconTheme)
    ensures
        t.name == entry.name,
        match entry.collapsed_directory_icon {
            Some(c) => t.directory_icon matches Some(d) && d@ == spec_resolve_theme_path(base_dir@, c@),
            None => match entry.expanded_directory_icon {
                Some(e) => t.directory_icon matches Some(d) && d@ == spec_resolve_theme_path(
                    base_dir@,
                    e@,
                ),
                None => t.directory_icon is None,
            },
        },
        table_view(t.file_icons@) == resolved_table(base_dir@, table_view(entry.file_icons@)),
        table_view(t.file_stems@) == table_view(entry.file_stems@) + table_view(default_stems@),
        table_view(t.file_suffixes@) == table_view(entry.file_suffixes@) + table_view(
            default_suffixes@,
        ),
{
    let directory_icon = match &entry.collapsed_directory_icon {
        Some(c) => Some(resolve_theme_path(base_dir, c.as_str())),
        None => match &entry.expanded_directory_icon {
            Some(e) => Some(resolve_theme_path(base_dir, e.as_str())),
            None => None,
        },
    };
    let mut file_icons: Vec<(String, String)> = Vec::new();
    let ghost iv = table_view(entry.file_icons@);
    let mut i: usize = 0;
    while i < entry.file_icons.len()
        invariant
            iv == table_view(entry.file_icons@),
            i <= entry.file_icons@.len(),
            table_view(file_icons@) == resolved_table(base_dir@, iv.take(i as int)),
        decreases entry.file_icons@.len() - i,
    {
        let key = entry.file_icons[i].0.clone();
        let path = resolve_theme_path(base_dir, entry.file_icons[i].1.as_str());
        let ghost before = file_icons@;
        file_icons.push((key, path));
        assert(table_view(file_icons@) =~= table_view(before).push(
            (iv[i as int].0, spec_resolve_theme_path(base_dir@, iv[i as int].1)),
        ));
        assert(iv.take(i + 1) =~= iv.take(i as int).push(iv[i as int]));
        assert(resolved_table(base_dir@, iv.take(i + 1)) =~= resolved_table(
            base_dir@,
            iv.take(i as int),
        ).push((iv[i as int].0, spec_resolve_theme_path(base_dir@, iv[i as int].1))));
        i = i + 1;
    }
    assert(iv.take(entry.file_icons@.len() as int) =~= iv);
    let file_stems = concat_tables(entry.file_stems, default_stems);
    let file_suffixes = concat_tables(entry.file_suffixes, default_suffixes);
    LoadedIconTheme { name: entry.name, directory_icon, file_stems, file_suffixes, file_icons }
}

fn concat_tables(first: Vec<(String, String)>, then: Vec<(String, String)>) -> (r: Vec<(
    String,
    String,
)>)
    ensures
        table_view(r@) == table_view(first@) + table_view(then@),
{
    let mut r = first;
    let mut rest = then;
    let ghost rv0 = table_view(r@);
    let ghost tv = table_view(rest@);
    r.append(&mut rest);
    assert(table_view(r@) =~= rv0 + tv);
    r
}

/// Looking up in two tables one after the other finds the first table's
/// entry when it has one, else the second's.
pub proof fn lemma_lookup_concat(a: Table, b: Table, key: Seq<char>)
    ensures
        lookup(a + b, key) == match lookup(a, key) {
            Some(v) => Some(v),
            None => lookup(b, key),
        },
    decreases a.len(),
{
    if a.len() == 0 {
        assert(a + b =~= b);
    } else {
        assert((a + b).drop_first() =~= a.drop_first() + b);
        lemma_lookup_concat(a.drop_first(), b, key);
    }
}

/// Where Zed keeps its installed extensions: under the data directory,
/// which is `$XDG_DATA_HOME`, else `.local/share` in the home directory
/// (or the root when that is unknown).
pub open spec fn spec_zed_extensions_dir(xdg_data_home: Option<Seq<char>>, home: Option<Seq<char>>) -> Seq<char> {
    let data_home = match xdg_data_home {
        Some(x) => x,
        None => path_join(crate::cli::known_or_root(home), ".local/share"@),
    };
    path_join(data_home, "zed/extensions/installed"@)
}

/// Where Zed keeps its installed extensions (see `spec_zed_extensions_dir`).
pub fn zed_extensions_dir(xdg_data_home: Option<String>, home: Option<String>) -> (r: String)
    ensures
        r@ == spec_zed_extensions_dir(crate::cli::opt_view(xdg_data_home), crate::cli::opt_view(home)),
{
    let data_home = match xdg_data_home {
        Some(x) => x,
        None => {
            let h = crate::cli::known_dir_or_root(home);
            string_from_chars(&join(&chars_of(h.as_str()), &chars_of(".local/share")))
        },
    };
    string_from_chars(&join(&chars_of(data_home.as_str()), &chars_of("zed/extensions/installed")))
}

/// The themes in use: a chosen one, if any, and the bundled fallback.
pub struct IconThemeState {
    pub primary: Option<LoadedIconTheme>,
    pub fallback: LoadedIconTheme,
}

impl IconThemeState {
    /// A folder icon is to be had, from the chosen theme or the fallback.
    pub open spec fn has_directory_icon(&self) -> bool {
        (self.primary matches Some(t) && t.directory_icon is Some)
            || self.fallback.directory_icon is Some
    }

    /// A generic file icon is to be had, from the chosen theme or the
    /// fallback.
    pub open spec fn has_file_icon(&self) -> bool {
        (self.primary matches Some(t) && lookup(table_view(t.file_icons@), "file"@) is Some)
            || lookup(table_view(self.fallback.file_icons@), "file"@) is Some
    }

    /// The folder icon: the chosen theme's in its colors, else the
    /// fallback's tinted.
    pub fn directory_icon(&self) -> (r: ResolvedIcon)
        requires
            self.has_directory_icon(),
        ensures
            match self.primary {
                Some(t) if t.directory_icon is Some => r.path == t.directory_icon->0 && r.mode
                    == IconRenderMode::FullColor,
                _ => r.path == self.fallback.directory_icon->0 && r.mode == IconRenderMode::Tinted,
            },
    {
        if let Some(theme) = &self.primary {
            if let Some(path) = &theme.directory_icon {
                return ResolvedIcon { path: path.clone(), mode: IconRenderMode::FullColor };
            }
        }
        match &self.fallback.directory_icon {
            Some(path) => ResolvedIcon { path: path.clone(), mode: IconRenderMode::Tinted },
            None => ResolvedIcon { path: String::new(), mode: IconRenderMode::Tinted },
        }
    }

    /// The generic file icon: the chosen theme's `file` icon in its colors,
    /// else the fallback's tinted.
    pub fn generic_file_icon(&self) -> (r: ResolvedIcon)
        requires
            self.has_file_icon(),
        ensures
            match self.primary {
                Some(t) if lookup(table_view(t.file_icons@), "file"@) is Some => r.path@ == lookup(
                    table_view(t.file_icons@),
                    "file"@,
                )->0 && r.mode == IconRenderMode::FullColor,
                _ => r.path@ == lookup(table_view(self.fallback.file_icons@), "file"@)->0 && r.mode
                    == IconRenderMode::Tinted,
            },
    {
        if let Some(theme) = &self.primary {
            if let Some(path) = lookup_of(&theme.file_icons, "file") {
                return ResolvedIcon { path, mode: IconRenderMode::FullColor };
            }
        }
        match lookup_of(&self.fallback.file_icons, "file") {
            Some(path) => ResolvedIcon { path, mode: IconRenderMode::Tinted },
            None => ResolvedIcon { path: String::new(), mode: IconRenderMode::Tinted },
        }
    }

    /// The icon of an entry: the folder icon for a folder; else what the
    /// chosen theme gives the file in its colors, what the fallback gives
    /// it tinted, or the generic file icon.
    pub fn icon_for(&self, entry: &FsEntry) -> (r: ResolvedIcon)
        requires
            entry.is_dir ==> self.has_directory_icon(),
            !entry.is_dir ==> (self.primary matches Some(t) && theme_icon_for_path(t, entry.path@) is Some)
                || theme_icon_for_path(self.fallback, entry.path@) is Some || self.has_file_icon(),
        ensures
            entry.is_dir ==> match self.primary {
                Some(t) if t.directory_icon is Some => r.path == t.directory_icon->0 && r.mode
                    == IconRenderMode::FullColor,
                _ => r.path == self.fallback.directory_icon->0 && r.mode == IconRenderMode::Tinted,
            },
            !entry.is_dir ==> {
                let from_primary = match self.primary {
                    Some(t) => theme_icon_for_path(t, entry.path@),
                    None => None,
                };
                match from_primary {
                    Some(p) => r.path@ == p && r.mode == IconRenderMode::FullColor,
                    None => match theme_icon_for_path(self.fallback, entry.path@) {
                        Some(p) => r.path@ == p && r.mode == IconRenderMode::Tinted,
                        None => match self.primary {
                            Some(t) if lookup(table_view(t.file_icons@), "file"@) is Some => r.path@
                                == lookup(table_view(t.file_icons@), "file"@)->0 && r.mode
                                == IconRenderMode::FullColor,
                            _ => r.path@ == lookup(table_view(self.fallback.file_icons@), "file"@)->0
                                && r.mode == IconRenderMode::Tinted,
                        },
                    },
                }
            },
    {
        if entry.is_dir {
            return self.directory_icon();
        }
        if let Some(theme) = &self.primary {
            if let Some(path) = resolve_in(theme, entry.path.as_str()) {
                return ResolvedIcon { path, mode: IconRenderMode::FullColor };
            }
        }
        if let Some(path) = resolve_in(&self.fallback, entry.path.as_str()) {
            return ResolvedIcon { path, mode: IconRenderMode::Tinted };
        }
        self.generic_file_icon()
    }
}

} // verus!
