//! The documentation of the config keys, as `zex config` prints it.
use vstd::prelude::*;

use crate::disk::text_lines;
use crate::text::{append_str, chars_of, split, split_on, str_eq, string_from_chars};

verus! {

/// The documentation of one config key.
#[derive(Clone, Copy, Debug)]
pub struct ConfigDoc {
    pub key: &'static str,
    pub section: &'static str,
    pub summary: &'static str,
    pub type_hint: &'static str,
    pub default: &'static str,
    pub body: &'static str,
}

/// The sections the keys are listed under, in order.
pub fn sections() -> (s: Vec<&'static str>)
    ensures
        s@.map_values(|x: &'static str| x@) == seq!["General"@, "Sidebar"@, "Theme"@, "Git"@],
{
    let mut s: Vec<&'static str> = Vec::new();
    s.push("General");
    s.push("Sidebar");
    s.push("Theme");
    s.push("Git");
    s
}

/// Every documented config key.
pub fn config_docs() -> (docs: Vec<ConfigDoc>)
    ensures
        docs@.map_values(|d: ConfigDoc| d.key@) == seq![
            "inherit_from_zed"@,
            "icon_theme"@,
            "ui_font_family"@,
            "ui_font_size"@,
            "ui_font_weight"@,
            "show_hidden_files"@,
            "sidebar"@,
            "theme.mode"@,
            "theme.light"@,
            "theme.dark"@,
            "git.enabled"@,
            "git.status.enabled"@,
            "git.status.show_untracked"@,
            "git.status.show_ignored"@,
            "git.status.dim_ignored"@,
            "git.status.aggregate_folders"@,
            "git.status.badge_style"@,
            "git.branch.enabled"@,
            "git.branch.show_in_status_bar"@,
            "git.branch.show_dirty_indicator"@,
            "git.branch.show_ahead_behind"@,
            "git.refresh.poll_interval_ms"@,
            "git.cli.binary_path"@,
            "git.cli.timeout_ms"@,
            "git.cli.max_repo_entries"@
        ],
        docs@.map_values(|d: ConfigDoc| d.section@) == seq![
            "General"@,
            "General"@,
            "General"@,
            "General"@,
            "General"@,
            "General"@,
            "Sidebar"@,
            "Theme"@,
            "Theme"@,
            "Theme"@,
            "Git"@,
            "Git"@,
            "Git"@,
            "Git"@,
            "Git"@,
            "Git"@,
            "Git"@,
            "Git"@,
            "Git"@,
            "Git"@,
            "Git"@,
            "Git"@,
            "Git"@,
            "Git"@,
            "Git"@
        ],
{
    let mut docs: Vec<ConfigDoc> = Vec::new();
    docs.push(ConfigDoc {
        key: "inherit_from_zed",
        section: "General",
        summary: "Inherit settings from Zed's own config.",
        type_hint: "bool | string",
        default: "false",
        body: "Set to true to load $XDG_CONFIG_HOME/zed/settings.json as a base, or to a \
string to point at a specific settings file (e.g. \"~/.config/zed/settings.json\" or an \
absolute path). Only fields zex understands are used from it -- anything Zed-specific with \
no zex equivalent is ignored.\n\n\
Any field you also declare in zex's own config.json wins, merged in field by field rather \
than replacing whole sections -- so setting \"theme\": { \"light\": \"...\" } in zex overrides \
just that one field while still picking up everything else (icon theme, fonts, the rest of \
the theme block, etc.) from Zed's config.",
    });
    docs.push(ConfigDoc {
        key: "icon_theme",
        section: "General",
        summary: "Icon theme to use for files and folders.",
        type_hint: "string",
        default: "null",
        body: "Name of a Zed-schema icon theme. zex scans installed Zed extensions under \
$XDG_DATA_HOME/zed/extensions/installed/*/extension.toml for an icon_themes entry, and \
matches on the theme's name. If unset or not found, zex falls back to its own bundled \
default icon theme.",
    });
    docs.push(ConfigDoc {
        key: "ui_font_family",
        section: "General",
        summary: "UI font family.",
        type_hint: "string",
        default: "null (bundled default)",
        body: "Font family name used throughout the UI. Must be a font available to the \
system's font stack.",
    });
    docs.push(ConfigDoc {
        key: "ui_font_size",
        section: "General",
        summary: "UI font size, in pixels.",
        type_hint: "number",
        default: "null (bundled default)",
        body: "Base font size for UI text.",
    });
    docs.push(ConfigDoc {
        key: "ui_font_weight",
        section: "General",
        summary: "UI font weight.",
        type_hint: "number",
        default: "null (bundled default)",
        body: "Font weight (e.g. 400 for regular, 500 for medium, 700 for bold), following \
standard CSS-style numeric font weights.",
    });
    docs.push(ConfigDoc {
        key: "show_hidden_files",
        section: "General",
        summary: "Show dotfiles by default.",
        type_hint: "bool",
        default: "false",
        body: "Whether hidden files (dotfiles) are shown when zex starts. Can be toggled at \
runtime with Ctrl-H regardless of this setting.",
    });
    docs.push(ConfigDoc {
        key: "sidebar",
        section: "Sidebar",
        summary: "Pinned locations and sections shown in the sidebar.",
        type_hint: "array",
        default: "[]",
        body: "A list of entries and/or sections. An entry is { \"name\": string, \"path\": \
string }. A section is { \"section\": string, \"entries\": [entry, ...] }. Entries can be \
listed flat or grouped into named sections -- mix and match as needed.\n\n\
Example:\n\"sidebar\": [\n    { \"name\": \"Home\", \"path\": \"/home/you\" },\n    {\n      \"section\": \"Work\",\n      \"entries\": [\n        { \"name\": \"Projects\", \"path\": \"/home/you/Projects\" },\n        { \"name\": \"Downloads\", \"path\": \"/home/you/Downloads\" }\n      ]\n    }\n  ]",
    });
    docs.push(ConfigDoc {
        key: "theme.mode",
        section: "Theme",
        summary: "Which palette to resolve: dark, light, or system.",
        type_hint: "\"dark\" | \"light\" | \"system\"",
        default: "\"dark\"",
        body: "\"dark\" / \"light\" force a palette; \"system\" follows the OS light/dark \
setting at launch. Color themes are resolved once at startup -- changing this requires \
restarting zex.",
    });
    docs.push(ConfigDoc {
        key: "theme.light",
        section: "Theme",
        summary: "Theme name to use when the resolved mode is light.",
        type_hint: "string",
        default: "null",
        body: "A theme name is resolved the same way icon themes are: zex scans installed \
Zed extensions under $XDG_DATA_HOME/zed/extensions/installed/*/extension.toml for a \
themes = [...] entry, parses the referenced theme JSON (Zed's real theme schema), and \
matches on the theme's name. zex also vendors Zed's own built-in theme families (Ayu, \
Gruvbox, One) under assets/themes/zed_builtin/, so \"Gruvbox Dark\" resolves without that \
theme being installed as an extension. If the name isn't found, or this is left unset while \
the resolved mode is light, zex falls back to its own bundled default. A matched theme only \
needs to define the handful of keys zex actually uses (background, borders, text, \
selection/hover states, and the generic modified/created/deleted/renamed/conflict/ignored \
status roles) -- anything it omits falls back to the bundled default rather than erroring.",
    });
    docs.push(ConfigDoc {
        key: "theme.dark",
        section: "Theme",
        summary: "Theme name to use when the resolved mode is dark.",
        type_hint: "string",
        default: "null",
        body: "Same resolution rules as theme.light, applied when the resolved mode is dark.",
    });
    docs.push(ConfigDoc {
        key: "git.enabled",
        section: "Git",
        summary: "Master switch for git awareness.",
        type_hint: "bool",
        default: "false",
        body: "Everything else under git is inert until this is true.",
    });
    docs.push(ConfigDoc {
        key: "git.status.enabled",
        section: "Git",
        summary: "Per-file/folder status decoration in the file list.",
        type_hint: "bool",
        default: "true",
        body: "",
    });
    docs.push(ConfigDoc {
        key: "git.status.show_untracked",
        section: "Git",
        summary: "Include untracked files in status.",
        type_hint: "bool",
        default: "true",
        body: "",
    });
    docs.push(ConfigDoc {
        key: "git.status.show_ignored",
        section: "Git",
        summary: "Include .gitignore'd files/folders in status at all.",
        type_hint: "bool",
        default: "false",
        body: "",
    });
    docs.push(ConfigDoc {
        key: "git.status.dim_ignored",
        section: "Git",
        summary: "Fade ignored rows.",
        type_hint: "bool",
        default: "true",
        body: "Only matters if show_ignored is on.",
    });
    docs.push(ConfigDoc {
        key: "git.status.aggregate_folders",
        section: "Git",
        summary: "A folder shows the worst status of anything changed inside it.",
        type_hint: "bool",
        default: "true",
        body: "",
    });
    docs.push(ConfigDoc {
        key: "git.status.badge_style",
        section: "Git",
        summary: "How file status is rendered.",
        type_hint: "\"text_color\" | \"icon\" | \"both\"",
        default: "\"text_color\"",
        body: "\"text_color\" recolors the filename, \"icon\" adds a small colored letter \
chip (M/A/D/R/U/I/!), \"both\" does both. Colors always come from the active color theme, \
not a separate override.",
    });
    docs.push(ConfigDoc {
        key: "git.branch.enabled",
        section: "Git",
        summary: "Master switch for the branch indicator.",
        type_hint: "bool",
        default: "true",
        body: "",
    });
    docs.push(ConfigDoc {
        key: "git.branch.show_in_status_bar",
        section: "Git",
        summary: "Show the current branch name in the status bar.",
        type_hint: "bool",
        default: "true",
        body: "",
    });
    docs.push(ConfigDoc {
        key: "git.branch.show_dirty_indicator",
        section: "Git",
        summary: "Small dot next to the branch name when the working tree isn't clean.",
        type_hint: "bool",
        default: "true",
        body: "",
    });
    docs.push(ConfigDoc {
        key: "git.branch.show_ahead_behind",
        section: "Git",
        summary: "Show up/down arrow counts relative to the upstream branch.",
        type_hint: "bool",
        default: "true",
        body: "",
    });
    docs.push(ConfigDoc {
        key: "git.refresh.poll_interval_ms",
        section: "Git",
        summary: "How often to re-run git status in the background.",
        type_hint: "number",
        default: "2000",
        body: "In addition to the refresh that already happens on navigation and filesystem \
changes. 0 disables polling (git-only changes, like a commit from another terminal, won't \
be picked up until you navigate away and back).",
    });
    docs.push(ConfigDoc {
        key: "git.cli.binary_path",
        section: "Git",
        summary: "Override the git binary used.",
        type_hint: "string",
        default: "null",
        body: "Defaults to whatever git resolves to on PATH.",
    });
    docs.push(ConfigDoc {
        key: "git.cli.timeout_ms",
        section: "Git",
        summary: "Kill and ignore the git status call if it takes longer than this.",
        type_hint: "number",
        default: "3000",
        body: "",
    });
    docs.push(ConfigDoc {
        key: "git.cli.max_repo_entries",
        section: "Git",
        summary: "Skip decorating repos larger than this.",
        type_hint: "number",
        default: "null",
        body: "If the status listing has more entries than this, skip decorating rather \
than render a huge repo's worth of badges.",
    });
    docs
}

/// The number of bytes `s` takes, as `str::len` gives it.
pub open spec fn byte_len(s: Seq<char>) -> int {
    (vstd::utf8::encode_utf8(s).len() as usize) as int
}

/// Filling words into lines: the text so far and the length of its last
/// line (without the indent).
pub open spec fn wrap_state(words: Seq<Seq<char>>, width: int, indent: Seq<char>) -> (Seq<char>, int)
    decreases words.len(),
{
    if words.len() == 0 {
        (Seq::empty(), 0)
    } else {
        let (o, l) = wrap_state(words.drop_last(), width, indent);
        let w = words.last();
        let (o1, l1) = if l > 0 && l + 1 + byte_len(w) > width {
            (o.push('\n'), 0)
        } else {
            (o, l)
        };
        let (o2, l2) = if l1 == 0 {
            (o1 + indent, l1)
        } else {
            (o1.push(' '), l1 + 1)
        };
        (o2 + w, l2 + byte_len(w))
    }
}

/// `text` filled into lines of at most `width` bytes where its words allow,
/// each line starting with `indent`.
pub open spec fn spec_wrap(text: Seq<char>, width: int, indent: Seq<char>) -> Seq<char> {
    wrap_state(split_on(text, seq![' ']), width, indent).0
}

proof fn lemma_wrap_state_bounds(words: Seq<Seq<char>>, width: int, indent: Seq<char>)
    requires
        0 <= width <= usize::MAX,
    ensures
        0 <= wrap_state(words, width, indent).1 <= usize::MAX,
    decreases words.len(),
{
    if words.len() > 0 {
        lemma_wrap_state_bounds(words.drop_last(), width, indent);
    }
}

/// `text` filled into lines (see `spec_wrap`).
pub fn wrap(text: &str, width: usize, indent: &str) -> (r: String)
    ensures
        r@ == spec_wrap(text@, width as int, indent@),
{
    let sp = vec![' '];
    assert(sp@ =~= seq![' ']);
    let words = split(&chars_of(text), &sp);
    let ghost ws = split_on(text@, seq![' ']);
    let mut out: Vec<char> = Vec::new();
    let mut line_len: usize = 0;
    let mut k: usize = 0;
    assert(ws.take(0) =~= Seq::<Seq<char>>::empty());
    while k < words.len()
        invariant
            words@.len() == ws.len(),
            forall|j: int| 0 <= j < words@.len() ==> words@[j]@ == ws[j],
            k <= words@.len(),
            (out@, line_len as int) == wrap_state(ws.take(k as int), width as int, indent@),
        decreases words@.len() - k,
    {
        let w = string_from_chars(&words[k]);
        let wl = w.as_str().len();
        proof {
            assert(ws.take(k + 1).drop_last() =~= ws.take(k as int));
            assert(ws.take(k + 1).last() == w@);
            lemma_wrap_state_bounds(ws.take(k as int), width as int, indent@);
        }
        if line_len > 0 && (line_len as u128) + 1 + (wl as u128) > (width as u128) {
            out.push('\n');
            line_len = 0;
        }
        if line_len == 0 {
            append_str(&mut out, indent);
        } else {
            out.push(' ');
            line_len = line_len + 1;
        }
        append_str(&mut out, w.as_str());
        line_len = line_len + wl;
        k = k + 1;
    }
    assert(ws.take(words@.len() as int) =~= ws);
    string_from_chars(&out)
}

/// A multi-line paragraph as printed: each line indented, empty lines
/// kept empty.
pub open spec fn lines_text(lines: Seq<Seq<char>>) -> Seq<char>
    decreases lines.len(),
{
    if lines.len() == 0 {
        Seq::empty()
    } else {
        let prev = lines_text(lines.drop_last());
        let l = lines.last();
        if l.len() == 0 {
            prev.push('\n')
        } else {
            prev + "  "@ + l + seq!['\n']
        }
    }
}

/// A paragraph of a key's documentation as printed: one with line breaks
/// keeps them, one without is filled into indented lines of 78 bytes; a
/// blank line follows.
pub open spec fn paragraph_text(p: Seq<char>) -> Seq<char> {
    let body = if p.contains('\n') {
        lines_text(text_lines(p))
    } else {
        spec_wrap(p, 78, "  "@).push('\n')
    };
    body.push('\n')
}

pub open spec fn paragraphs_text(ps: Seq<Seq<char>>) -> Seq<char>
    decreases ps.len(),
{
    if ps.len() == 0 {
        Seq::empty()
    } else {
        paragraphs_text(ps.drop_last()) + paragraph_text(ps.last())
    }
}

/// What `zex config <key>` prints for a documented key: the key, its type
/// and default, then its documentation paragraph by paragraph.
pub open spec fn doc_text(d: ConfigDoc) -> Seq<char> {
    let head = d.key@ + seq!['\n'] + "  Type: "@ + d.type_hint@ + seq!['\n'] + "  Default: "@
        + d.default@ + seq!['\n'];
    if d.body@.len() == 0 {
        head
    } else {
        head + seq!['\n'] + paragraphs_text(split_on(d.body@, seq!['\n', '\n']))
    }
}

/// The first documented key with this name.
pub open spec fn find_doc(docs: Seq<ConfigDoc>, key: Seq<char>, from: int) -> Option<int>
    decreases docs.len() - from,
{
    if from < 0 || from >= docs.len() {
        None
    } else if docs[from].key@ == key {
        Some(from)
    } else {
        find_doc(docs, key, from + 1)
    }
}

pub open spec fn unknown_key_message(key: Seq<char>) -> Seq<char> {
    "zex: unknown config key: '"@ + key + "'\nRun `zex config` to list all keys."@
}

fn lines_text_of(p: &Vec<char>) -> (r: Vec<char>)
    ensures
        r@ == lines_text(text_lines(p@)),
{
    let lines = crate::disk::lines_of(p);
    let ghost ls = text_lines(p@);
    let mut out: Vec<char> = Vec::new();
    let mut i: usize = 0;
    assert(ls.take(0) =~= Seq::<Seq<char>>::empty());
    while i < lines.len()
        invariant
            lines@.len() == ls.len(),
            forall|j: int| 0 <= j < lines@.len() ==> lines@[j]@ == ls[j],
            i <= lines@.len(),
            out@ == lines_text(ls.take(i as int)),
        decreases lines@.len() - i,
    {
        let l = &lines[i];
        proof {
            assert(ls.take(i + 1).drop_last() =~= ls.take(i as int));
            assert(ls.take(i + 1).last() == l@);
        }
        let ghost before = out@;
        if l.len() == 0 {
            out.push('\n');
        } else {
            append_str(&mut out, "  ");
            append_str(&mut out, string_from_chars(l).as_str());
            out.push('\n');
            assert(out@ =~= before + "  "@ + l@ + seq!['\n']);
        }
        i = i + 1;
    }
    assert(ls.take(lines@.len() as int) =~= ls);
    out
}

fn paragraph_text_of(p: &Vec<char>) -> (r: Vec<char>)
    ensures
        r@ == paragraph_text(p@),
{
    let mut has_break = false;
    let mut i: usize = 0;
    while i < p.len()
        invariant
            i <= p@.len(),
            has_break == (exists|j: int| 0 <= j < i && p@[j] == '\n'),
        decreases p@.len() - i,
    {
        if p[i] == '\n' {
            has_break = true;
        }
        i = i + 1;
    }
    proof {
        if has_break {
            let j = choose|j: int| 0 <= j < p@.len() && p@[j] == '\n';
            assert(p@.contains('\n'));
        } else {
            assert(!p@.contains('\n'));
        }
    }
    let mut out = if has_break {
        lines_text_of(p)
    } else {
        let mut w = chars_of(wrap(string_from_chars(p).as_str(), 78, "  ").as_str());
        w.push('\n');
        w
    };
    out.push('\n');
    out
}

/// What `zex config <key>` prints, or the error it reports for a key that
/// is not documented.
pub fn key_text(docs: &Vec<ConfigDoc>, key: &str) -> (r: Result<String, String>)
    ensures
        match find_doc(docs@, key@, 0) {
            Some(i) => r matches Ok(t) && t@ == doc_text(docs@[i]),
            None => r matches Err(e) && e@ == unknown_key_message(key@),
        },
{
    let mut i: usize = 0;
    while i < docs.len()
        invariant
            i <= docs@.len(),
            find_doc(docs@, key@, 0) == find_doc(docs@, key@, i as int),
        decreases docs@.len() - i,
    {
        if str_eq(docs[i].key, key) {
            let d = docs[i];
            let mut out: Vec<char> = Vec::new();
            append_str(&mut out, d.key);
            out.push('\n');
            append_str(&mut out, "  Type: ");
            append_str(&mut out, d.type_hint);
            out.push('\n');
            append_str(&mut out, "  Default: ");
            append_str(&mut out, d.default);
            out.push('\n');
            let ghost head = out@;
            assert(head =~= d.key@ + seq!['\n'] + "  Type: "@ + d.type_hint@ + seq!['\n']
                + "  Default: "@ + d.default@ + seq!['\n']);
            let body = chars_of(d.body);
            if body.len() > 0 {
                out.push('\n');
                let sep = vec!['\n', '\n'];
                assert(sep@ =~= seq!['\n', '\n']);
                let ps = split(&body, &sep);
                let ghost pv = split_on(d.body@, seq!['\n', '\n']);
                let ghost start = out@;
                let mut k: usize = 0;
                assert(pv.take(0) =~= Seq::<Seq<char>>::empty());
                while k < ps.len()
                    invariant
                        ps@.len() == pv.len(),
                        forall|j: int| 0 <= j < ps@.len() ==> ps@[j]@ == pv[j],
                        k <= ps@.len(),
                        out@ == start + paragraphs_text(pv.take(k as int)),
                    decreases ps@.len() - k,
                {
                    let t = paragraph_text_of(&ps[k]);
                    proof {
                        assert(pv.take(k + 1).drop_last() =~= pv.take(k as int));
                        assert(pv.take(k + 1).last() == ps@[k as int]@);
                    }
                    let ghost before = out@;
                    append_str(&mut out, string_from_chars(&t).as_str());
                    assert(out@ =~= start + paragraphs_text(pv.take(k + 1)));
                    k = k + 1;
                }
                assert(pv.take(ps@.len() as int) =~= pv);
            }
            return Ok(string_from_chars(&out));
        }
        i = i + 1;
    }
    let mut e: Vec<char> = Vec::new();
    append_str(&mut e, "zex: unknown config key: '");
    append_str(&mut e, key);
    append_str(&mut e, "'\nRun `zex config` to list all keys.");
    assert(e@ =~= unknown_key_message(key@));
    Err(string_from_chars(&e))
}

/// The longest key, in bytes.
pub open spec fn max_key_len(docs: Seq<ConfigDoc>) -> int
    decreases docs.len(),
{
    if docs.len() == 0 {
        0
    } else {
        let prev = max_key_len(docs.drop_last());
        let l = byte_len(docs.last().key@);
        if l > prev {
            l
        } else {
            prev
        }
    }
}

/// `s` followed by spaces up to `width` characters.
pub open spec fn pad(s: Seq<char>, width: int) -> Seq<char> {
    if s.len() < width {
        s + Seq::new((width - s.len()) as nat, |i: int| ' ')
    } else {
        s
    }
}

/// The lines listing the keys of one section, in order.
pub open spec fn section_lines(docs: Seq<ConfigDoc>, section: Seq<char>, width: int) -> Seq<char>
    decreases docs.len(),
{
    if docs.len() == 0 {
        Seq::empty()
    } else {
        let prev = section_lines(docs.drop_last(), section, width);
        let d = docs.last();
        if d.section@ == section {
            prev + "  "@ + pad(d.key@, width) + " "@ + d.summary@ + seq!['\n']
        } else {
            prev
        }
    }
}

pub open spec fn sections_text(docs: Seq<ConfigDoc>, sections: Seq<Seq<char>>, width: int) -> Seq<char>
    decreases sections.len(),
{
    if sections.len() == 0 {
        Seq::empty()
    } else {
        sections_text(docs, sections.drop_last(), width) + sections.last() + seq!['\n']
            + section_lines(docs, sections.last(), width) + seq!['\n']
    }
}

pub open spec fn list_intro() -> Seq<char> {
    "zex reads a JSONC config from $XDG_CONFIG_HOME/zex/config.json\n(falling back to ~/.config/zex/config.json). Every field is optional.\n\n"@
}

pub open spec fn list_outro() -> Seq<char> {
    "Run `zex config <key>` for details on any of the above.\n"@
}

/// What `zex config` prints: where the config is read from, then each
/// section with its keys (padded to the longest key and two more) and their
/// summaries, then how to get the details of a key.
pub open spec fn spec_list_text(docs: Seq<ConfigDoc>, sections: Seq<Seq<char>>) -> Seq<char> {
    list_intro() + sections_text(docs, sections, max_key_len(docs) + 2) + list_outro()
}

fn padded(s: &str, width: usize) -> (r: Vec<char>)
    ensures
        r@ == pad(s@, width as int),
{
    let mut out = chars_of(s);
    let n = out.len();
    if n < width {
        let ghost start = out@;
        let mut k: usize = n;
        while k < width
            invariant
                n <= k <= width,
                out@ == start + Seq::new((k - n) as nat, |i: int| ' '),
            decreases width - k,
        {
            out.push(' ');
            assert(out@ =~= start + Seq::new((k + 1 - n) as nat, |i: int| ' '));
            k = k + 1;
        }
    }
    out
}

/// What `zex config` prints (see `spec_list_text`).
pub fn list_text(docs: &Vec<ConfigDoc>, sections: &Vec<&'static str>) -> (r: String)
    requires
        max_key_len(docs@) + 2 <= usize::MAX,
    ensures
        r@ == spec_list_text(docs@, sections@.map_values(|s: &'static str| s@)),
{
    let ghost sv = sections@.map_values(|s: &'static str| s@);
    let mut longest: usize = 0;
    let mut i: usize = 0;
    assert(docs@.take(0) =~= Seq::<ConfigDoc>::empty());
    while i < docs.len()
        invariant
            i <= docs@.len(),
            longest as int == max_key_len(docs@.take(i as int)),
        decreases docs@.len() - i,
    {
        let l = docs[i].key.len();
        assert(docs@.take(i + 1).drop_last() =~= docs@.take(i as int));
        if l > longest {
            longest = l;
        }
        i = i + 1;
    }
    assert(docs@.take(docs@.len() as int) =~= docs@);
    let width = longest + 2;
    let mut out: Vec<char> = Vec::new();
    append_str(&mut out, "zex reads a JSONC config from $XDG_CONFIG_HOME/zex/config.json\n(falling back to ~/.config/zex/config.json). Every field is optional.\n\n");
    let ghost start = out@;
    let mut k: usize = 0;
    assert(sv.take(0) =~= Seq::<Seq<char>>::empty());
    while k < sections.len()
        invariant
            sv == sections@.map_values(|s: &'static str| s@),
            k <= sections@.len(),
            width == max_key_len(docs@) + 2,
            out@ == start + sections_text(docs@, sv.take(k as int), width as int),
        decreases sections@.len() - k,
    {
        let section = sections[k];
        let ghost before = out@;
        append_str(&mut out, section);
        out.push('\n');
        let ghost mid = out@;
        let mut j: usize = 0;
        assert(docs@.take(0) =~= Seq::<ConfigDoc>::empty());
        while j < docs.len()
            invariant
                j <= docs@.len(),
                out@ == mid + section_lines(docs@.take(j as int), section@, width as int),
            decreases docs@.len() - j,
        {
            let d = docs[j];
            assert(docs@.take(j + 1).drop_last() =~= docs@.take(j as int));
            assert(docs@.take(j + 1).last() == d);
            if str_eq(d.section, section) {
                let ghost b = out@;
                append_str(&mut out, "  ");
                append_str(&mut out, string_from_chars(&padded(d.key, width)).as_str());
                append_str(&mut out, " ");
                append_str(&mut out, d.summary);
                out.push('\n');
                assert(out@ =~= b + "  "@ + pad(d.key@, width as int) + " "@ + d.summary@ + seq!['\n']);
            }
            j = j + 1;
        }
        assert(docs@.take(docs@.len() as int) =~= docs@);
        out.push('\n');
        proof {
            assert(sv.take(k + 1).drop_last() =~= sv.take(k as int));
            assert(sv.take(k + 1).last() == section@);
            assert(out@ =~= start + sections_text(docs@, sv.take(k + 1), width as int));
        }
        k = k + 1;
    }
    assert(sv.take(sections@.len() as int) =~= sv);
    append_str(&mut out, "Run `zex config <key>` for details on any of the above.\n");
    assert(out@ =~= spec_list_text(docs@, sv));
    string_from_chars(&out)
}

} // verus!
