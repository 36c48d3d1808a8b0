//! Searching a directory with ripgrep: the arguments it is run with, and
//! what is made of its output.
//!
//! Running the tool is the caller's part: a search hands out the
//! `ProcessRequest` to run and takes back the `ProcessOutput` (or `None`
//! when the tool could not be started or was stopped).
use vstd::prelude::*;
use vstd::utf8::encode_utf8;

use crate::paths::{join, path_join};
use crate::settings::{CaseSensitivity, SearchCliSettings};
use crate::json::{
    items_view, json_view, lemma_items_view_len, member_index, parse_json_bytes, parsed_json_bytes,
    Json, JsonV,
};
use crate::text::{
    chars_of, decimal_u64, find, find_from, lossy_string, slice, spec_decimal_u64, split_bytes,
    split_bytes_at, string_from_chars, trim, trim_chars, utf8_lossy, lowercase,
};

verus! {

/// Where a query is looked for.
#[derive(Clone, Copy, Debug, PartialEq, Eq, Structural)]
pub enum SearchScope {
    /// In the contents of files.
    Contents,
    /// In the paths of files.
    Names,
}

/// How a query is matched.
#[derive(Clone, Debug)]
pub struct SearchOptions {
    pub query: String,
    pub case: CaseSensitivity,
    pub regex: bool,
    pub whole_word: bool,
    pub include_hidden: bool,
    pub respect_gitignore: bool,
}

/// A matching line of a file.
#[derive(Clone, Debug)]
pub struct ContentMatch {
    pub path: String,
    pub line_number: u64,
    pub line_text: String,
    /// Byte ranges of the matches within the line.
    pub match_ranges: Vec<std::ops::Range<usize>>,
}

/// A file whose path matches.
#[derive(Clone, Debug)]
pub struct NameMatch {
    pub path: String,
    /// Byte ranges of the matches within the path as listed.
    pub match_ranges: Vec<std::ops::Range<usize>>,
}

/// The results of a search, at most as many as asked for; `truncated`
/// when there were more.
pub struct SearchOutcome<T> {
    pub items: Vec<T>,
    pub truncated: bool,
}

/// What a finished process left behind.
#[derive(Clone, Debug)]
pub struct ProcessOutput {
    /// The exit code; `None` when the process was ended by a signal.
    pub status_code: Option<i32>,
    pub stdout: Vec<u8>,
    pub stderr: Vec<u8>,
}

/// A process to run in the searched directory, with a time limit.
#[derive(Clone, Debug)]
pub struct ProcessRequest {
    pub binary: String,
    pub args: Vec<String>,
    /// What is written to the process's input, if anything.
    pub stdin: Option<Vec<u8>>,
    pub timeout_ms: u64,
}

pub type RangeView = (usize, usize);

pub type NameMatchView = (Seq<char>, Seq<RangeView>);

pub type ContentMatchView = (Seq<char>, u64, Seq<char>, Seq<RangeView>);

pub open spec fn ranges_view(r: Seq<std::ops::Range<usize>>) -> Seq<RangeView> {
    r.map_values(|x: std::ops::Range<usize>| (x.start, x.end))
}

impl View for NameMatch {
    type V = NameMatchView;

    open spec fn view(&self) -> NameMatchView {
        (self.path@, ranges_view(self.match_ranges@))
    }
}

impl View for ContentMatch {
    type V = ContentMatchView;

    open spec fn view(&self) -> ContentMatchView {
        (self.path@, self.line_number, self.line_text@, ranges_view(self.match_ranges@))
    }
}

pub open spec fn names_view(v: Seq<NameMatch>) -> Seq<NameMatchView> {
    v.map_values(|m: NameMatch| m@)
}

pub open spec fn contents_view(v: Seq<ContentMatch>) -> Seq<ContentMatchView> {
    v.map_values(|m: ContentMatch| m@)
}

pub open spec fn strings_view(v: Seq<String>) -> Seq<Seq<char>> {
    v.map_values(|s: String| s@)
}

// ---------------------------------------------------------------------------
// Flags

/// The ripgrep flag for a case mode.
pub open spec fn spec_case_flag(case: CaseSensitivity) -> Seq<char> {
    match case {
        CaseSensitivity::Sensitive => "-s"@,
        CaseSensitivity::Insensitive => "-i"@,
        CaseSensitivity::Smart => "-S"@,
    }
}

/// The ripgrep flag for a case mode.
pub fn case_flag(case: CaseSensitivity) -> (f: &'static str)
    ensures
        f@ == spec_case_flag(case),
{
    match case {
        CaseSensitivity::Sensitive => "-s",
        CaseSensitivity::Insensitive => "-i",
        CaseSensitivity::Smart => "-S",
    }
}

/// The flags every content search passes: the case mode, then fixed
/// strings unless the query is a regex, whole words, hidden files, and
/// ignoring `.gitignore`, each when asked for.
pub open spec fn spec_common_flags(o: SearchOptions) -> Seq<Seq<char>> {
    let a = seq![spec_case_flag(o.case)];
    let b = if !o.regex { a.push("--fixed-strings"@) } else { a };
    let c = if o.whole_word { b.push("--word-regexp"@) } else { b };
    let d = if o.include_hidden { c.push("--hidden"@) } else { c };
    if !o.respect_gitignore { d.push("--no-ignore"@) } else { d }
}

/// The flags every content search passes (see `spec_common_flags`).
pub fn common_flags(options: &SearchOptions) -> (flags: Vec<String>)
    ensures
        strings_view(flags@) == spec_common_flags(*options),
{
    let mut flags: Vec<String> = Vec::new();
    flags.push(case_flag(options.case).to_owned());
    if !options.regex {
        flags.push("--fixed-strings".to_owned());
    }
    if options.whole_word {
        flags.push("--word-regexp".to_owned());
    }
    if options.include_hidden {
        flags.push("--hidden".to_owned());
    }
    if !options.respect_gitignore {
        flags.push("--no-ignore".to_owned());
    }
    assert(strings_view(flags@) =~= spec_common_flags(*options));
    flags
}

/// Whether `c` is uppercase, as `char::is_uppercase` decides.
pub uninterp spec fn char_is_uppercase(c: char) -> bool;

/// `char::is_uppercase`.
#[verifier::external_body]
fn is_uppercase(c: char) -> (b: bool)
    ensures
        b == char_is_uppercase(c),
{
    c.is_uppercase()
}

/// Whether a query is matched regardless of case: always when asked to,
/// never when asked not to, and in smart mode when it has no uppercase
/// letter.
pub open spec fn spec_is_case_insensitive(case: CaseSensitivity, query: Seq<char>) -> bool {
    match case {
        CaseSensitivity::Sensitive => false,
        CaseSensitivity::Insensitive => true,
        CaseSensitivity::Smart => forall|i: int| 0 <= i < query.len() ==> !char_is_uppercase(
            #[trigger] query[i],
        ),
    }
}

/// Whether a query is matched regardless of case.
pub fn is_case_insensitive(case: CaseSensitivity, query: &str) -> (b: bool)
    ensures
        b == spec_is_case_insensitive(case, query@),
{
    match case {
        CaseSensitivity::Sensitive => false,
        CaseSensitivity::Insensitive => true,
        CaseSensitivity::Smart => {
            let q = chars_of(query);
            let mut k: usize = 0;
            while k < q.len()
                invariant
                    case == CaseSensitivity::Smart,
                    q@ == query@,
                    k <= q@.len(),
                    forall|i: int| 0 <= i < k ==> !char_is_uppercase(#[trigger] q@[i]),
                decreases q@.len() - k,
            {
                if is_uppercase(q[k]) {
                    assert(char_is_uppercase(query@[k as int]));
                    assert(!(forall|i: int|
                        0 <= i < query@.len() ==> !char_is_uppercase(#[trigger] query@[i])));
                    return false;
                }
                k = k + 1;
            }
            true
        },
    }
}

// ---------------------------------------------------------------------------
// Messages

pub open spec fn spec_rg_unavailable_message() -> Seq<char> {
    "Couldn't start ripgrep (rg). Make sure it's installed and on your PATH."@
}

/// What is reported when ripgrep cannot be started.
pub fn rg_unavailable_message() -> (m: String)
    ensures
        m@ == spec_rg_unavailable_message(),
{
    "Couldn't start ripgrep (rg). Make sure it's installed and on your PATH.".to_owned()
}

/// What is reported when ripgrep fails: its error output, trimmed, or a
/// plain message when there is none.
pub open spec fn spec_rg_error_message(stderr: Seq<u8>) -> Seq<char> {
    let text = trim(utf8_lossy(stderr));
    if text.len() == 0 {
        "ripgrep exited with an error"@
    } else {
        text
    }
}

/// What is reported when ripgrep fails (see `spec_rg_error_message`).
pub fn rg_error_message(stderr: &[u8]) -> (m: String)
    ensures
        m@ == spec_rg_error_message(stderr@),
{
    let text = trim_chars(&chars_of(lossy_string(stderr).as_str()));
    if text.len() == 0 {
        "ripgrep exited with an error".to_owned()
    } else {
        string_from_chars(&text)
    }
}

// ---------------------------------------------------------------------------
// Output lines

/// `s` without its trailing line-break characters (`\n` and `\r`).
pub open spec fn trim_line_breaks(s: Seq<char>) -> Seq<char>
    decreases s.len(),
{
    if s.len() > 0 && (s.last() == '\n' || s.last() == '\r') {
        trim_line_breaks(s.drop_last())
    } else {
        s
    }
}

fn trim_line_breaks_of(s: &str) -> (r: String)
    ensures
        r@ == trim_line_breaks(s@),
{
    let cs = chars_of(s);
    let mut n: usize = cs.len();
    assert(cs@ =~= cs@.take(cs@.len() as int));
    while n > 0 && (cs[n - 1] == '\n' || cs[n - 1] == '\r')
        invariant
            n <= cs@.len(),
            trim_line_breaks(cs@) == trim_line_breaks(cs@.take(n as int)),
        decreases n,
    {
        assert(cs@.take(n as int).drop_last() =~= cs@.take(n - 1));
        n = n - 1;
    }
    assert(cs@ =~= cs@.take(cs@.len() as int));
    string_from_chars(&slice(&cs, 0, n))
}

/// The byte position in the UTF-8 form of `s` where its `i`-th character
/// starts.
pub open spec fn byte_offset(s: Seq<char>, i: int) -> usize {
    encode_utf8(s.take(i)).len() as usize
}

fn byte_offset_of(s: &Vec<char>, i: usize) -> (b: usize)
    requires
        i <= s@.len(),
    ensures
        b == byte_offset(s@, i as int),
{
    let head = string_from_chars(&slice(s, 0, i));
    assert(head@ =~= s@.take(i as int));
    head.as_str().len()
}

/// The fields of one line of ripgrep's JSON output that a search reads.
#[derive(Clone, Debug)]
pub struct RgEvent {
    /// `type`.
    pub kind: Option<String>,
    /// `data.path.text`.
    pub path: Option<String>,
    /// `data.line_number`.
    pub line_number: Option<u64>,
    /// `data.lines.text`.
    pub text: Option<String>,
    /// `start` and `end` of each element of `data.submatches`, when that is
    /// an array.
    pub submatches: Option<Vec<(Option<u64>, Option<u64>)>>,
}

/// A search event, as plain values.
pub struct RgEventView {
    pub kind: Option<Seq<char>>,
    pub path: Option<Seq<char>>,
    pub line_number: Option<u64>,
    pub text: Option<Seq<char>>,
    pub submatches: Option<Seq<(Option<u64>, Option<u64>)>>,
}

pub open spec fn opt_string_view(o: Option<String>) -> Option<Seq<char>> {
    match o {
        Some(s) => Some(s@),
        None => None,
    }
}

pub open spec fn event_view(e: Option<RgEvent>) -> Option<RgEventView> {
    match e {
        None => None,
        Some(ev) => Some(
            RgEventView {
                kind: opt_string_view(ev.kind),
                path: opt_string_view(ev.path),
                line_number: ev.line_number,
                text: opt_string_view(ev.text),
                submatches: match ev.submatches {
                    Some(v) => Some(v@),
                    None => None,
                },
            },
        ),
    }
}

/// The member named `key` of an object; nothing for anything else.
pub open spec fn json_member(j: Option<JsonV>, key: Seq<char>) -> Option<JsonV> {
    match j {
        Some(JsonV::Object(m)) => match member_index(m, key) {
            Some(i) => Some(m[i].1),
            None => None,
        },
        _ => None,
    }
}

/// The text of a string value.
pub open spec fn json_str(j: Option<JsonV>) -> Option<Seq<char>> {
    match j {
        Some(JsonV::Str(s)) => Some(s),
        _ => None,
    }
}

/// A number value that is a non-negative integer within u64 (the text of
/// such a number is its decimal digits alone).
pub open spec fn json_u64(j: Option<JsonV>) -> Option<u64> {
    match j {
        Some(JsonV::Number(n)) => spec_decimal_u64(n),
        _ => None,
    }
}

/// The items of an array value.
pub open spec fn json_array(j: Option<JsonV>) -> Option<Seq<JsonV>> {
    match j {
        Some(JsonV::Array(items)) => Some(items),
        _ => None,
    }
}

/// `start` and `end` of each submatch.
pub open spec fn submatch_ends(items: Seq<JsonV>) -> Seq<(Option<u64>, Option<u64>)> {
    items.map_values(
        |m: JsonV| (json_u64(json_member(Some(m), "start"@)), json_u64(json_member(Some(m), "end"@))),
    )
}

/// The fields of a search event that the library reads: `type`,
/// `data.path.text`, `data.line_number`, `data.lines.text` and the ends of
/// each of `data.submatches`.
pub open spec fn json_event(j: JsonV) -> RgEventView {
    let data = json_member(Some(j), "data"@);
    RgEventView {
        kind: json_str(json_member(Some(j), "type"@)),
        path: json_str(json_member(json_member(data, "path"@), "text"@)),
        line_number: json_u64(json_member(data, "line_number"@)),
        text: json_str(json_member(json_member(data, "lines"@), "text"@)),
        submatches: match json_array(json_member(data, "submatches"@)) {
            Some(items) => Some(submatch_ends(items)),
            None => None,
        },
    }
}

/// The event on a line of ripgrep's output: `None` when it is not JSON.
pub open spec fn rg_json_event(line: Seq<u8>) -> Option<RgEventView> {
    match parsed_json_bytes(line) {
        Some(j) => Some(json_event(j)),
        None => None,
    }
}

pub open spec fn opt_json_view(j: Option<&Json>) -> Option<JsonV> {
    match j {
        Some(v) => Some(json_view(*v)),
        None => None,
    }
}

fn member<'a>(j: Option<&'a Json>, key: &str) -> (r: Option<&'a Json>)
    ensures
        opt_json_view(r) == json_member(opt_json_view(j), key@),
{
    match j {
        Some(v) => v.get(key),
        None => None,
    }
}

fn str_of(j: Option<&Json>) -> (r: Option<String>)
    ensures
        opt_string_view(r) == json_str(opt_json_view(j)),
{
    match j {
        Some(Json::Str(s)) => Some(s.clone()),
        _ => None,
    }
}

fn u64_of(j: Option<&Json>) -> (r: Option<u64>)
    ensures
        r == json_u64(opt_json_view(j)),
{
    match j {
        Some(Json::Number(n)) => decimal_u64(n.as_str()),
        _ => None,
    }
}

fn submatches_of(j: Option<&Json>) -> (r: Option<Vec<(Option<u64>, Option<u64>)>>)
    ensures
        match json_array(opt_json_view(j)) {
            Some(items) => r matches Some(v) && v@ == submatch_ends(items),
            None => r is None,
        },
{
    match j {
        Some(Json::Array(items)) => {
            proof {
                lemma_items_view_len(items@);
            }
            let ghost iv = items_view(items@);
            let mut v: Vec<(Option<u64>, Option<u64>)> = Vec::new();
            let mut k: usize = 0;
            while k < items.len()
                invariant
                    k <= items@.len(),
                    iv == items_view(items@),
                    iv.len() == items@.len(),
                    forall|i: int| 0 <= i < items@.len() ==> #[trigger] iv[i] == json_view(items@[i]),
                    v@ == submatch_ends(iv.take(k as int)),
                decreases items@.len() - k,
            {
                let m = &items[k];
                let start = u64_of(member(Some(m), "start"));
                let end = u64_of(member(Some(m), "end"));
                let ghost before = v@;
                v.push((start, end));
                proof {
                    assert(iv[k as int] == json_view(*m));
                    assert(submatch_ends(iv.take(k + 1)) =~= submatch_ends(iv.take(k as int)).push(
                        (start, end),
                    ));
                }
                k = k + 1;
            }
            assert(iv.take(iv.len() as int) =~= iv);
            Some(v)
        },
        _ => None,
    }
}

fn event_of(j: &Json) -> (e: RgEvent)
    ensures
        event_view(Some(e)) == Some(json_event(json_view(*j))),
{
    let data = member(Some(j), "data");
    RgEvent {
        kind: str_of(member(Some(j), "type")),
        path: str_of(member(member(data, "path"), "text")),
        line_number: u64_of(member(data, "line_number")),
        text: str_of(member(member(data, "lines"), "text")),
        submatches: submatches_of(member(data, "submatches")),
    }
}

/// The event on a line of ripgrep's output: the line read as JSON, and
/// the fields the library uses picked out of it.
fn rg_event(line: &[u8]) -> (r: Option<RgEvent>)
    ensures
        event_view(r) == rg_json_event(line@),
{
    match parse_json_bytes(line) {
        Some(j) => Some(event_of(&j)),
        None => None,
    }
}

/// The match event on a line of output, if it is one: a non-empty line
/// that is JSON with `type` `match`.
pub open spec fn match_event(line: Seq<u8>) -> Option<RgEventView> {
    if line.len() == 0 {
        None
    } else {
        match rg_json_event(line) {
            Some(ev) => if ev.kind == Some("match"@) {
                Some(ev)
            } else {
                None
            },
            None => None,
        }
    }
}

/// The byte ranges of the submatches that have both ends.
pub open spec fn submatch_ranges(subs: Seq<(Option<u64>, Option<u64>)>) -> Seq<RangeView>
    decreases subs.len(),
{
    if subs.len() == 0 {
        Seq::empty()
    } else {
        let prev = submatch_ranges(subs.drop_last());
        match subs.last() {
            (Some(s), Some(e)) => prev.push((s as usize, e as usize)),
            _ => prev,
        }
    }
}

/// A submatch's byte range, when it has both ends.
pub open spec fn complete_range(p: (Option<u64>, Option<u64>)) -> Option<RangeView> {
    match p {
        (Some(s), Some(e)) => Some((s as usize, e as usize)),
        _ => None,
    }
}

/// Every submatch that has both ends gives one range, in order, and no
/// other range is reported.
pub proof fn lemma_submatch_ranges_complete(subs: Seq<(Option<u64>, Option<u64>)>)
    ensures
        submatch_ranges(subs) == subs.filter_map(|p: (Option<u64>, Option<u64>)| complete_range(p)),
        submatch_ranges(subs).len() <= subs.len(),
    decreases subs.len(),
{
    if subs.len() > 0 {
        lemma_submatch_ranges_complete(subs.drop_last());
        let f = |p: (Option<u64>, Option<u64>)| complete_range(p);
        assert(subs.filter_map(f) == match f(subs.last()) {
            Some(r) => subs.drop_last().filter_map(f) + seq![r],
            None => subs.drop_last().filter_map(f),
        });
        match subs.last() {
            (Some(a), Some(b)) => {
                assert(submatch_ranges(subs.drop_last()).push((a as usize, b as usize)) =~= subs.drop_last().filter_map(f) + seq![(a as usize, b as usize)]);
            },
            _ => {},
        }
    }
}

/// A content match highlights every submatch of its line that has both
/// ends, in order.
pub proof fn lemma_content_hit_ranges(dir: Seq<char>, line: Seq<u8>)
    ensures
        content_hit(dir, line) matches Some(h) ==> h.3 == match match_event(line)->0.submatches {
            Some(subs) => subs.filter_map(|p: (Option<u64>, Option<u64>)| complete_range(p)),
            None => Seq::empty(),
        },
{
    if let Some(ev) = match_event(line) {
        if let Some(subs) = ev.submatches {
            lemma_submatch_ranges_complete(subs);
        }
    }
}

pub open spec fn event_ranges(ev: RgEventView) -> Seq<RangeView> {
    match ev.submatches {
        Some(s) => submatch_ranges(s),
        None => Seq::empty(),
    }
}

fn is_match_kind(kind: &Option<String>) -> (b: bool)
    ensures
        b == (opt_string_view(*kind) == Some("match"@)),
{
    match kind {
        Some(k) => crate::text::str_eq(k.as_str(), "match"),
        None => false,
    }
}

fn match_event_of(line: &Vec<u8>) -> (r: Option<RgEvent>)
    ensures
        event_view(r) == match_event(line@),
{
    if line.len() == 0 {
        return None;
    }
    match rg_event(line.as_slice()) {
        Some(ev) => if is_match_kind(&ev.kind) {
            Some(ev)
        } else {
            None
        },
        None => None,
    }
}

fn ranges_of(ev: &RgEvent) -> (r: Vec<std::ops::Range<usize>>)
    ensures
        ranges_view(r@) == event_ranges(event_view(Some(*ev))->0),
{
    let mut r: Vec<std::ops::Range<usize>> = Vec::new();
    match &ev.submatches {
        None => {
            assert(ranges_view(r@) =~= Seq::<RangeView>::empty());
        },
        Some(subs) => {
            let mut k: usize = 0;
            while k < subs.len()
                invariant
                    k <= subs@.len(),
                    ranges_view(r@) == submatch_ranges(subs@.take(k as int)),
                decreases subs@.len() - k,
            {
                let (s, e) = subs[k];
                proof {
                    assert(subs@.take(k + 1).drop_last() =~= subs@.take(k as int));
                }
                match (s, e) {
                    (Some(s), Some(e)) => {
                        let ghost before = r@;
                        r.push(std::ops::Range { start: s as usize, end: e as usize });
                        assert(ranges_view(r@) =~= ranges_view(before).push((s as usize, e as usize)));
                    },
                    _ => {},
                }
                k = k + 1;
            }
            assert(subs@.take(subs@.len() as int) =~= subs@);
        },
    }
    r
}

// ---------------------------------------------------------------------------
// Content search

/// The match a content search reports for a line of output, if any: a
/// match event with a path, a line number and the line's text.
pub open spec fn content_hit(dir: Seq<char>, line: Seq<u8>) -> Option<ContentMatchView> {
    match match_event(line) {
        Some(ev) => match (ev.path, ev.line_number, ev.text) {
            (Some(p), Some(n), Some(t)) => Some(
                (path_join(dir, p), n, trim_line_breaks(t), event_ranges(ev)),
            ),
            _ => None,
        },
        None => None,
    }
}

/// What a content match reports of a line of output: nothing unless the
/// line is a match event with a path, a line number and the line's text;
/// then the path joined to the searched folder, that line number, the text
/// without the line breaks that end it (and nothing else taken off), and
/// the submatch ranges.
pub proof fn lemma_content_hit_fields(dir: Seq<char>, line: Seq<u8>)
    ensures
        content_hit(dir, line) is Some <==> (match_event(line) matches Some(ev) && ev.path is Some
            && ev.line_number is Some && ev.text is Some),
        content_hit(dir, line) matches Some(h) ==> {
            let ev = match_event(line)->0;
            let t = ev.text->0;
            &&& ev.kind == Some("match"@)
            &&& h.0 == path_join(dir, ev.path->0)
            &&& h.1 == ev.line_number->0
            &&& h.2.len() <= t.len()
            &&& t.take(h.2.len() as int) == h.2
            &&& forall|k: int| h.2.len() <= k < t.len() ==> #[trigger] t[k] == '\n' || t[k] == '\r'
            &&& (h.2.len() > 0 ==> h.2.last() != '\n' && h.2.last() != '\r')
        },
{
    if let Some(h) = content_hit(dir, line) {
        let t = match_event(line)->0.text->0;
        lemma_trim_line_breaks(t);
    }
}

proof fn lemma_trim_line_breaks(t: Seq<char>)
    ensures
        trim_line_breaks(t).len() <= t.len(),
        t.take(trim_line_breaks(t).len() as int) == trim_line_breaks(t),
        forall|k: int| trim_line_breaks(t).len() <= k < t.len() ==> #[trigger] t[k] == '\n' || t[k] == '\r',
        trim_line_breaks(t).len() > 0 ==> trim_line_breaks(t).last() != '\n' && trim_line_breaks(t).last()
            != '\r',
    decreases t.len(),
{
    if t.len() > 0 && (t.last() == '\n' || t.last() == '\r') {
        let d = t.drop_last();
        lemma_trim_line_breaks(d);
        let r = trim_line_breaks(d);
        assert(t.take(r.len() as int) =~= d.take(r.len() as int));
        assert forall|k: int| r.len() <= k < t.len() implies #[trigger] t[k] == '\n' || t[k] == '\r' by {
            if k < d.len() {
                assert(d[k] == t[k]);
            }
        }
    } else {
        assert(t.take(t.len() as int) =~= t);
    }
}

/// Every match a content search reports, in order.
pub open spec fn content_hits(dir: Seq<char>, lines: Seq<Seq<u8>>) -> Seq<ContentMatchView>
    decreases lines.len(),
{
    if lines.len() == 0 {
        Seq::empty()
    } else {
        let prev = content_hits(dir, lines.drop_last());
        match content_hit(dir, lines.last()) {
            Some(h) => prev.push(h),
            None => prev,
        }
    }
}

/// At most `max` of `hits`, and whether some were left out.
pub open spec fn limited<T>(hits: Seq<T>, max: usize, items: Seq<T>, truncated: bool) -> bool {
    &&& items =~= hits.take(if hits.len() < max { hits.len() as int } else { max as int })
    &&& truncated == (hits.len() > max)
}

/// Every line of output that is a content match gives one, in the order
/// of the lines; no other line gives any.
pub proof fn lemma_content_hits_in_order(dir: Seq<char>, lines: Seq<Seq<u8>>)
    ensures
        content_hits(dir, lines) == lines.filter_map(|l: Seq<u8>| content_hit(dir, l)),
    decreases lines.len(),
{
    if lines.len() > 0 {
        lemma_content_hits_in_order(dir, lines.drop_last());
        let f = |l: Seq<u8>| content_hit(dir, l);
        assert(lines.filter_map(f) == match f(lines.last()) {
            Some(h) => lines.drop_last().filter_map(f) + seq![h],
            None => lines.drop_last().filter_map(f),
        });
        if let Some(h) = content_hit(dir, lines.last()) {
            assert(content_hits(dir, lines.drop_last()).push(h) =~= lines.drop_last().filter_map(f) + seq![h]);
        }
    }
}

/// Keeping at most `max` results keeps the first ones, in order, and says
/// that some were left out exactly when there were more than `max`.
pub proof fn lemma_limited_keeps_first<T>(hits: Seq<T>, max: usize, items: Seq<T>, truncated: bool)
    requires
        limited(hits, max, items, truncated),
    ensures
        items.len() <= max,
        items.len() <= hits.len(),
        truncated <==> hits.len() > max,
        forall|k: int| 0 <= k < items.len() ==> #[trigger] items[k] == hits[k],
        !truncated ==> items == hits,
        truncated ==> items.len() == max,
{
    if !truncated {
        assert(hits.take(hits.len() as int) =~= hits);
    }
}

/// Reads ripgrep's JSON output into content matches, keeping at most
/// `max_results`.
pub fn parse_content_matches(dir: &str, stdout: &[u8], max_results: usize) -> (r: SearchOutcome<
    ContentMatch,
>)
    ensures
        limited(
            content_hits(dir@, split_bytes(stdout@, 10)),
            max_results,
            contents_view(r.items@),
            r.truncated,
        ),
{
    let lines = split_bytes_at(stdout, 10);
    let ghost ls = split_bytes(stdout@, 10);
    let dir_chars = chars_of(dir);
    let mut items: Vec<ContentMatch> = Vec::new();
    let mut truncated = false;
    let mut k: usize = 0;
    assert(ls.take(0) =~= Seq::<Seq<u8>>::empty());
    assert(contents_view(items@) =~= Seq::<ContentMatchView>::empty());
    assert(content_hits(dir@, ls.take(0)) =~= Seq::<ContentMatchView>::empty());
    while k < lines.len()
        invariant
            lines@.len() == ls.len(),
            forall|j: int| 0 <= j < lines@.len() ==> lines@[j]@ == ls[j],
            dir_chars@ == dir@,
            k <= lines@.len(),
            limited(content_hits(dir@, ls.take(k as int)), max_results, contents_view(items@), truncated),
        decreases lines@.len() - k,
    {
        proof {
            assert(ls.take(k + 1).drop_last() =~= ls.take(k as int));
            assert(ls.take(k + 1).last() == lines@[k as int]@);
        }
        let ghost prev_hits = content_hits(dir@, ls.take(k as int));
        let ghost hit = content_hit(dir@, ls[k as int]);
        assert(content_hits(dir@, ls.take(k + 1)) == match hit {
            Some(h) => prev_hits.push(h),
            None => prev_hits,
        });
        if let Some(ev) = match_event_of(&lines[k]) {
            match (&ev.path, ev.line_number, &ev.text) {
                (Some(p), Some(n), Some(t)) => {
                    if items.len() >= max_results {
                        truncated = true;
                        proof {
                            assert(contents_view(items@).len() == items@.len());
                            let h = prev_hits.push(hit->0);
                            assert(h.take(max_results as int) =~= prev_hits.take(max_results as int));
                        }
                    } else {
                        let m = ContentMatch {
                            path: string_from_chars(&join(&dir_chars, &chars_of(p.as_str()))),
                            line_number: n,
                            line_text: trim_line_breaks_of(t.as_str()),
                            match_ranges: ranges_of(&ev),
                        };
                        let ghost before = items@;
                        items.push(m);
                        proof {
                            assert(m@ == hit->0);
                            assert(contents_view(items@) =~= contents_view(before).push(m@));
                            assert(prev_hits.len() < max_results);
                            assert(prev_hits.push(m@).take(prev_hits.len() + 1 as int) =~= prev_hits.push(m@));
                        }
                    }
                },
                _ => {},
            }
        }
        k = k + 1;
    }
    assert(ls.take(ls.len() as int) =~= ls);
    SearchOutcome { items, truncated }
}

/// Where the search tool is: the configured binary, else `rg`.
pub open spec fn spec_binary(cli: SearchCliSettings) -> Seq<char> {
    match cli.binary_path {
        Some(b) => b@,
        None => "rg"@,
    }
}

fn binary_of(cli: &SearchCliSettings) -> (b: String)
    ensures
        b@ == spec_binary(*cli),
{
    match &cli.binary_path {
        Some(b) => b.clone(),
        None => "rg".to_owned(),
    }
}

/// The arguments of a content search: JSON output with line numbers, the
/// common flags, then the query and the current directory.
pub open spec fn spec_content_args(o: SearchOptions) -> Seq<Seq<char>> {
    seq!["--json"@, "--line-number"@] + spec_common_flags(o) + seq!["--"@, o.query@, "."@]
}

/// The process a content search runs: nothing for an empty query.
pub fn content_search_request(options: &SearchOptions, cli: &SearchCliSettings) -> (r: Option<
    ProcessRequest,
>)
    ensures
        options.query@.len() == 0 ==> r is None,
        options.query@.len() > 0 ==> (r matches Some(req) && req.binary@ == spec_binary(*cli)
            && strings_view(req.args@) == spec_content_args(*options) && req.stdin is None
            && req.timeout_ms == cli.timeout_ms),
{
    if options.query.as_str().is_empty() {
        return None;
    }
    let mut args: Vec<String> = Vec::new();
    args.push("--json".to_owned());
    args.push("--line-number".to_owned());
    assert(strings_view(args@) =~= seq!["--json"@, "--line-number"@]);
    let flags = common_flags(options);
    let mut k: usize = 0;
    let ghost start = args@;
    while k < flags.len()
        invariant
            k <= flags@.len(),
            strings_view(args@) == strings_view(start) + strings_view(flags@).take(k as int),
        decreases flags@.len() - k,
    {
        let ghost before = args@;
        args.push(flags[k].clone());
        assert(strings_view(args@) =~= strings_view(before).push(flags@[k as int]@));
        assert(strings_view(flags@).take(k + 1) =~= strings_view(flags@).take(k as int).push(
            flags@[k as int]@,
        ));
        k = k + 1;
    }
    assert(strings_view(flags@).take(flags@.len() as int) =~= strings_view(flags@));
    let ghost mid = args@;
    args.push("--".to_owned());
    args.push(options.query.clone());
    args.push(".".to_owned());
    assert(strings_view(args@) =~= strings_view(mid) + seq!["--"@, options.query@, "."@]);
    assert(strings_view(args@) =~= spec_content_args(*options));
    Some(ProcessRequest { binary: binary_of(cli), args, stdin: None, timeout_ms: cli.timeout_ms })
}

/// Whether ripgrep's exit code means success (0: matches, 1: none).
pub open spec fn rg_succeeded(code: Option<i32>) -> bool {
    code == Some(0i32) || code == Some(1i32)
}

/// The result of a content search, given what running its request left
/// behind (`None` when ripgrep could not be run): nothing for an empty
/// query, the matches when ripgrep succeeded, else the error to show.
pub fn run_content_search(
    dir: &str,
    options: &SearchOptions,
    max_results: usize,
    output: Option<ProcessOutput>,
) -> (r: Result<SearchOutcome<ContentMatch>, String>)
    ensures
        options.query@.len() == 0 ==> (r matches Ok(o) && o.items@.len() == 0 && !o.truncated),
        options.query@.len() > 0 ==> match output {
            None => r matches Err(e) && e@ == spec_rg_unavailable_message(),
            Some(out) => if rg_succeeded(out.status_code) {
                r matches Ok(o) && limited(
                    content_hits(dir@, split_bytes(out.stdout@, 10)),
                    max_results,
                    contents_view(o.items@),
                    o.truncated,
                )
            } else {
                r matches Err(e) && e@ == spec_rg_error_message(out.stderr@)
            },
        },
{
    if options.query.as_str().is_empty() {
        return Ok(SearchOutcome { items: Vec::new(), truncated: false });
    }
    match output {
        None => Err(rg_unavailable_message()),
        Some(out) => {
            if out.status_code == Some(0i32) || out.status_code == Some(1i32) {
                Ok(parse_content_matches(dir, out.stdout.as_slice(), max_results))
            } else {
                Err(rg_error_message(out.stderr.as_slice()))
            }
        },
    }
}

// ---------------------------------------------------------------------------
// Name search

/// The arguments that list the candidate files of a name search.
pub open spec fn spec_listing_args(o: SearchOptions) -> Seq<Seq<char>> {
    let a = seq!["--files"@];
    let b = if o.include_hidden { a.push("--hidden"@) } else { a };
    let c = if !o.respect_gitignore { b.push("--no-ignore"@) } else { b };
    c.push("."@)
}

/// The process that lists the candidates of a name search: nothing for an
/// empty query.
pub fn name_listing_request(options: &SearchOptions, cli: &SearchCliSettings) -> (r: Option<
    ProcessRequest,
>)
    ensures
        options.query@.len() == 0 ==> r is None,
        options.query@.len() > 0 ==> (r matches Some(req) && req.binary@ == spec_binary(*cli)
            && strings_view(req.args@) == spec_listing_args(*options) && req.stdin is None
            && req.timeout_ms == cli.timeout_ms),
{
    if options.query.as_str().is_empty() {
        return None;
    }
    let mut args: Vec<String> = Vec::new();
    args.push("--files".to_owned());
    if options.include_hidden {
        args.push("--hidden".to_owned());
    }
    if !options.respect_gitignore {
        args.push("--no-ignore".to_owned());
    }
    args.push(".".to_owned());
    assert(strings_view(args@) =~= spec_listing_args(*options));
    Some(ProcessRequest { binary: binary_of(cli), args, stdin: None, timeout_ms: cli.timeout_ms })
}

/// The arguments that match the candidates of a regex name search, read
/// from the input.
pub open spec fn spec_regex_filter_args(o: SearchOptions) -> Seq<Seq<char>> {
    let a = seq!["--json"@, spec_case_flag(o.case)];
    let b = if o.whole_word { a.push("--word-regexp"@) } else { a };
    b + seq!["--"@, o.query@, "-"@]
}

fn regex_filter_request(options: &SearchOptions, cli: &SearchCliSettings, candidates: Vec<u8>) -> (r:
    ProcessRequest)
    ensures
        r.binary@ == spec_binary(*cli),
        strings_view(r.args@) == spec_regex_filter_args(*options),
        r.stdin == Some(candidates),
        r.timeout_ms == cli.timeout_ms,
{
    let mut args: Vec<String> = Vec::new();
    args.push("--json".to_owned());
    args.push(case_flag(options.case).to_owned());
    if options.whole_word {
        args.push("--word-regexp".to_owned());
    }
    args.push("--".to_owned());
    args.push(options.query.clone());
    args.push("-".to_owned());
    assert(strings_view(args@) =~= spec_regex_filter_args(*options));
    ProcessRequest {
        binary: binary_of(cli),
        args,
        stdin: Some(candidates),
        timeout_ms: cli.timeout_ms,
    }
}

/// The match a literal name search reports for a listed line, if any: the
/// first occurrence of the query in the line (both lowercased when case is
/// ignored), as a byte range.
pub open spec fn literal_hit(dir: Seq<char>, line: Seq<u8>, needle: Seq<char>, insensitive: bool) -> Option<
    NameMatchView,
> {
    if line.len() == 0 {
        None
    } else {
        let text = utf8_lossy(line);
        let hay = if insensitive {
            lowercase(text)
        } else {
            text
        };
        match find_from(hay, needle, 0) {
            None => None,
            Some(i) => Some(
                (
                    path_join(dir, text),
                    seq![(byte_offset(hay, i), byte_offset(hay, i + needle.len()))],
                ),
            ),
        }
    }
}

/// Every match a literal name search reports, in order.
pub open spec fn literal_hits(
    dir: Seq<char>,
    lines: Seq<Seq<u8>>,
    needle: Seq<char>,
    insensitive: bool,
) -> Seq<NameMatchView>
    decreases lines.len(),
{
    if lines.len() == 0 {
        Seq::empty()
    } else {
        let prev = literal_hits(dir, lines.drop_last(), needle, insensitive);
        match literal_hit(dir, lines.last(), needle, insensitive) {
            Some(h) => prev.push(h),
            None => prev,
        }
    }
}

/// The query as it is looked for: lowercased when case is ignored.
pub open spec fn spec_needle(o: SearchOptions) -> Seq<char> {
    if spec_is_case_insensitive(o.case, o.query@) {
        lowercase(o.query@)
    } else {
        o.query@
    }
}

fn literal_hit_of(dir: &Vec<char>, line: &Vec<u8>, needle: &Vec<char>, insensitive: bool) -> (r: Option<
    NameMatch,
>)
    ensures
        match r {
            Some(m) => literal_hit(dir@, line@, needle@, insensitive) == Some(m@),
            None => literal_hit(dir@, line@, needle@, insensitive) is None,
        },
{
    if line.len() == 0 {
        return None;
    }
    let text = lossy_string(line.as_slice());
    let hay = if insensitive {
        chars_of(crate::text::to_lowercase(text.as_str()).as_str())
    } else {
        chars_of(text.as_str())
    };
    match find(&hay, needle, 0) {
        None => None,
        Some(i) => {
            proof {
                crate::text::lemma_find_from_bounds(hay@, needle@, 0);
            }
            let start = byte_offset_of(&hay, i);
            let end = byte_offset_of(&hay, i + needle.len());
            let mut ranges: Vec<std::ops::Range<usize>> = Vec::new();
            ranges.push(std::ops::Range { start, end });
            let m = NameMatch {
                path: string_from_chars(&join(dir, &chars_of(text.as_str()))),
                match_ranges: ranges,
            };
            assert(ranges_view(m.match_ranges@) =~= seq![(start, end)]);
            Some(m)
        },
    }
}

/// Matches the query literally against each listed path, keeping at most
/// `max_results`.
pub fn filter_names_literal(
    dir: &str,
    options: &SearchOptions,
    candidates: &[u8],
    max_results: usize,
) -> (r: SearchOutcome<NameMatch>)
    ensures
        limited(
            literal_hits(
                dir@,
                split_bytes(candidates@, 10),
                spec_needle(*options),
                spec_is_case_insensitive(options.case, options.query@),
            ),
            max_results,
            names_view(r.items@),
            r.truncated,
        ),
{
    let insensitive = is_case_insensitive(options.case, options.query.as_str());
    let needle = if insensitive {
        chars_of(crate::text::to_lowercase(options.query.as_str()).as_str())
    } else {
        chars_of(options.query.as_str())
    };
    let ghost ins = spec_is_case_insensitive(options.case, options.query@);
    let lines = split_bytes_at(candidates, 10);
    let ghost ls = split_bytes(candidates@, 10);
    let dir_chars = chars_of(dir);
    let mut items: Vec<NameMatch> = Vec::new();
    let mut truncated = false;
    let mut k: usize = 0;
    assert(ls.take(0) =~= Seq::<Seq<u8>>::empty());
    assert(names_view(items@) =~= Seq::<NameMatchView>::empty());
    assert(literal_hits(dir@, ls.take(0), needle@, ins) =~= Seq::<NameMatchView>::empty());
    while k < lines.len()
        invariant
            lines@.len() == ls.len(),
            forall|j: int| 0 <= j < lines@.len() ==> lines@[j]@ == ls[j],
            dir_chars@ == dir@,
            insensitive == ins,
            needle@ == spec_needle(*options),
            k <= lines@.len(),
            limited(literal_hits(dir@, ls.take(k as int), needle@, ins), max_results, names_view(items@), truncated),
        decreases lines@.len() - k,
    {
        proof {
            assert(ls.take(k + 1).drop_last() =~= ls.take(k as int));
            assert(ls.take(k + 1).last() == lines@[k as int]@);
        }
        let ghost prev_hits = literal_hits(dir@, ls.take(k as int), needle@, ins);
        let ghost hit = literal_hit(dir@, ls[k as int], needle@, ins);
        if let Some(m) = literal_hit_of(&dir_chars, &lines[k], &needle, insensitive) {
            if items.len() >= max_results {
                truncated = true;
                proof {
                    assert(names_view(items@).len() == items@.len());
                    let h = prev_hits.push(hit->0);
                    assert(h.take(max_results as int) =~= prev_hits.take(max_results as int));
                }
            } else {
                let ghost before = items@;
                items.push(m);
                proof {
                    assert(names_view(items@) =~= names_view(before).push(m@));
                    assert(prev_hits.push(m@).take(prev_hits.len() + 1 as int) =~= prev_hits.push(m@));
                }
            }
        }
        k = k + 1;
    }
    assert(ls.take(ls.len() as int) =~= ls);
    SearchOutcome { items, truncated }
}

/// The match a regex name search reports for a line of ripgrep's output,
/// if any: a match event with the line's text, which is the matching path.
pub open spec fn regex_name_hit(dir: Seq<char>, line: Seq<u8>) -> Option<NameMatchView> {
    match match_event(line) {
        Some(ev) => match ev.text {
            Some(t) => Some((path_join(dir, trim_line_breaks(t)), event_ranges(ev))),
            None => None,
        },
        None => None,
    }
}

/// Every match a regex name search reports, in order.
pub open spec fn regex_name_hits(dir: Seq<char>, lines: Seq<Seq<u8>>) -> Seq<NameMatchView>
    decreases lines.len(),
{
    if lines.len() == 0 {
        Seq::empty()
    } else {
        let prev = regex_name_hits(dir, lines.drop_last());
        match regex_name_hit(dir, lines.last()) {
            Some(h) => prev.push(h),
            None => prev,
        }
    }
}

/// Reads the JSON output of a regex name search into matches, keeping at
/// most `max_results`.
pub fn parse_name_matches(dir: &str, stdout: &[u8], max_results: usize) -> (r: SearchOutcome<
    NameMatch,
>)
    ensures
        limited(
            regex_name_hits(dir@, split_bytes(stdout@, 10)),
            max_results,
            names_view(r.items@),
            r.truncated,
        ),
{
    let lines = split_bytes_at(stdout, 10);
    let ghost ls = split_bytes(stdout@, 10);
    let dir_chars = chars_of(dir);
    let mut items: Vec<NameMatch> = Vec::new();
    let mut truncated = false;
    let mut k: usize = 0;
    assert(ls.take(0) =~= Seq::<Seq<u8>>::empty());
    assert(names_view(items@) =~= Seq::<NameMatchView>::empty());
    assert(regex_name_hits(dir@, ls.take(0)) =~= Seq::<NameMatchView>::empty());
    while k < lines.len()
        invariant
            lines@.len() == ls.len(),
            forall|j: int| 0 <= j < lines@.len() ==> lines@[j]@ == ls[j],
            dir_chars@ == dir@,
            k <= lines@.len(),
            limited(regex_name_hits(dir@, ls.take(k as int)), max_results, names_view(items@), truncated),
        decreases lines@.len() - k,
    {
        proof {
            assert(ls.take(k + 1).drop_last() =~= ls.take(k as int));
            assert(ls.take(k + 1).last() == lines@[k as int]@);
        }
        let ghost prev_hits = regex_name_hits(dir@, ls.take(k as int));
        let ghost hit = regex_name_hit(dir@, ls[k as int]);
        if let Some(ev) = match_event_of(&lines[k]) {
            if let Some(t) = &ev.text {
                if items.len() >= max_results {
                    truncated = true;
                    proof {
                        assert(names_view(items@).len() == items@.len());
                        let h = prev_hits.push(hit->0);
                        assert(h.take(max_results as int) =~= prev_hits.take(max_results as int));
                    }
                } else {
                    let trimmed = trim_line_breaks_of(t.as_str());
                    let m = NameMatch {
                        path: string_from_chars(&join(&dir_chars, &chars_of(trimmed.as_str()))),
                        match_ranges: ranges_of(&ev),
                    };
                    let ghost before = items@;
                    items.push(m);
                    proof {
                        assert(m@ == hit->0);
                        assert(names_view(items@) =~= names_view(before).push(m@));
                        assert(prev_hits.push(m@).take(prev_hits.len() + 1 as int) =~= prev_hits.push(m@));
                    }
                }
            }
        }
        k = k + 1;
    }
    assert(ls.take(ls.len() as int) =~= ls);
    SearchOutcome { items, truncated }
}

/// What a name search does once its candidates are listed.
pub enum NameSearchStep {
    /// The search is over with this result.
    Done(Result<SearchOutcome<NameMatch>, String>),
    /// Run this process (a regex filter over the candidates) and hand its
    /// output to `finish_name_regex_search`.
    Run(ProcessRequest),
}

/// A name search, given what running its listing request left behind
/// (`None` when ripgrep could not be run): nothing for an empty query; the
/// listing's error; a literal query matched here; a regex query handed on
/// to ripgrep with the listed candidates as its input.
pub fn run_name_search(
    dir: &str,
    options: &SearchOptions,
    cli: &SearchCliSettings,
    max_results: usize,
    listing: Option<ProcessOutput>,
) -> (r: NameSearchStep)
    ensures
        options.query@.len() == 0 ==> (r matches NameSearchStep::Done(Ok(o)) && o.items@.len() == 0
            && !o.truncated),
        options.query@.len() > 0 ==> match listing {
            None => r matches NameSearchStep::Done(Err(e)) && e@ == spec_rg_unavailable_message(),
            Some(out) => if !rg_succeeded(out.status_code) {
                r matches NameSearchStep::Done(Err(e)) && e@ == spec_rg_error_message(out.stderr@)
            } else if options.regex {
                r matches NameSearchStep::Run(req) && req.binary@ == spec_binary(*cli) && strings_view(
                    req.args@,
                ) == spec_regex_filter_args(*options) && req.stdin == Some(out.stdout)
                    && req.timeout_ms == cli.timeout_ms
            } else {
                r matches NameSearchStep::Done(Ok(o)) && limited(
                    literal_hits(
                        dir@,
                        split_bytes(out.stdout@, 10),
                        spec_needle(*options),
                        spec_is_case_insensitive(options.case, options.query@),
                    ),
                    max_results,
                    names_view(o.items@),
                    o.truncated,
                )
            },
        },
{
    if options.query.as_str().is_empty() {
        return NameSearchStep::Done(Ok(SearchOutcome { items: Vec::new(), truncated: false }));
    }
    let out = match listing {
        None => return NameSearchStep::Done(Err(rg_unavailable_message())),
        Some(out) => out,
    };
    if !(out.status_code == Some(0i32) || out.status_code == Some(1i32)) {
        return NameSearchStep::Done(Err(rg_error_message(out.stderr.as_slice())));
    }
    if options.regex {
        NameSearchStep::Run(regex_filter_request(options, cli, out.stdout))
    } else {
        NameSearchStep::Done(
            Ok(filter_names_literal(dir, options, out.stdout.as_slice(), max_results)),
        )
    }
}

/// The result of a regex name search, given what running its filter
/// request left behind.
pub fn finish_name_regex_search(dir: &str, max_results: usize, output: Option<ProcessOutput>) -> (r:
    Result<SearchOutcome<NameMatch>, String>)
    ensures
        match output {
            None => r matches Err(e) && e@ == spec_rg_unavailable_message(),
            Some(out) => if rg_succeeded(out.status_code) {
                r matches Ok(o) && limited(
                    regex_name_hits(dir@, split_bytes(out.stdout@, 10)),
                    max_results,
                    names_view(o.items@),
                    o.truncated,
                )
            } else {
                r matches Err(e) && e@ == spec_rg_error_message(out.stderr@)
            },
        },
{
    match output {
        None => Err(rg_unavailable_message()),
        Some(out) => {
            if out.status_code == Some(0i32) || out.status_code == Some(1i32) {
                Ok(parse_name_matches(dir, out.stdout.as_slice(), max_results))
            } else {
                Err(rg_error_message(out.stderr.as_slice()))
            }
        },
    }
}

} // verus!
