//! JSON with comments: removing `//` and `/* */` comments and trailing
//! commas outside strings, so that a JSON parser accepts the text, and
//! reading settings text written that way.
use vstd::prelude::*;

use crate::json::{json_view, parse_json_text, parsed_json, Json};
use crate::text::{chars_of, char_is_whitespace, is_whitespace, string_from_chars};

verus! {

/// Where the comment stripper stands while reading a character.
pub enum LexState {
    /// Plain JSON text.
    Code,
    /// Inside a string literal.
    Str,
    /// Inside a `//` comment, up to the end of the line.
    LineComment,
    /// Inside a `/* */` comment; `after_star` tells whether the character
    /// read just before was `*`.
    BlockComment { after_star: bool },
}

/// What stripping comments from `s` yields, reading it in state `st`: a `//`
/// comment is dropped up to (not including) its line break, a `/* */` comment
/// is dropped whole, an unterminated comment runs to the end, and nothing
/// inside a string literal is touched (a backslash escapes the next character).
pub open spec fn strip_comments_from(s: Seq<char>, st: LexState) -> Seq<char>
    decreases s.len(),
{
    if s.len() == 0 {
        Seq::empty()
    } else {
        let c = s[0];
        let rest = s.drop_first();
        match st {
            LexState::Str => {
                if c == '\\' {
                    if rest.len() > 0 {
                        seq![c, rest[0]] + strip_comments_from(rest.drop_first(), LexState::Str)
                    } else {
                        seq![c]
                    }
                } else if c == '"' {
                    seq![c] + strip_comments_from(rest, LexState::Code)
                } else {
                    seq![c] + strip_comments_from(rest, LexState::Str)
                }
            },
            LexState::Code => {
                if c == '"' {
                    seq![c] + strip_comments_from(rest, LexState::Str)
                } else if c == '/' && rest.len() > 0 && rest[0] == '/' {
                    strip_comments_from(rest.drop_first(), LexState::LineComment)
                } else if c == '/' && rest.len() > 0 && rest[0] == '*' {
                    strip_comments_from(rest.drop_first(), LexState::BlockComment { after_star: false })
                } else {
                    seq![c] + strip_comments_from(rest, LexState::Code)
                }
            },
            LexState::LineComment => {
                if c == '\n' {
                    seq![c] + strip_comments_from(rest, LexState::Code)
                } else {
                    strip_comments_from(rest, LexState::LineComment)
                }
            },
            LexState::BlockComment { after_star } => {
                if after_star && c == '/' {
                    strip_comments_from(rest, LexState::Code)
                } else {
                    strip_comments_from(rest, LexState::BlockComment { after_star: c == '*' })
                }
            },
        }
    }
}

pub open spec fn spec_strip_json_comments(s: Seq<char>) -> Seq<char> {
    strip_comments_from(s, LexState::Code)
}

/// Whether the first character of `s` that is not white space closes an
/// object or an array.
pub open spec fn precedes_closer(s: Seq<char>) -> bool
    decreases s.len(),
{
    if s.len() == 0 {
        false
    } else if char_is_whitespace(s[0]) {
        precedes_closer(s.drop_first())
    } else {
        s[0] == '}' || s[0] == ']'
    }
}

/// What dropping trailing commas from `s` yields, reading it inside a string
/// literal or not: a comma outside string literals is dropped exactly when
/// the next character that is not white space is `}` or `]`.
pub open spec fn strip_commas_from(s: Seq<char>, in_string: bool) -> Seq<char>
    decreases s.len(),
{
    if s.len() == 0 {
        Seq::empty()
    } else {
        let c = s[0];
        let rest = s.drop_first();
        if in_string {
            if c == '\\' {
                if rest.len() > 0 {
                    seq![c, rest[0]] + strip_commas_from(rest.drop_first(), true)
                } else {
                    seq![c]
                }
            } else if c == '"' {
                seq![c] + strip_commas_from(rest, false)
            } else {
                seq![c] + strip_commas_from(rest, true)
            }
        } else if c == '"' {
            seq![c] + strip_commas_from(rest, true)
        } else if c == ',' && precedes_closer(rest) {
            strip_commas_from(rest, false)
        } else {
            seq![c] + strip_commas_from(rest, false)
        }
    }
}

pub open spec fn spec_strip_trailing_commas(s: Seq<char>) -> Seq<char> {
    strip_commas_from(s, false)
}

proof fn lemma_skip_step(s: Seq<char>, i: int)
    requires
        0 <= i < s.len(),
    ensures
        s.skip(i).len() > 0,
        s.skip(i)[0] == s[i],
        s.skip(i).drop_first() == s.skip(i + 1),
{
    assert(s.skip(i).drop_first() =~= s.skip(i + 1));
}

/// Removes `//` and `/* */` comments outside string literals.
pub fn strip_json_comments(input: &str) -> (out: String)
    ensures
        out@ == spec_strip_json_comments(input@),
{
    let s = chars_of(input);
    let n = s.len();
    let mut out: Vec<char> = Vec::new();
    let mut st = LexState::Code;
    let mut i: usize = 0;
    assert(s@.skip(0) =~= s@);
    while i < n
        invariant
            n == s@.len(),
            i <= n,
            out@ + strip_comments_from(s@.skip(i as int), st) == spec_strip_json_comments(s@),
        decreases n - i,
    {
        let c = s[i];
        let ghost old_i = i as int;
        let ghost old_st = st;
        let ghost old_out = out@;
        proof {
            lemma_skip_step(s@, i as int);
            if i + 1 < n {
                lemma_skip_step(s@, i + 1);
            }
        }
        match st {
            LexState::Str => {
                if c == '\\' {
                    if i + 1 < n {
                        proof {
                            lemma_skip_step(s@, i + 1);
                        }
                        out.push(c);
                        out.push(s[i + 1]);
                        i = i + 2;
                    } else {
                        out.push(c);
                        i = i + 1;
                        proof {
                            assert(s@.skip(i as int) =~= Seq::<char>::empty());
                        }
                    }
                } else if c == '"' {
                    out.push(c);
                    st = LexState::Code;
                    i = i + 1;
                } else {
                    out.push(c);
                    i = i + 1;
                }
            },
            LexState::Code => {
                if c == '"' {
                    out.push(c);
                    st = LexState::Str;
                    i = i + 1;
                } else if c == '/' && i + 1 < n && s[i + 1] == '/' {
                    proof {
                        lemma_skip_step(s@, i + 1);
                    }
                    st = LexState::LineComment;
                    i = i + 2;
                } else if c == '/' && i + 1 < n && s[i + 1] == '*' {
                    proof {
                        lemma_skip_step(s@, i + 1);
                    }
                    st = LexState::BlockComment { after_star: false };
                    i = i + 2;
                } else {
                    out.push(c);
                    i = i + 1;
                }
            },
            LexState::LineComment => {
                if c == '\n' {
                    out.push(c);
                    st = LexState::Code;
                    i = i + 1;
                } else {
                    i = i + 1;
                }
            },
            LexState::BlockComment { after_star } => {
                if after_star && c == '/' {
                    st = LexState::Code;
                } else {
                    st = LexState::BlockComment { after_star: c == '*' };
                }
                i = i + 1;
            },
        }
        proof {
            assert(strip_comments_from(s@.skip(old_i), old_st) =~= out@.subrange(old_out.len() as int, out@.len() as int) + strip_comments_from(s@.skip(i as int), st));
            assert(out@ =~= old_out + out@.subrange(old_out.len() as int, out@.len() as int));
            assert(out@ + strip_comments_from(s@.skip(i as int), st) =~= spec_strip_json_comments(s@));
        }
    }
    proof {
        assert(s@.skip(n as int) =~= Seq::<char>::empty());
        assert(out@ =~= spec_strip_json_comments(s@));
    }
    string_from_chars(&out)
}

/// Whether the first character at or after `from` that is not white space
/// closes an object or an array.
fn next_closes(s: &Vec<char>, from: usize) -> (b: bool)
    requires
        from <= s@.len(),
    ensures
        b == precedes_closer(s@.skip(from as int)),
{
    let mut j = from;
    while j < s.len() && is_whitespace(s[j])
        invariant
            from <= j <= s@.len(),
            precedes_closer(s@.skip(j as int)) == precedes_closer(s@.skip(from as int)),
        decreases s@.len() - j,
    {
        proof {
            lemma_skip_step(s@, j as int);
        }
        j = j + 1;
    }
    if j < s.len() {
        proof {
            lemma_skip_step(s@, j as int);
        }
        s[j] == '}' || s[j] == ']'
    } else {
        proof {
            assert(s@.skip(j as int) =~= Seq::<char>::empty());
        }
        false
    }
}

/// Removes commas that directly precede `}` or `]` (white space aside),
/// outside string literals.
pub fn strip_trailing_commas(input: &str) -> (out: String)
    ensures
        out@ == spec_strip_trailing_commas(input@),
{
    let s = chars_of(input);
    let n = s.len();
    let mut out: Vec<char> = Vec::new();
    let mut in_string = false;
    let mut i: usize = 0;
    assert(s@.skip(0) =~= s@);
    while i < n
        invariant
            n == s@.len(),
            i <= n,
            out@ + strip_commas_from(s@.skip(i as int), in_string) == spec_strip_trailing_commas(s@),
        decreases n - i,
    {
        let c = s[i];
        proof {
            lemma_skip_step(s@, i as int);
        }
        if in_string {
            if c == '\\' {
                if i + 1 < n {
                    proof {
                        lemma_skip_step(s@, i + 1);
                    }
                    out.push(c);
                    out.push(s[i + 1]);
                    i = i + 2;
                } else {
                    out.push(c);
                    i = i + 1;
                    proof {
                        assert(s@.skip(i as int) =~= Seq::<char>::empty());
                    }
                }
            } else {
                if c == '"' {
                    in_string = false;
                }
                out.push(c);
                i = i + 1;
            }
        } else if c == '"' {
            in_string = true;
            out.push(c);
            i = i + 1;
        } else if c == ',' && next_closes(&s, i + 1) {
            i = i + 1;
        } else {
            out.push(c);
            i = i + 1;
        }
        proof {
            assert(out@ + strip_commas_from(s@.skip(i as int), in_string) =~= spec_strip_trailing_commas(s@));
        }
    }
    proof {
        assert(s@.skip(n as int) =~= Seq::<char>::empty());
        assert(out@ =~= spec_strip_trailing_commas(s@));
    }
    string_from_chars(&out)
}

proof fn lemma_no_slash_unchanged(s: Seq<char>, in_string: bool)
    requires
        !s.contains('/'),
    ensures
        strip_comments_from(s, if in_string { LexState::Str } else { LexState::Code }) == s,
    decreases s.len(),
{
    if s.len() > 0 {
        let rest = s.drop_first();
        assert(!rest.contains('/')) by {
            if rest.contains('/') {
                let k = choose|k: int| 0 <= k < rest.len() && rest[k] == '/';
                assert(s[k + 1] == '/');
            }
        }
        assert(s[0] != '/') by {
            if s[0] == '/' {
                assert(s.contains('/'));
            }
        }
        if in_string && s[0] == '\\' && rest.len() > 0 {
            let rest2 = rest.drop_first();
            assert(!rest2.contains('/')) by {
                if rest2.contains('/') {
                    let k = choose|k: int| 0 <= k < rest2.len() && rest2[k] == '/';
                    assert(rest[k + 1] == '/');
                }
            }
            lemma_no_slash_unchanged(rest2, true);
            assert(seq![s[0], rest[0]] + rest2 =~= s);
        } else if in_string {
            lemma_no_slash_unchanged(rest, s[0] != '"');
            assert(seq![s[0]] + rest =~= s);
        } else {
            lemma_no_slash_unchanged(rest, s[0] == '"');
            assert(seq![s[0]] + rest =~= s);
        }
    }
}

/// Text with no `/` in it has no comments: stripping comments leaves it as it is.
pub proof fn lemma_strip_comments_identity_without_slash(s: Seq<char>)
    requires
        !s.contains('/'),
    ensures
        spec_strip_json_comments(s) == s,
{
    lemma_no_slash_unchanged(s, false);
}

proof fn lemma_no_comma_unchanged(s: Seq<char>, in_string: bool)
    requires
        !s.contains(','),
    ensures
        strip_commas_from(s, in_string) == s,
    decreases s.len(),
{
    if s.len() > 0 {
        let rest = s.drop_first();
        assert(!rest.contains(',')) by {
            if rest.contains(',') {
                let k = choose|k: int| 0 <= k < rest.len() && rest[k] == ',';
                assert(s[k + 1] == ',');
            }
        }
        assert(s[0] != ',') by {
            if s[0] == ',' {
                assert(s.contains(','));
            }
        }
        if in_string && s[0] == '\\' && rest.len() > 0 {
            let rest2 = rest.drop_first();
            assert(!rest2.contains(',')) by {
                if rest2.contains(',') {
                    let k = choose|k: int| 0 <= k < rest2.len() && rest2[k] == ',';
                    assert(rest[k + 1] == ',');
                }
            }
            lemma_no_comma_unchanged(rest2, true);
            assert(seq![s[0], rest[0]] + rest2 =~= s);
        } else if in_string {
            lemma_no_comma_unchanged(rest, s[0] != '"');
            assert(seq![s[0]] + rest =~= s);
        } else {
            lemma_no_comma_unchanged(rest, s[0] == '"');
            assert(seq![s[0]] + rest =~= s);
        }
    }
}

/// Text with no `,` in it has no trailing comma: stripping them leaves it as it is.
pub proof fn lemma_strip_commas_identity_without_comma(s: Seq<char>)
    requires
        !s.contains(','),
    ensures
        spec_strip_trailing_commas(s) == s,
{
    lemma_no_comma_unchanged(s, false);
}

proof fn lemma_comments_not_longer(s: Seq<char>, st: LexState)
    ensures
        strip_comments_from(s, st).len() <= s.len(),
    decreases s.len(),
{
    if s.len() > 0 {
        let rest = s.drop_first();
        lemma_comments_not_longer(rest, LexState::Code);
        lemma_comments_not_longer(rest, LexState::Str);
        lemma_comments_not_longer(rest, LexState::LineComment);
        lemma_comments_not_longer(rest, LexState::BlockComment { after_star: s[0] == '*' });
        if rest.len() > 0 {
            let rest2 = rest.drop_first();
            lemma_comments_not_longer(rest2, LexState::Str);
            lemma_comments_not_longer(rest2, LexState::LineComment);
            lemma_comments_not_longer(rest2, LexState::BlockComment { after_star: false });
        }
    }
}

proof fn lemma_commas_not_longer(s: Seq<char>, in_string: bool)
    ensures
        strip_commas_from(s, in_string).len() <= s.len(),
    decreases s.len(),
{
    if s.len() > 0 {
        let rest = s.drop_first();
        lemma_commas_not_longer(rest, true);
        lemma_commas_not_longer(rest, false);
        if rest.len() > 0 {
            lemma_commas_not_longer(rest.drop_first(), true);
        }
    }
}

/// Neither stripping comments nor stripping trailing commas makes text longer.
pub proof fn lemma_stripping_never_lengthens(s: Seq<char>)
    ensures
        spec_strip_json_comments(s).len() <= s.len(),
        spec_strip_trailing_commas(s).len() <= s.len(),
{
    lemma_comments_not_longer(s, LexState::Code);
    lemma_commas_not_longer(s, false);
}

/// JSON with comments and trailing commas made plain JSON: the comments
/// taken out first, then the trailing commas.
pub fn jsonc_to_json(contents: &str) -> (r: String)
    ensures
        r@ == spec_strip_trailing_commas(spec_strip_json_comments(contents@)),
{
    let without_comments = strip_json_comments(contents);
    strip_trailing_commas(without_comments.as_str())
}

/// Settings text with comments and trailing commas, parsed: the text made
/// plain JSON (see `jsonc_to_json`) and read as JSON; `None` when it is not.
pub fn parse_jsonc(contents: &str) -> (r: Option<Json>)
    ensures
        match r {
            Some(j) => parsed_json(spec_strip_trailing_commas(spec_strip_json_comments(contents@)))
                == Some(json_view(j)),
            None => parsed_json(spec_strip_trailing_commas(spec_strip_json_comments(contents@))) is None,
        },
{
    let plain = jsonc_to_json(contents);
    parse_json_text(plain.as_str())
}

} // verus!
