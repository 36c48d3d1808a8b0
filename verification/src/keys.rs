//! How keyboard shortcuts are written in menus and tooltips.
use vstd::prelude::*;

use crate::entry::{to_uppercase, uppercase};
use crate::text::{append_str, chars_of, string_from_chars};

verus! {

/// A key with the modifiers held with it.
#[derive(Clone, Debug)]
pub struct Keystroke {
    pub control: bool,
    pub alt: bool,
    pub platform: bool,
    pub shift: bool,
    pub key: String,
}

/// What `char::to_uppercase` makes of `c`.
pub uninterp spec fn char_uppercase(c: char) -> Seq<char>;

/// `char::to_uppercase`, collected.
#[verifier::external_body]
fn char_to_uppercase(c: char) -> (r: String)
    ensures
        r@ == char_uppercase(c),
{
    c.to_uppercase().collect()
}

/// A key name with its first letter in capitals (a single character
/// entirely so).
pub open spec fn spec_capitalize(key: Seq<char>) -> Seq<char> {
    if key.len() == 1 {
        uppercase(key)
    } else if key.len() == 0 {
        key
    } else {
        char_uppercase(key[0]) + key.drop_first()
    }
}

/// A key name with its first letter in capitals.
pub fn capitalize(key: &str) -> (r: String)
    ensures
        r@ == spec_capitalize(key@),
{
    let cs = chars_of(key);
    if cs.len() == 1 {
        return to_uppercase(key);
    }
    if cs.len() == 0 {
        return string_from_chars(&cs);
    }
    let mut out = chars_of(char_to_uppercase(cs[0]).as_str());
    let rest = crate::text::slice(&cs, 1, cs.len());
    assert(rest@ =~= cs@.drop_first());
    append_str(&mut out, string_from_chars(&rest).as_str());
    string_from_chars(&out)
}

/// A keystroke as shown: the held modifiers (`Ctrl`, `Alt`, `Super`,
/// `Shift`, in that order) and the capitalized key, joined by `-`.
pub open spec fn spec_format_keystroke(k: Keystroke) -> Seq<char> {
    let a: Seq<char> = if k.control { "Ctrl-"@ } else { Seq::empty() };
    let b = if k.alt { a + "Alt-"@ } else { a };
    let c = if k.platform { b + "Super-"@ } else { b };
    let d = if k.shift { c + "Shift-"@ } else { c };
    d + spec_capitalize(k.key@)
}

/// A keystroke as shown (see `spec_format_keystroke`).
pub fn format_keystroke(k: &Keystroke) -> (r: String)
    ensures
        r@ == spec_format_keystroke(*k),
{
    let mut out: Vec<char> = Vec::new();
    if k.control {
        append_str(&mut out, "Ctrl-");
    }
    if k.alt {
        append_str(&mut out, "Alt-");
    }
    if k.platform {
        append_str(&mut out, "Super-");
    }
    if k.shift {
        append_str(&mut out, "Shift-");
    }
    let key = capitalize(k.key.as_str());
    append_str(&mut out, key.as_str());
    proof {
        assert(out@ =~= spec_format_keystroke(*k));
    }
    string_from_chars(&out)
}

/// A sequence of keystrokes as shown: each formatted, separated by spaces.
pub open spec fn spec_shortcut_label(ks: Seq<Keystroke>) -> Seq<char>
    decreases ks.len(),
{
    if ks.len() == 0 {
        Seq::empty()
    } else if ks.len() == 1 {
        spec_format_keystroke(ks[0])
    } else {
        spec_shortcut_label(ks.drop_last()) + " "@ + spec_format_keystroke(ks.last())
    }
}

/// A sequence of keystrokes as shown (see `spec_shortcut_label`).
pub fn shortcut_label(ks: &Vec<Keystroke>) -> (r: String)
    ensures
        r@ == spec_shortcut_label(ks@),
{
    let mut out: Vec<char> = Vec::new();
    let mut i: usize = 0;
    while i < ks.len()
        invariant
            i <= ks@.len(),
            out@ == spec_shortcut_label(ks@.take(i as int)),
        decreases ks@.len() - i,
    {
        if i > 0 {
            append_str(&mut out, " ");
        }
        let s = format_keystroke(&ks[i]);
        append_str(&mut out, s.as_str());
        proof {
            let t = ks@.take(i + 1);
            assert(t.drop_last() =~= ks@.take(i as int));
            assert(t.last() == ks@[i as int]);
            if i == 0 {
                assert(out@ =~= spec_shortcut_label(t));
            }
        }
        i = i + 1;
    }
    assert(ks@.take(ks@.len() as int) =~= ks@);
    string_from_chars(&out)
}

} // verus!
