//! Moving between folders: the trash view's place in the history, going up
//! a level, and what opening a listed entry does.
use vstd::prelude::*;

use crate::entry::FsEntry;
use crate::paths::{parent, path_parent};
use crate::text::{chars_of, str_eq, string_from_chars};

verus! {

/// The history entry that stands for the trash view.
pub const TRASH_VIRTUAL_PATH: &'static str = ":trash";

/// Whether a history entry is the trash view.
pub fn is_trash_path(path: &str) -> (b: bool)
    ensures
        b == (path@ == ":trash"@),
{
    str_eq(path, TRASH_VIRTUAL_PATH)
}

/// Where going up a level leads: the parent folder, except from the trash
/// view or from a folder without a parent.
pub open spec fn spec_up_target(current: Seq<char>) -> Option<Seq<char>> {
    if current == ":trash"@ {
        None
    } else {
        path_parent(current)
    }
}

/// Where going up a level leads (see `spec_up_target`).
pub fn up_target(current: &str) -> (r: Option<String>)
    ensures
        match r {
            Some(p) => spec_up_target(current@) == Some(p@),
            None => spec_up_target(current@) is None,
        },
{
    if is_trash_path(current) {
        return None;
    }
    match parent(&chars_of(current)) {
        Some(p) => Some(string_from_chars(&p)),
        None => None,
    }
}

/// What opening a listed entry does.
#[derive(Debug)]
pub enum OpenAction {
    /// Nothing: the trash view is shown, or the path is not listed.
    Nothing,
    /// Show this folder.
    Navigate(String),
    /// Hand this file to the system's default application.
    Launch(String),
}

/// What opening a listed entry does: nothing in the trash view or for a
/// path that is not listed; a folder is shown; a file is handed to the
/// system.
pub fn open_action(in_trash: bool, entry: Option<&FsEntry>) -> (r: OpenAction)
    ensures
        in_trash ==> r is Nothing,
        !in_trash ==> match entry {
            None => r is Nothing,
            Some(e) => if e.is_dir {
                r matches OpenAction::Navigate(p) && p == e.path
            } else {
                r matches OpenAction::Launch(p) && p == e.path
            },
        },
{
    if in_trash {
        return OpenAction::Nothing;
    }
    match entry {
        None => OpenAction::Nothing,
        Some(e) => if e.is_dir {
            OpenAction::Navigate(e.path.clone())
        } else {
            OpenAction::Launch(e.path.clone())
        },
    }
}

/// The message shown when the system cannot open a file.
pub open spec fn spec_open_failed_message(path: Seq<char>, error: Seq<char>) -> Seq<char> {
    "Couldn't open "@ + path + ": "@ + error
}

/// The message shown when the system cannot open a file.
pub fn open_failed_message(path: &str, error: &str) -> (m: String)
    ensures
        m@ == spec_open_failed_message(path@, error@),
{
    let mut out = chars_of("Couldn't open ");
    crate::text::append_str(&mut out, path);
    crate::text::append_str(&mut out, ": ");
    crate::text::append_str(&mut out, error);
    string_from_chars(&out)
}

} // verus!
