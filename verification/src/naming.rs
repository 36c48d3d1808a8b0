//! Renaming entries and creating new ones: when a name is acted on, and
//! where the entry ends up.
use vstd::prelude::*;

use crate::paths::{file_name, join, parent, path_file_name, path_join, path_parent};
use crate::text::{chars_eq, chars_of, string_from_chars};
use crate::undo::OpError;

verus! {

/// Whether committing a rename does anything: the new name is not empty
/// and differs from the current one (an unreadable current name counts as
/// empty).
pub open spec fn spec_rename_wanted(path: Seq<char>, new_name: Seq<char>) -> bool {
    let current = match path_file_name(path) {
        Some(n) => n,
        None => Seq::empty(),
    };
    new_name.len() > 0 && new_name != current
}

/// Whether committing a rename does anything (see `spec_rename_wanted`).
pub fn rename_wanted(path: &str, new_name: &str) -> (b: bool)
    ensures
        b == spec_rename_wanted(path@, new_name@),
{
    let current = match file_name(&chars_of(path)) {
        Some(n) => n,
        None => Vec::new(),
    };
    let n = chars_of(new_name);
    n.len() > 0 && !chars_eq(&n, &current)
}

/// Where a renamed entry goes: beside it, under the new name. An entry
/// without a parent cannot be renamed and is reported as a conflict on
/// itself.
pub fn rename_destination(path: &str, new_name: &str) -> (r: Result<String, OpError>)
    ensures
        match path_parent(path@) {
            Some(p) => r matches Ok(d) && d@ == path_join(p, new_name@),
            None => r matches Err(OpError::NameConflict(c)) && c@ == path@,
        },
{
    match parent(&chars_of(path)) {
        Some(p) => Ok(string_from_chars(&join(&p, &chars_of(new_name)))),
        None => Err(OpError::NameConflict(path.to_owned())),
    }
}

/// Where a new folder or file goes: in the current folder under its name.
/// Nothing is created for an empty name.
pub fn new_entry_destination(parent_dir: &str, name: &str) -> (r: Option<String>)
    ensures
        name@.len() == 0 ==> r is None,
        name@.len() > 0 ==> (r matches Some(d) && d@ == path_join(parent_dir@, name@)),
{
    if name.is_empty() {
        None
    } else {
        Some(string_from_chars(&join(&chars_of(parent_dir), &chars_of(name))))
    }
}

} // verus!
