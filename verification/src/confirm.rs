//! The questions asked before destructive operations.
use vstd::prelude::*;

use crate::clipboard::{decimal, decimal_of};
use crate::paths::{file_name, path_file_name};
use crate::text::{append_str, chars_of, string_from_chars};

verus! {

/// A question waiting for confirmation.
#[derive(Clone, Debug)]
pub struct PendingWarning {
    pub title: String,
    pub message: String,
    pub confirm_label: String,
}

/// The question asked before moving items to the trash: one is named (by
/// its file name), several are counted.
pub open spec fn spec_delete_question(paths: Seq<Seq<char>>) -> Seq<char> {
    if paths.len() == 1 {
        let name = match path_file_name(paths[0]) {
            Some(n) => n,
            None => Seq::empty(),
        };
        "Are you sure you want to delete \""@ + name + "\"?"@
    } else {
        "Are you sure you want to delete these "@ + decimal(paths.len()) + " items?"@
    }
}

/// The question asked before moving the selected items to the trash;
/// nothing is asked (or done) without a selection.
pub fn delete_question(paths: &Vec<String>) -> (r: Option<PendingWarning>)
    ensures
        paths@.len() == 0 ==> r is None,
        paths@.len() > 0 ==> (r matches Some(w) && w.title@ == "Delete"@ && w.confirm_label@
            == "Delete"@ && w.message@ == spec_delete_question(paths@.map_values(|p: String| p@))),
{
    if paths.len() == 0 {
        return None;
    }
    let mut out: Vec<char> = Vec::new();
    if paths.len() == 1 {
        let name = match file_name(&chars_of(paths[0].as_str())) {
            Some(n) => n,
            None => Vec::new(),
        };
        append_str(&mut out, "Are you sure you want to delete \"");
        append_str(&mut out, string_from_chars(&name).as_str());
        append_str(&mut out, "\"?");
    } else {
        append_str(&mut out, "Are you sure you want to delete these ");
        append_str(&mut out, string_from_chars(&decimal_of(paths.len())).as_str());
        append_str(&mut out, " items?");
    }
    assert(out@ =~= spec_delete_question(paths@.map_values(|p: String| p@)));
    Some(
        PendingWarning {
            title: "Delete".to_owned(),
            message: string_from_chars(&out),
            confirm_label: "Delete".to_owned(),
        },
    )
}

/// The warning shown before deleting trash items for good: one is named,
/// several are counted.
pub open spec fn spec_purge_question(names: Seq<Seq<char>>) -> Seq<char> {
    if names.len() == 1 {
        "\""@ + names[0] + "\" will be permanently deleted. This action cannot be undone."@
    } else {
        decimal(names.len()) + " items will be permanently deleted. This action cannot be undone."@
    }
}

/// The warning shown before deleting the selected trash items for good
/// (given their names); nothing without a selection.
pub fn purge_question(names: &Vec<String>) -> (r: Option<PendingWarning>)
    ensures
        names@.len() == 0 ==> r is None,
        names@.len() > 0 ==> (r matches Some(w) && w.title@ == "Delete Permanently"@
            && w.confirm_label@ == "Delete Permanently"@ && w.message@ == spec_purge_question(
            names@.map_values(|p: String| p@),
        )),
{
    if names.len() == 0 {
        return None;
    }
    let mut out: Vec<char> = Vec::new();
    if names.len() == 1 {
        append_str(&mut out, "\"");
        append_str(&mut out, names[0].as_str());
        append_str(&mut out, "\" will be permanently deleted. This action cannot be undone.");
    } else {
        append_str(&mut out, string_from_chars(&decimal_of(names.len())).as_str());
        append_str(&mut out, " items will be permanently deleted. This action cannot be undone.");
    }
    assert(out@ =~= spec_purge_question(names@.map_values(|p: String| p@)));
    Some(
        PendingWarning {
            title: "Delete Permanently".to_owned(),
            message: string_from_chars(&out),
            confirm_label: "Delete Permanently".to_owned(),
        },
    )
}

/// The warning shown before emptying the trash; nothing when it is empty.
pub fn empty_trash_question(count: usize) -> (r: Option<PendingWarning>)
    ensures
        count == 0 ==> r is None,
        count > 0 ==> (r matches Some(w) && w.title@ == "Empty Trash"@ && w.confirm_label@
            == "Empty Trash"@ && w.message@ == "All "@ + decimal(count as nat)
            + " items in the Trash will be permanently deleted. This action cannot be undone."@),
{
    if count == 0 {
        return None;
    }
    let mut out = chars_of("All ");
    append_str(&mut out, string_from_chars(&decimal_of(count)).as_str());
    append_str(&mut out, " items in the Trash will be permanently deleted. This action cannot be undone.");
    Some(
        PendingWarning {
            title: "Empty Trash".to_owned(),
            message: string_from_chars(&out),
            confirm_label: "Empty Trash".to_owned(),
        },
    )
}

} // verus!
