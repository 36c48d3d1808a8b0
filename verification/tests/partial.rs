use zex::partial::{
    copy_redone_followup, copy_undone_followup, moved_followup, restore_redone_followup,
    retrashed_followup, trash_restored_followup, trashed_paths,
};
use zex::undo::{OpError, TrashItem, UndoOp};

fn s(x: &str) -> String {
    x.to_string()
}

fn item(name: &str) -> TrashItem {
    TrashItem { id: format!("/t/{name}"), name: s(name), original_parent: s("/d"), time_deleted: 1 }
}

#[test]
fn moves_keep_only_those_that_went_through() {
    let pairs = vec![(s("/a"), s("/x/a")), (s("/b"), s("/x/b")), (s("/c"), s("/x/c"))];
    match moved_followup(&pairs, &vec![true, false, true]) {
        Some(UndoOp::Move { pairs: kept }) => {
            assert_eq!(kept, vec![(s("/a"), s("/x/a")), (s("/c"), s("/x/c"))])
        }
        _ => panic!("expected a move"),
    }
    assert!(moved_followup(&pairs, &vec![false, false, false]).is_none());
    assert!(moved_followup(&pairs, &vec![]).is_none());
}

#[test]
fn undone_copies_keep_their_sources() {
    let sources = vec![s("/a"), s("/b")];
    let created = vec![s("/d/a"), s("/d/b")];
    match copy_undone_followup(&sources, s("/d"), &created, &vec![false, true]) {
        Some(UndoOp::Copy { sources, dest_dir, created }) => {
            assert_eq!(sources, vec![s("/b")]);
            assert_eq!(dest_dir, "/d");
            assert_eq!(created, vec![s("/d/b")]);
        }
        _ => panic!("expected a copy"),
    }
    assert!(copy_undone_followup(&sources, s("/d"), &created, &vec![false, false]).is_none());
}

#[test]
fn redone_copies_record_the_copies_made() {
    let sources = vec![s("/a"), s("/b"), s("/c")];
    let outcomes = vec![Some(s("/d/a")), None, Some(s("/d/c"))];
    match copy_redone_followup(&sources, s("/d"), &outcomes) {
        Some(UndoOp::Copy { sources, created, .. }) => {
            assert_eq!(sources, vec![s("/a"), s("/c")]);
            assert_eq!(created, vec![s("/d/a"), s("/d/c")]);
        }
        _ => panic!("expected a copy"),
    }
    assert!(copy_redone_followup(&sources, s("/d"), &vec![None, None, None]).is_none());
}

#[test]
fn restored_items_leave_the_deletion_to_redo_without_items() {
    let paths = vec![s("/d/a"), s("/d/b")];
    let items = vec![item("a"), item("b")];
    match trash_restored_followup(&paths, &items, &vec![true, false]) {
        Some(UndoOp::Trash { original_paths, items }) => {
            assert_eq!(original_paths, vec![s("/d/a")]);
            assert!(items.is_empty());
        }
        _ => panic!("expected a deletion"),
    }
    match restore_redone_followup(&paths, &items, &vec![true, true]) {
        Some(UndoOp::Restore { original_paths, items }) => {
            assert_eq!(original_paths, paths);
            assert!(items.is_empty());
        }
        _ => panic!("expected a restore"),
    }
    assert!(restore_redone_followup(&paths, &vec![], &vec![true, true]).is_none());
}

#[test]
fn retrashing_records_the_items_found_or_reports_the_lookup_error() {
    let trashed = trashed_paths(&vec![s("/d/a"), s("/d/b")], &vec![false, true]);
    assert_eq!(trashed, vec![s("/d/b")]);
    let errors = vec![(s("a"), s("busy"))];
    let (op, msg) = retrashed_followup(false, trashed.clone(), Ok(vec![item("b")]), &errors);
    assert!(matches!(op, Some(UndoOp::Trash { ref original_paths, ref items }) if *original_paths == trashed && items.len() == 1));
    assert_eq!(msg, Some(s("a: busy")));
    let (op, msg) = retrashed_followup(true, trashed.clone(), Ok(vec![item("b")]), &vec![]);
    assert!(matches!(op, Some(UndoOp::Restore { .. })));
    assert_eq!(msg, None);
    let (op, msg) = retrashed_followup(true, trashed.clone(), Ok(vec![]), &vec![]);
    assert!(op.is_none() && msg.is_none());
    let (op, msg) = retrashed_followup(false, trashed, Err(OpError::Trash(s("no trash"))), &errors);
    assert!(op.is_none());
    assert_eq!(msg, Some(s("couldn't move to trash: no trash")));
}
