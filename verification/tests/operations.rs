use zex::bulk::{BulkAction, BulkDecision, BulkPhase, BulkRun};
use zex::clipboard::{
    bulk_title, copy_undo_op, describe_bulk_errors, destination_for, item_label, move_question,
    move_undo_op, take_paste_source, paths_text, clipboard_from_selection,
};
use zex::confirm::{delete_question, empty_trash_question, purge_question};
use zex::shared::{ClipboardOp, FileClipboard, SharedState, MAX_UNDO_HISTORY};
use zex::stats::DirStats;
use zex::trash::{capture_trashed_items, list_sorted, restore, trash_capturing, TrashEntry, TrashSize};
use zex::undo::{collect_outcomes, describe, FsAction, NewEntryKind, OpError, TrashItem, UndoOp};

fn s(x: &str) -> String {
    x.to_string()
}

fn item(id: &str, name: &str, parent: &str, t: i64) -> TrashItem {
    TrashItem { id: s(id), name: s(name), original_parent: s(parent), time_deleted: t }
}

#[test]
fn bulk_run_skips_retries_and_finishes() {
    let mut run = BulkRun::new(vec![s("a"), s("b"), s("c")]).unwrap();
    assert_eq!(run.next_step(false), BulkAction::Perform { index: 0, completed: 0 });
    assert_eq!(run.performed(Ok(())), BulkAction::Continue);
    assert_eq!(run.next_step(false), BulkAction::Perform { index: 1, completed: 1 });
    assert_eq!(
        run.performed(Err(s("denied"))),
        BulkAction::Ask { index: 1, message: s("denied") }
    );
    assert_eq!(run.decided(Some(BulkDecision::Retry)), BulkAction::Perform { index: 1, completed: 1 });
    assert_eq!(run.performed(Err(s("denied again"))), BulkAction::Ask { index: 1, message: s("denied again") });
    assert_eq!(run.decided(Some(BulkDecision::SkipAll)), BulkAction::Continue);
    assert_eq!(run.next_step(false), BulkAction::Perform { index: 2, completed: 2 });
    assert_eq!(run.performed(Err(s("full"))), BulkAction::Continue);
    assert_eq!(run.next_step(false), BulkAction::Finish);
    assert!(!run.cancelled);
    assert_eq!(run.errors, vec![(s("b"), s("denied again")), (s("c"), s("full"))]);
    assert_eq!(run.phase, BulkPhase::Done);
}

#[test]
fn bulk_run_cancels_on_request_or_missing_answer() {
    let mut run = BulkRun::new(vec![s("a"), s("b")]).unwrap();
    assert_eq!(run.next_step(true), BulkAction::Finish);
    assert!(run.cancelled);

    let mut run = BulkRun::new(vec![s("a")]).unwrap();
    run.next_step(false);
    run.performed(Err(s("x")));
    assert_eq!(run.decided(None), BulkAction::Finish);
    assert!(run.cancelled);
    assert!(run.errors.is_empty());

    let mut run = BulkRun::new(vec![s("a"), s("b")]).unwrap();
    run.next_step(false);
    run.performed(Err(s("x")));
    assert_eq!(run.decided(Some(BulkDecision::Skip)), BulkAction::Continue);
    assert_eq!(run.errors, vec![(s("a"), s("x"))]);
    assert!(!run.skip_all);
}

#[test]
fn paste_destinations_and_labels() {
    assert_eq!(destination_for("/a/b.txt", "/dest").ok(), Some(s("/dest/b.txt")));
    assert!(matches!(destination_for("/", "/dest"), Err(OpError::NameConflict(p)) if p == "/"));
    assert_eq!(item_label("/a/b.txt"), "b.txt");
    assert_eq!(item_label("/"), "/");
    assert_eq!(bulk_title(ClipboardOp::Copy), "Copying");
    assert_eq!(bulk_title(ClipboardOp::Cut), "Moving");
}

#[test]
fn paste_prefers_the_system_clipboard_and_uses_up_the_kept_one() {
    let mut kept = Some(FileClipboard { op: ClipboardOp::Cut, paths: vec![s("/k")] });
    let system = Some(FileClipboard { op: ClipboardOp::Copy, paths: vec![s("/s")] });
    let chosen = take_paste_source(false, system, &mut kept).unwrap();
    assert_eq!(chosen.paths, vec![s("/s")]);
    assert!(kept.is_none());

    let mut kept = Some(FileClipboard { op: ClipboardOp::Cut, paths: vec![s("/k")] });
    let chosen = take_paste_source(false, None, &mut kept).unwrap();
    assert_eq!(chosen.op, ClipboardOp::Cut);
    assert!(kept.is_none());
}

#[test]
fn paste_in_the_trash_view_does_nothing_and_keeps_the_clipboard() {
    let mut kept = Some(FileClipboard { op: ClipboardOp::Copy, paths: vec![s("/k")] });
    let system = Some(FileClipboard { op: ClipboardOp::Copy, paths: vec![s("/s")] });
    assert!(take_paste_source(true, system, &mut kept).is_none());
    assert_eq!(kept.unwrap().paths, vec![s("/k")]);
}

#[test]
fn a_bulk_run_without_items_is_no_run() {
    assert!(BulkRun::new(vec![]).is_none());
}

#[test]
fn finished_pastes_are_undoable_only_when_something_happened() {
    assert!(copy_undo_op(vec![s("/a")], s("/d"), vec![]).is_none());
    assert_eq!(copy_undo_op(vec![s("/a")], s("/d"), vec![s("/d/a")]).unwrap().label(), "Copy");
    assert!(move_undo_op(vec![]).is_none());
    assert_eq!(move_undo_op(vec![(s("/a"), s("/d/a"))]).unwrap().label(), "Move");
}

#[test]
fn bulk_errors_are_joined() {
    assert_eq!(describe_bulk_errors(&vec![]), None);
    assert_eq!(
        describe_bulk_errors(&vec![(s("a"), s("x")), (s("b"), s("y"))]),
        Some(s("a: x; b: y"))
    );
}

#[test]
fn questions_name_one_item_and_count_several() {
    assert_eq!(
        move_question(&vec![s("/x/f.txt")], "/dest/dir"),
        Some(s("Are you sure you want to move \"f.txt\" to \"dir\"?"))
    );
    assert_eq!(
        move_question(&vec![s("/x/a"), s("/x/b"), s("/x/c")], "/dest/dir"),
        Some(s("Are you sure you want to move these 3 items to \"dir\"?"))
    );
    assert_eq!(move_question(&vec![s("/dest/dir")], "/dest/dir"), None);
    assert_eq!(move_question(&vec![], "/dest/dir"), None);

    let w = delete_question(&vec![s("/x/f.txt")]).unwrap();
    assert_eq!(w.message, "Are you sure you want to delete \"f.txt\"?");
    assert_eq!(w.title, "Delete");
    let w = delete_question(&vec![s("/a"), s("/b")]).unwrap();
    assert_eq!(w.message, "Are you sure you want to delete these 2 items?");
    assert!(delete_question(&vec![]).is_none());

    let w = purge_question(&vec![s("old.txt")]).unwrap();
    assert_eq!(w.message, "\"old.txt\" will be permanently deleted. This action cannot be undone.");
    let w = purge_question(&vec![s("a"), s("b"), s("c"), s("d"), s("e"), s("f"), s("g"), s("h"), s("i"), s("j"), s("k"), s("l")]).unwrap();
    assert_eq!(w.message, "12 items will be permanently deleted. This action cannot be undone.");
    let w = empty_trash_question(5).unwrap();
    assert_eq!(w.message, "All 5 items in the Trash will be permanently deleted. This action cannot be undone.");
    assert!(empty_trash_question(0).is_none());
}

#[test]
fn capturing_matches_the_latest_trash_item_per_path() {
    let listed = vec![
        item("1", "a.txt", "/d", 10),
        item("2", "a.txt", "/d", 20),
        item("3", "b.txt", "/d", 5),
        item("4", "c.txt", "/e", 7),
    ];
    let paths = vec![s("/d/a.txt"), s("/d/missing"), s("/d/b.txt")];
    let items = capture_trashed_items(&paths, Ok(listed)).ok().unwrap();
    assert_eq!(items.len(), 2);
    assert_eq!(items[0].id, "2");
    assert_eq!(items[1].id, "3");

    assert!(capture_trashed_items(&vec![], Err(OpError::Trash(s("x")))).ok().unwrap().is_empty());
    assert!(capture_trashed_items(&paths, Err(OpError::Trash(s("x")))).is_err());
}

#[test]
fn trash_outcomes_collect_every_error() {
    let ok = trash_capturing(vec![Ok(s("/a"))], Ok(vec![item("1", "a", "/", 1)]));
    assert_eq!(ok.ok().unwrap().len(), 1);
    let errs = trash_capturing(
        vec![Ok(s("/a")), Err(OpError::Trash(s("busy")))],
        Err(OpError::Trash(s("list failed"))),
    )
    .err()
    .unwrap();
    assert_eq!(describe(&errs), "couldn't move to trash: busy; couldn't move to trash: list failed");
    assert!(restore(vec![Ok(()), Ok(())]).is_ok());
    assert_eq!(restore(vec![Ok(()), Err(OpError::NameConflict(s("/a")))]).err().unwrap().len(), 1);
}

#[test]
fn error_messages_read_as_shown() {
    assert_eq!(OpError::Io(s("denied"), s("/x")).to_message(), "/x: denied");
    assert_eq!(OpError::NameConflict(s("/x")).to_message(), "/x already exists");
    let (oks, result) = collect_outcomes(vec![Ok(1), Err(OpError::Trash(s("t"))), Ok(3)]);
    assert_eq!(oks, vec![1, 3]);
    assert_eq!(result.err().unwrap().len(), 1);
}

#[test]
fn trash_listing_is_newest_first_without_hidden_entries() {
    let entry = |name: &str, t: i64| TrashEntry {
        id_path: format!("/trash/{name}"),
        name: s(name),
        original_path: format!("/d/{name}"),
        is_dir: false,
        size: 1,
        deleted_at: t,
        item: item(name, name, "/d", t),
    };
    let listed = list_sorted(vec![entry("a", 1), entry(".h", 9), entry("b", 5)], false);
    let names: Vec<&str> = listed.iter().map(|e| e.name.as_str()).collect();
    assert_eq!(names, vec!["b", "a"]);
    let all = list_sorted(vec![entry("a", 1), entry(".h", 9), entry("b", 5)], true);
    assert_eq!(all[0].name, ".h");
}

#[test]
fn undo_and_redo_actions_reverse_each_other() {
    let op = UndoOp::Rename { from: s("/a"), to: s("/b") };
    assert!(matches!(op.undo_action(), FsAction::MoveExact { source, dest } if source == "/b" && dest == "/a"));
    assert!(matches!(op.redo_action(), FsAction::MoveExact { source, dest } if source == "/a" && dest == "/b"));
    let created = UndoOp::NewEntry { path: s("/d/new"), kind: NewEntryKind::Folder };
    assert!(matches!(created.undo_action(), FsAction::RemoveDir(p) if p == "/d/new"));
    assert!(matches!(created.redo_action(), FsAction::NewFolder { parent, name } if parent == "/d" && name == "new"));
    assert_eq!(created.label(), "Create");
}

#[test]
fn undo_history_is_bounded_and_labelled() {
    let mut shared = SharedState::new();
    assert_eq!(shared.undo_label(), None);
    for i in 0..(MAX_UNDO_HISTORY + 5) {
        shared.push_undo(UndoOp::Rename { from: format!("/{i}"), to: format!("/{i}x") });
    }
    assert_eq!(shared.undo_stack.len(), MAX_UNDO_HISTORY);
    assert_eq!(shared.undo_label(), Some("Rename"));
    let msg = shared.record_undone(Err(vec![OpError::NameConflict(s("/x"))]));
    assert_eq!(msg, Some(s("/x already exists")));
    assert!(shared.redo_stack.is_empty());
}

#[test]
fn stats_add_up() {
    let mut total = DirStats::new();
    total.add_file(100, 8);
    total.add_file(1, 1);
    let mut other = DirStats::new();
    other.add_file(10, 0);
    total.merge(other);
    assert_eq!(total.file_count, 3);
    assert_eq!(total.total_size, 111);
    assert_eq!(total.size_on_disk, 9 * 512);
}

#[test]
fn copied_paths_are_one_per_line() {
    assert_eq!(paths_text(&vec![]), "");
    assert_eq!(paths_text(&vec!["/a".to_string()]), "/a");
    assert_eq!(paths_text(&vec!["/a".to_string(), "/b c".to_string()]), "/a\n/b c");
}

#[test]
fn copy_and_cut_take_the_selection_outside_the_trash() {
    let picked = vec!["/a".to_string(), "/b".to_string()];
    let c = clipboard_from_selection(ClipboardOp::Cut, false, picked.clone()).unwrap();
    assert_eq!(c.op, ClipboardOp::Cut);
    assert_eq!(c.paths, picked);
    assert!(clipboard_from_selection(ClipboardOp::Copy, true, picked).is_none());
    assert!(clipboard_from_selection(ClipboardOp::Copy, false, vec![]).is_none());
}

#[test]
fn redone_operations_go_back_on_the_undo_history() {
    let mut shared = SharedState::new();
    assert_eq!(shared.redo_label(), None);
    let msg = shared.record_undone(Ok(UndoOp::Rename { from: s("/b"), to: s("/a") }));
    assert_eq!(msg, None);
    assert_eq!(shared.redo_label(), Some("Rename"));
    let op = shared.redo_stack.pop().unwrap();
    let msg = shared.record_redone(Ok(op));
    assert_eq!(msg, None);
    assert_eq!(shared.undo_label(), Some("Rename"));
    let failed = shared.record_redone(Err(vec![OpError::NameConflict(s("/a"))]));
    assert_eq!(failed, Some(s("/a already exists")));
    assert_eq!(shared.undo_stack.len(), 1);
}

#[test]
fn trash_entries_deleted_together_keep_their_order() {
    let entry = |name: &str, t: i64| TrashEntry {
        id_path: format!("/trash/{name}"),
        name: s(name),
        original_path: format!("/d/{name}"),
        is_dir: false,
        size: 1,
        deleted_at: t,
        item: item(name, name, "/d", t),
    };
    let listed = list_sorted(vec![entry("x", 3), entry("old", 1), entry("y", 3), entry("z", 3)], true);
    let names: Vec<&str> = listed.iter().map(|e| e.name.as_str()).collect();
    assert_eq!(names, vec!["x", "y", "z", "old"]);
}

#[test]
fn a_failed_step_always_reports_an_error() {
    let op = UndoOp::Rename { from: s("/a"), to: s("/b") };
    let err = OpError::NameConflict(s("/a"));
    assert!(matches!(op.undo(Err(vec![err.clone()])), Err(es) if es.len() == 1));
    assert!(matches!(op.redo(Err(vec![err])), Err(es) if es.len() == 1));
    assert!(matches!(op.undo(Err(vec![])), Ok(UndoOp::Rename { from, to }) if from == "/a" && to == "/b"));
    let restore = UndoOp::Restore { original_paths: vec![s("/t/x")], items: vec![item("1", "x", "/t", 5)] };
    assert!(matches!(restore.undo(Err(vec![])), Ok(UndoOp::Restore { items, .. }) if items.is_empty()));
}

#[test]
fn trash_entries_are_made_from_their_items() {
    let file = TrashEntry::from_item(item("/trash/files/a", "a.txt", "/home/u", 40), Some(TrashSize::Bytes(12)));
    assert_eq!(file.id_path, "/trash/files/a");
    assert_eq!(file.name, "a.txt");
    assert_eq!(file.original_path, "/home/u/a.txt");
    assert_eq!(file.deleted_at, 40);
    assert!(!file.is_dir);
    assert_eq!(file.size, 12);
    let dir = TrashEntry::from_item(item("/trash/files/d", "d", "/home/u/", 41), Some(TrashSize::Entries(3)));
    assert!(dir.is_dir);
    assert_eq!(dir.size, 0);
    assert_eq!(dir.original_path, "/home/u/d");
    let unknown = TrashEntry::from_item(item("/trash/files/q", "q", "/", 42), None);
    assert!(!unknown.is_dir);
    assert_eq!(unknown.size, 0);
    assert_eq!(unknown.original_path, "/q");
}
