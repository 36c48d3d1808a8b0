use zex::scan_progress::{scan_progress_step, ScanEvent, ScanState};
use zex::columns::{
    next_disk_usage_sort, next_sort, Column, ColumnVisibility, DiskUsageSortColumn, SortColumn,
    SortDirection,
};
use zex::config_docs::{config_docs, key_text, list_text, sections, wrap};
use zex::disk_usage::{
    scan_entry, scan_tree_of, RawEntry, ScanRules,
    directory_node, flatten_tree, is_mount_boundary, scan_plan, EntryMeta, NodeKind, ScanPlan,
    ScannedNode,
};
use zex::entry::{
    listing_sorted, octal_permissions, permission_string, sort_entries, type_label_for, FsEntry,
};
use zex::keys::{capitalize, format_keystroke, shortcut_label, Keystroke};
use zex::navigation::{is_trash_path, open_action, open_failed_message, up_target, OpenAction, TRASH_VIRTUAL_PATH};
use zex::paths::{file_name, is_same_path, parent};
use zex::path_edit::{
    commit_target, completion_query, completion_text, not_a_directory_message, path_completions,
    PathEditTarget,
};
use zex::properties::{summarize, totals_fit_for, ItemMeta, LinkProbe, StatsState};
use zex::selection::{row_index_of, Selection};

fn s(x: &str) -> String {
    x.to_string()
}

fn rows() -> Vec<String> {
    vec![s("/d/a"), s("/d/b"), s("/d/c"), s("/d/e")]
}

fn entry(name: &str, is_dir: bool, size: u64, modified: Option<i64>) -> FsEntry {
    FsEntry { name: s(name), path: format!("/t/{name}"), is_dir, size, modified }
}

#[test]
fn is_mount_boundary_respects_cross_filesystem_flag() {
    assert!(!is_mount_boundary(1, 1, false));
    assert!(is_mount_boundary(2, 1, false));
    assert!(!is_mount_boundary(2, 1, true));
}

#[test]
fn rolls_up_sizes_and_sorts_children_by_size_descending() {
    let small = directory_node(
        s("small"),
        s("/r/small"),
        None,
        vec![ScannedNode::leaf(s("a.txt"), s("/r/small/a.txt"), NodeKind::File, 10, None)],
    );
    let big = directory_node(
        s("big"),
        s("/r/big"),
        None,
        vec![ScannedNode::leaf(s("b.txt"), s("/r/big/b.txt"), NodeKind::File, 1000, None)],
    );
    let root = directory_node(s("rollup"), s("/r"), None, vec![small, big]);
    let tree = flatten_tree(root);
    let root = tree.get(tree.root());

    assert_eq!(root.children.len(), 2);
    let first = tree.get(root.children[0]);
    let second = tree.get(root.children[1]);
    assert_eq!(first.name, "big");
    assert_eq!(second.name, "small");
    assert_eq!(root.size, first.size + second.size);
    assert_eq!(root.item_count, first.item_count + second.item_count + 2);
}

#[test]
fn tree_find_and_parent_links_are_consistent() {
    let sub = directory_node(
        s("sub"),
        s("/l/sub"),
        None,
        vec![ScannedNode::leaf(s("file.txt"), s("/l/sub/file.txt"), NodeKind::File, 2, None)],
    );
    let tree = flatten_tree(directory_node(s("links"), s("/l"), None, vec![sub]));

    let sub_id = tree.find("/l/sub").unwrap();
    let sub = tree.get(sub_id);
    assert_eq!(sub.parent, Some(tree.root()));

    let file_id = tree.find("/l/sub/file.txt").unwrap();
    assert_eq!(tree.get(file_id).parent, Some(sub_id));
    assert_eq!(tree.find("/nowhere"), None);
}

#[test]
fn scan_plans_follow_links_only_when_asked() {
    let link = EntryMeta { is_symlink: true, is_dir: false, len: 12, dev: 1, modified: Some(3) };
    let target = EntryMeta { is_symlink: false, is_dir: false, len: 500, dev: 1, modified: Some(4) };
    assert_eq!(
        scan_plan(false, Some(link), false, Some(target)),
        ScanPlan::Leaf { kind: NodeKind::File, size: 12, modified: Some(3) }
    );
    assert_eq!(
        scan_plan(false, Some(link), true, Some(target)),
        ScanPlan::Leaf { kind: NodeKind::File, size: 500, modified: Some(4) }
    );
    assert_eq!(
        scan_plan(false, Some(link), true, None),
        ScanPlan::Leaf { kind: NodeKind::Inaccessible, size: 0, modified: Some(3) }
    );
    assert_eq!(
        scan_plan(true, Some(target), false, None),
        ScanPlan::Leaf { kind: NodeKind::Inaccessible, size: 0, modified: None }
    );
    let dir = EntryMeta { is_symlink: false, is_dir: true, len: 0, dev: 1, modified: None };
    assert_eq!(scan_plan(false, Some(dir), false, None), ScanPlan::Directory { meta: dir });
}

#[test]
fn dirs_sort_before_files_case_insensitive() {
    let entries = vec![
        entry("zeta_dir", true, 0, None),
        entry("Alpha_file.txt", false, 2, None),
        entry("beta_file.txt", false, 2, None),
        entry("Beta_dir", true, 0, None),
    ];
    let sorted = listing_sorted(entries, true);
    let names: Vec<&str> = sorted.iter().map(|e| e.name.as_str()).collect();

    assert_eq!(names, vec!["Beta_dir", "zeta_dir", "Alpha_file.txt", "beta_file.txt"]);
}

#[test]
fn sort_by_size_descending_keeps_folders_first() {
    let mut entries = vec![
        entry("small", false, 1, Some(5)),
        entry("dir", true, 0, None),
        entry("big", false, 100, Some(1)),
    ];
    sort_entries(&mut entries, SortColumn::Size, SortDirection::Descending);
    let names: Vec<&str> = entries.iter().map(|e| e.name.as_str()).collect();
    assert_eq!(names, vec!["dir", "big", "small"]);
    sort_entries(&mut entries, SortColumn::Modified, SortDirection::Ascending);
    let names: Vec<&str> = entries.iter().map(|e| e.name.as_str()).collect();
    assert_eq!(names, vec!["dir", "big", "small"]);
}

#[test]
fn hidden_entries_are_left_out_unless_asked() {
    let entries = vec![entry(".git", true, 0, None), entry("a", false, 1, None)];
    assert_eq!(listing_sorted(entries, false).len(), 1);
}

#[test]
fn type_labels_and_permissions() {
    assert_eq!(type_label_for("notes.txt", false), "TXT File");
    assert_eq!(type_label_for("archive.tar.gz", false), "GZ File");
    assert_eq!(type_label_for(".bashrc", false), "File");
    assert_eq!(type_label_for("Makefile", false), "File");
    assert_eq!(type_label_for("src", true), "Folder");
    assert_eq!(permission_string(0o755), "rwxr-xr-x");
    assert_eq!(permission_string(0o640), "rw-r-----");
    assert_eq!(octal_permissions(0o100644), "644");
    assert_eq!(octal_permissions(0o4755), "4755");
    assert_eq!(octal_permissions(0), "0");
}

#[test]
fn columns_toggle_and_sort_cycles() {
    let mut v = ColumnVisibility::default();
    assert!(v.get(Column::Size));
    v.toggle(Column::Size);
    assert!(!v.get(Column::Size));
    assert!(v.get(Column::Type));
    assert_eq!(
        next_sort(SortColumn::Name, SortDirection::Ascending, SortColumn::Name),
        (SortColumn::Name, SortDirection::Descending)
    );
    assert_eq!(
        next_sort(SortColumn::Name, SortDirection::Descending, SortColumn::Size),
        (SortColumn::Size, SortDirection::Ascending)
    );
}

#[test]
fn clicks_select_and_focus_rows() {
    let rows = rows();
    let mut sel = Selection::new();
    assert!(!sel.mouse_down_select(&rows, s("/d/b"), false, false, 1));
    assert_eq!(sel.focused.as_deref(), Some("/d/b"));
    assert!(!sel.mouse_down_select(&rows, s("/d/e"), false, true, 1));
    let mut picked: Vec<String> = sel.selected.iter().cloned().collect();
    picked.sort();
    assert_eq!(picked, vec![s("/d/b"), s("/d/c"), s("/d/e")]);
    assert_eq!(sel.focused.as_deref(), Some("/d/b"));
    assert!(!sel.mouse_down_select(&rows, s("/d/c"), true, false, 1));
    assert!(!sel.selected.contains("/d/c"));
    assert!(sel.mouse_down_select(&rows, s("/d/a"), false, false, 2));
    sel.mouse_up_select(s("/d/b"), false, false, 1, false);
    assert_eq!(sel.selected.len(), 1);
    assert!(sel.selected.contains("/d/b"));
}

#[test]
fn keys_move_the_focus_within_the_rows() {
    let rows = rows();
    let mut sel = Selection::new();
    sel.move_selection(&rows, 1);
    assert_eq!(sel.focused.as_deref(), Some("/d/a"));
    sel.move_selection(&rows, 10);
    assert_eq!(sel.focused.as_deref(), Some("/d/e"));
    sel.move_selection(&rows, -2);
    assert_eq!(sel.focused.as_deref(), Some("/d/b"));
    assert_eq!(sel.selected.len(), 1);
    sel.select_all(&rows);
    assert_eq!(sel.selected.len(), 4);
    assert!(sel.click_empty_space(false));
    assert!(sel.selected.is_empty() && sel.focused.is_none());
    assert!(!sel.click_empty_space(false));
    assert_eq!(row_index_of(&rows, "/d/c"), Some(2));
    assert_eq!(row_index_of(&rows, "/d/z"), None);
}

#[test]
fn box_selection_adds_covered_rows() {
    let rows = rows();
    let mut sel = Selection::new();
    sel.mouse_down_select(&rows, s("/d/a"), false, false, 1);
    let initial = sel.begin_box_select(true);
    sel.update_box_select(&rows, &initial, 2, 10);
    assert_eq!(sel.selected.len(), 3);
    assert_eq!(sel.focused.as_deref(), Some("/d/e"));
    let initial = sel.begin_box_select(false);
    assert!(sel.selected.is_empty());
    sel.update_box_select(&rows, &initial, 1, 2);
    assert_eq!(sel.selected.len(), 1);
    assert_eq!(sel.focused.as_deref(), Some("/d/b"));
}

#[test]
fn keystrokes_are_written_with_modifiers() {
    let k = Keystroke { control: true, alt: false, platform: false, shift: true, key: s("z") };
    assert_eq!(format_keystroke(&k), "Ctrl-Shift-Z");
    let tab = Keystroke { control: true, alt: false, platform: false, shift: false, key: s("tab") };
    assert_eq!(format_keystroke(&tab), "Ctrl-Tab");
    assert_eq!(capitalize("f2"), "F2");
    assert_eq!(capitalize(""), "");
    assert_eq!(shortcut_label(&vec![k, tab]), "Ctrl-Shift-Z Ctrl-Tab");
}

#[test]
fn config_docs_list_and_explain_keys() {
    assert_eq!(wrap("aaa bbb ccc", 7, "  "), "  aaa bbb\n  ccc");
    let docs = config_docs();
    let text = key_text(&docs, "git.enabled").ok().unwrap();
    assert_eq!(
        text,
        "git.enabled\n  Type: bool\n  Default: false\n\n  Everything else under git is inert until this is true.\n\n"
    );
    assert_eq!(
        key_text(&docs, "nope").err().unwrap(),
        "zex: unknown config key: 'nope'\nRun `zex config` to list all keys."
    );
    let list = list_text(&docs, &sections());
    assert!(list.starts_with("zex reads a JSONC config from $XDG_CONFIG_HOME/zex/config.json\n"));
    assert!(list.contains("\nGit\n  git.enabled "));
    assert!(list.ends_with("Run `zex config <key>` for details on any of the above.\n"));
}

fn meta(is_dir: bool, is_symlink: bool, len: u64) -> ItemMeta {
    ItemMeta {
        is_dir,
        is_symlink,
        len,
        blocks: 8,
        modified: Some(1),
        accessed: Some(2),
        ctime: -5,
        mode: 0o644,
        uid: 1000,
        gid: 1000,
    }
}

#[test]
fn properties_summarize_one_or_many_items() {
    let one = summarize(&vec![(s("/d/notes.txt"), meta(false, false, 10))], s("/d"), None).unwrap();
    assert_eq!(one.name, "notes.txt");
    assert_eq!(one.type_label, "TXT File");
    assert_eq!(one.window_title, "notes.txt Info");
    assert_eq!(one.single.unwrap().permissions_changed, Some(0));
    assert!(matches!(one.stats, StatsState::Ready(st) if st.file_count == 1 && st.total_size == 10 && st.size_on_disk == 4096));

    let many = summarize(
        &vec![(s("/d/a"), meta(true, false, 0)), (s("/d/b"), meta(false, false, 1))],
        s("/d"),
        None,
    )
    .unwrap();
    assert_eq!(many.name, "2 items selected");
    assert_eq!(many.type_label, "Multiple Items");
    assert_eq!(many.stats, StatsState::Loading);
    assert!(many.single.is_none());

    let link = summarize(
        &vec![(s("/d/ln"), meta(false, true, 3))],
        s("/d"),
        Some(LinkProbe { target: Some(s("/x")), target_is_dir: Some(true) }),
    )
    .unwrap();
    assert_eq!(link.type_label, "Symbolic Link (Folder)");
    let broken = summarize(
        &vec![(s("/d/ln"), meta(false, true, 3))],
        s("/d"),
        Some(LinkProbe { target: Some(s("/x")), target_is_dir: None }),
    )
    .unwrap();
    assert_eq!(broken.type_label, "Broken Symbolic Link");
    assert!(summarize(&vec![], s("/d"), None).is_none());
}

#[test]
fn path_bar_suggests_matching_folders() {
    assert_eq!(completion_query("/home/us"), (s("/home"), s("us")));
    assert_eq!(completion_query("/home/"), (s("/home/"), s("")));
    assert_eq!(completion_query("docs"), (s("/"), s("docs")));
    let entries = vec![
        (s("Users"), true),
        (s("usr"), true),
        (s("user.txt"), false),
        (s("bin"), true),
    ];
    assert_eq!(path_completions("/home", "us", &entries), vec![s("/home/Users"), s("/home/usr")]);
    assert_eq!(path_completions("/home", "", &entries).len(), 3);
    assert_eq!(commit_target(None, "  :trash "), PathEditTarget::Trash);
    assert_eq!(commit_target(None, " /tmp "), PathEditTarget::Typed(s("/tmp")));
    assert_eq!(commit_target(Some(s("/x")), "/tmp"), PathEditTarget::Suggestion(s("/x")));
    assert_eq!(completion_text(&vec![s("/a"), s("/b")], Some(1)), Some(s("/b/")));
    assert_eq!(completion_text(&vec![s("/a")], None), Some(s("/a/")));
    assert_eq!(completion_text(&vec![], None), None);
}

#[test]
fn refreshing_keeps_only_rows_still_shown() {
    let rows = rows();
    let mut sel = Selection::new();
    sel.move_selection(&rows, 1);
    sel.move_selection(&rows, 10);
    sel.select_all(&rows);
    assert_eq!(sel.focused.as_deref(), Some("/d/e"));
    let fewer = vec![s("/d/a"), s("/d/c")];
    sel.retain_rows(&fewer);
    let mut picked: Vec<String> = sel.selected.iter().cloned().collect();
    picked.sort();
    assert_eq!(picked, vec![s("/d/a"), s("/d/c")]);
    assert!(sel.focused.is_none());
    sel.move_selection(&fewer, 1);
    sel.retain_rows(&fewer);
    assert_eq!(sel.focused.as_deref(), Some("/d/a"));
}

#[test]
fn going_up_and_opening_entries() {
    assert_eq!(up_target("/home/u/docs"), Some(s("/home/u")));
    assert_eq!(up_target("/"), None);
    assert_eq!(up_target(TRASH_VIRTUAL_PATH), None);
    assert!(is_trash_path(":trash"));
    assert!(!is_trash_path("/trash"));
    let dir = FsEntry { name: s("docs"), path: s("/h/docs"), is_dir: true, size: 0, modified: None };
    let file = FsEntry { name: s("a.txt"), path: s("/h/a.txt"), is_dir: false, size: 3, modified: None };
    assert!(matches!(open_action(false, Some(&dir)), OpenAction::Navigate(p) if p == "/h/docs"));
    assert!(matches!(open_action(false, Some(&file)), OpenAction::Launch(p) if p == "/h/a.txt"));
    assert!(matches!(open_action(true, Some(&file)), OpenAction::Nothing));
    assert!(matches!(open_action(false, None), OpenAction::Nothing));
    assert_eq!(open_failed_message("/h/a.txt", "no handler"), "Couldn't open /h/a.txt: no handler");
}

#[test]
fn disk_usage_view_drills_into_folders_and_goes_back_up() {
    let sub = directory_node(
        s("sub"),
        s("/l/sub"),
        None,
        vec![ScannedNode::leaf(s("file.txt"), s("/l/sub/file.txt"), NodeKind::File, 2, None)],
    );
    let tree = flatten_tree(directory_node(s("links"), s("/l"), None, vec![sub]));
    assert!(tree.can_drill_into("/l/sub"));
    assert!(!tree.can_drill_into("/l/sub/file.txt"));
    assert!(!tree.can_drill_into("/elsewhere"));
    assert_eq!(tree.parent_root("/l/sub"), Some(s("/l")));
    assert_eq!(tree.parent_root("/l/sub/file.txt"), Some(s("/l/sub")));
    assert_eq!(tree.parent_root("/l"), None);
    assert_eq!(tree.parent_root("/elsewhere"), None);
}

#[test]
fn totals_fit_unless_sizes_overflow() {
    assert!(totals_fit_for(&vec![(s("/a"), meta(false, false, 10)), (s("/b"), meta(false, false, 20))]));
    assert!(!totals_fit_for(&vec![
        (s("/a"), meta(false, false, u64::MAX)),
        (s("/b"), meta(false, false, 1))
    ]));
    assert!(totals_fit_for(&vec![]));
}

#[test]
fn disk_usage_header_clicks_flip_or_switch_the_sort() {
    assert_eq!(
        next_disk_usage_sort(DiskUsageSortColumn::Size, SortDirection::Ascending, DiskUsageSortColumn::Size),
        (DiskUsageSortColumn::Size, SortDirection::Descending)
    );
    assert_eq!(
        next_disk_usage_sort(DiskUsageSortColumn::Size, SortDirection::Descending, DiskUsageSortColumn::Name),
        (DiskUsageSortColumn::Name, SortDirection::Ascending)
    );
}

#[test]
fn typed_path_that_is_not_a_folder_is_reported() {
    assert_eq!(not_a_directory_message("/etc/passwd"), "Not a directory: /etc/passwd");
}

#[test]
fn equally_ranked_entries_keep_their_order() {
    let mut entries = vec![
        entry("readme", false, 1, None),
        entry("b", false, 1, None),
        entry("README", false, 2, None),
    ];
    sort_entries(&mut entries, SortColumn::Name, SortDirection::Ascending);
    let names: Vec<&str> = entries.iter().map(|e| e.name.as_str()).collect();
    assert_eq!(names, vec!["b", "readme", "README"]);
    let listed = listing_sorted(vec![entry("README", false, 2, None), entry("readme", false, 1, None)], false);
    let names: Vec<&str> = listed.iter().map(|e| e.name.as_str()).collect();
    assert_eq!(names, vec!["README", "readme"]);
}

#[test]
fn children_of_equal_size_keep_their_order() {
    let node = directory_node(
        s("d"),
        s("/d"),
        None,
        vec![
            ScannedNode::leaf(s("first"), s("/d/first"), NodeKind::File, 5, None),
            ScannedNode::leaf(s("big"), s("/d/big"), NodeKind::File, 9, None),
            ScannedNode::leaf(s("second"), s("/d/second"), NodeKind::File, 5, None),
            ScannedNode::leaf(s("third"), s("/d/third"), NodeKind::File, 5, None),
        ],
    );
    let names: Vec<&str> = node.children.iter().map(|c| c.name.as_str()).collect();
    assert_eq!(names, vec!["big", "first", "second", "third"]);
}

#[test]
fn paths_compare_by_component() {
    assert!(is_same_path("/a/b/", "/a/b"));
    assert!(is_same_path("/a//b", "/a/b"));
    assert!(is_same_path("/a/./b", "/a/b"));
    assert!(!is_same_path("a/b", "/a/b"));
    assert!(!is_same_path("/a/b/c", "/a/b"));
}

#[test]
fn scan_polls_report_progress_then_the_tree_or_a_failure() {
    assert!(matches!(
        scan_progress_step(ScanEvent::Pending, 3, 4096),
        ScanState::Scanning { files_scanned: 3, bytes_scanned: 4096 }
    ));
    match scan_progress_step(ScanEvent::Disconnected, 3, 4096) {
        ScanState::Failed { error } => assert_eq!(error, "The scan stopped unexpectedly."),
        _ => panic!("expected a failure"),
    }
    let tree = flatten_tree(directory_node(s("r"), s("/r"), None, vec![]));
    match scan_progress_step(ScanEvent::Finished(tree), 0, 0) {
        ScanState::Ready { tree } => assert_eq!(tree.get(tree.root()).path, "/r"),
        _ => panic!("expected the tree"),
    }
}

#[test]
fn the_index_leads_each_path_to_its_own_node() {
    let sub = directory_node(
        s("sub"),
        s("/l/sub"),
        None,
        vec![ScannedNode::leaf(s("f"), s("/l/sub/f"), NodeKind::File, 1, None)],
    );
    let tree = flatten_tree(directory_node(s("l"), s("/l"), None, vec![sub]));
    for id in 0..tree.nodes.len() {
        assert_eq!(tree.find(&tree.nodes[id].path), Some(id));
    }
}

#[test]
fn every_directory_of_a_flattened_scan_adds_up_its_children() {
    let docs = directory_node(
        s("docs"),
        s("/t/docs"),
        None,
        vec![
            ScannedNode::leaf(s("a"), s("/t/docs/a"), NodeKind::File, 5, None),
            ScannedNode::leaf(s("b"), s("/t/docs/b"), NodeKind::File, 70, None),
            ScannedNode::leaf(s("mnt"), s("/t/docs/mnt"), NodeKind::MountBoundary, 0, None),
        ],
    );
    let empty = directory_node(s("empty"), s("/t/empty"), None, vec![]);
    let locked = ScannedNode::leaf(s("locked"), s("/t/locked"), NodeKind::Inaccessible, 0, None);
    let top = ScannedNode::leaf(s("top"), s("/t/top"), NodeKind::File, 40, None);
    let tree = flatten_tree(directory_node(s("t"), s("/t"), None, vec![docs, empty, locked, top]));

    assert_eq!(tree.nodes.len(), 8);
    assert_eq!(tree.get(tree.root()).parent, None);
    for id in 0..tree.nodes.len() {
        let node = tree.get(id);
        assert_eq!(tree.find(&node.path), Some(id));
        for &c in &node.children {
            assert_eq!(tree.get(c).parent, Some(id));
        }
        if node.kind == NodeKind::Directory {
            let sizes: Vec<u64> = node.children.iter().map(|&c| tree.get(c).size).collect();
            assert_eq!(node.size, sizes.iter().sum::<u64>());
            let items: u64 = node.children.iter().map(|&c| tree.get(c).item_count + 1).sum();
            assert_eq!(node.item_count, items);
            assert!(sizes.windows(2).all(|w| w[0] >= w[1]));
        } else {
            assert!(node.children.is_empty());
            assert_eq!(node.item_count, 0);
        }
    }
    assert_eq!(tree.get(tree.root()).size, 115);
    assert_eq!(tree.get(tree.root()).item_count, 7);
}

fn path_chars(p: &str) -> Vec<char> {
    p.chars().collect()
}

fn as_text(v: Option<Vec<char>>) -> Option<String> {
    v.map(|c| c.into_iter().collect())
}

#[test]
fn a_final_dot_component_names_nothing_as_in_std_paths() {
    assert_eq!(as_text(file_name(&path_chars("foo.txt/."))), Some(s("foo.txt")));
    assert_eq!(as_text(parent(&path_chars("x/."))), Some(s("")));
    assert_eq!(as_text(parent(&path_chars("a/./b"))), Some(s("a")));
    assert_eq!(as_text(parent(&path_chars("/."))), None);
    assert_eq!(as_text(file_name(&path_chars("/."))), None);
    for p in ["x/.", "x/./", "x/./.", "a/./b", "/.", "/a/.", ".", "./x", "./.", "a//b/", "/", "", "a/..", "/a/b"] {
        let std_path = std::path::Path::new(p);
        assert_eq!(
            as_text(file_name(&path_chars(p))),
            std_path.file_name().map(|n| n.to_string_lossy().into_owned()),
            "file name of {p:?}"
        );
        assert_eq!(
            as_text(parent(&path_chars(p))),
            std_path.parent().map(|q| q.to_string_lossy().into_owned()),
            "parent of {p:?}"
        );
    }
    assert_eq!(zex::clipboard::item_label("/tmp/x/."), "x");
}

#[test]
fn white_space_is_what_std_calls_white_space() {
    for n in 0..=0x10FFFFu32 {
        if let Some(c) = char::from_u32(n) {
            assert_eq!(zex::text::is_whitespace(c), c.is_whitespace(), "{n:#x}");
        }
    }
}

fn file_meta(len: u64, dev: u64) -> EntryMeta {
    EntryMeta { is_symlink: false, is_dir: false, len, dev, modified: Some(1) }
}

fn dir_meta(dev: u64) -> EntryMeta {
    EntryMeta { is_symlink: false, is_dir: true, len: 4096, dev, modified: Some(2) }
}

fn raw(path: &str, meta: Option<EntryMeta>, entries: Option<Vec<RawEntry>>) -> RawEntry {
    RawEntry { path: s(path), cancelled: false, meta, target: None, entries }
}

#[test]
fn a_walk_reading_becomes_a_rolled_up_tree() {
    let rules = ScanRules { follow_symlinks: false, cross_filesystem_boundaries: false, root_dev: 1 };
    let link = EntryMeta { is_symlink: true, is_dir: false, len: 9, dev: 1, modified: Some(3) };
    let reading = raw(
        "/r",
        Some(dir_meta(1)),
        Some(vec![
            raw("/r/a", Some(file_meta(10, 1)), None),
            raw("/r/sub", Some(dir_meta(1)), Some(vec![raw("/r/sub/b", Some(file_meta(30, 1)), None)])),
            raw("/r/mnt", Some(dir_meta(2)), None),
            raw("/r/locked", Some(dir_meta(1)), None),
            raw("/r/gone", None, None),
            raw("/r/link", Some(link), None),
            RawEntry { path: s("/r/late"), cancelled: true, meta: Some(file_meta(99, 1)), target: None, entries: None },
        ]),
    );
    let tree = scan_tree_of(reading, rules).unwrap();
    let root = tree.get(tree.root());
    assert_eq!(root.kind, NodeKind::Directory);
    assert_eq!(root.size, 49);
    assert_eq!(root.item_count, 8);
    assert_eq!(tree.nodes.len(), 9);
    let kind_of = |p: &str| tree.get(tree.find(p).unwrap()).kind;
    assert_eq!(kind_of("/r/mnt"), NodeKind::MountBoundary);
    assert_eq!(kind_of("/r/locked"), NodeKind::Inaccessible);
    assert_eq!(kind_of("/r/gone"), NodeKind::Inaccessible);
    assert_eq!(kind_of("/r/late"), NodeKind::Inaccessible);
    assert_eq!(kind_of("/r/link"), NodeKind::File);
    assert_eq!(tree.get(tree.find("/r/link").unwrap()).size, 9);
    assert_eq!(tree.get(tree.find("/r/sub").unwrap()).name, "sub");
    let sizes: Vec<u64> = root.children.iter().map(|&c| tree.get(c).size).collect();
    assert_eq!(sizes, vec![30, 10, 9, 0, 0, 0, 0]);
}

#[test]
fn a_walk_reading_whose_totals_overflow_gives_no_tree() {
    let rules = ScanRules { follow_symlinks: false, cross_filesystem_boundaries: true, root_dev: 1 };
    let reading = raw(
        "/r",
        Some(dir_meta(1)),
        Some(vec![raw("/r/a", Some(file_meta(u64::MAX, 1)), None), raw("/r/b", Some(file_meta(1, 1)), None)]),
    );
    assert!(scan_tree_of(reading, rules).is_none());
    let single = raw("/r/a", Some(file_meta(u64::MAX, 1)), None);
    assert!(scan_entry(single, rules).is_some());
}
