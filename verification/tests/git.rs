use rustc_hash::FxHashMap;
use zex::git::{
    classify, find_repo_root, git_is_dirty, git_letter_for, git_status_for, parse_porcelain,
    parse_u32, repo_root_candidates, snapshot, snapshot_args, worst_status_under, GitFileStatus,
};
use zex::settings::{GitCliSettings, GitSettings, GitStatusSettings};

fn dir() -> String {
    "/repo".to_string()
}

#[test]
fn parses_clean_branch_header_with_no_tracking() {
    let output = b"## main\0";
    let snapshot = parse_porcelain(&dir(), output).unwrap();

    assert_eq!(snapshot.branch.as_deref(), Some("main"));
    assert_eq!(snapshot.ahead, 0);
    assert_eq!(snapshot.behind, 0);
    assert!(snapshot.statuses.is_empty());
}

#[test]
fn parses_ahead_behind_tracking_info() {
    let output = b"## main...origin/main [ahead 1, behind 2]\0";
    let snapshot = parse_porcelain(&dir(), output).unwrap();

    assert_eq!(snapshot.branch.as_deref(), Some("main"));
    assert_eq!(snapshot.ahead, 1);
    assert_eq!(snapshot.behind, 2);
}

#[test]
fn parses_ahead_only_tracking_info() {
    let output = b"## feature...origin/feature [ahead 3]\0";
    let snapshot = parse_porcelain(&dir(), output).unwrap();

    assert_eq!(snapshot.ahead, 3);
    assert_eq!(snapshot.behind, 0);
}

#[test]
fn detached_head_has_no_branch() {
    let output = b"## HEAD (no branch)\0";
    let snapshot = parse_porcelain(&dir(), output).unwrap();

    assert_eq!(snapshot.branch, None);
}

#[test]
fn unborn_branch_reports_name() {
    let output = b"## No commits yet on main\0";
    let snapshot = parse_porcelain(&dir(), output).unwrap();

    assert_eq!(snapshot.branch.as_deref(), Some("main"));
}

#[test]
fn parses_file_status_entries() {
    let output = b"## main\0 M src/foo.rs\0?? src/new.rs\0!! target/\0A  src/added.rs\0";
    let snapshot = parse_porcelain(&dir(), output).unwrap();

    assert_eq!(snapshot.status("/repo/src/foo.rs"), Some(GitFileStatus::Modified));
    assert_eq!(snapshot.status("/repo/src/new.rs"), Some(GitFileStatus::Untracked));
    assert_eq!(snapshot.status("/repo/target/"), Some(GitFileStatus::Ignored));
    assert_eq!(snapshot.status("/repo/src/added.rs"), Some(GitFileStatus::Added));
}

#[test]
fn parses_conflicted_entries() {
    let output = b"## main\0UU src/conflict.rs\0";
    let snapshot = parse_porcelain(&dir(), output).unwrap();

    assert_eq!(snapshot.status("/repo/src/conflict.rs"), Some(GitFileStatus::Conflicted));
}

#[test]
fn rename_entries_consume_the_origin_path_token() {
    let output = b"## main\0R  src/new_name.rs\0src/old_name.rs\0?? src/untouched.rs\0";
    let snapshot = parse_porcelain(&dir(), output).unwrap();

    assert_eq!(snapshot.status("/repo/src/new_name.rs"), Some(GitFileStatus::Renamed));
    assert!(!snapshot.statuses.contains_key("/repo/src/old_name.rs"));
    assert_eq!(snapshot.status("/repo/src/untouched.rs"), Some(GitFileStatus::Untracked));
}

#[test]
fn worst_status_under_picks_highest_priority_descendant() {
    let mut statuses = FxHashMap::default();
    statuses.insert("/repo/sub/a.rs".to_string(), GitFileStatus::Untracked);
    statuses.insert("/repo/sub/b.rs".to_string(), GitFileStatus::Conflicted);
    statuses.insert("/repo/other/c.rs".to_string(), GitFileStatus::Modified);

    let worst = worst_status_under(&statuses, "/repo/sub");

    assert_eq!(worst, Some(GitFileStatus::Conflicted));
}

#[test]
fn worst_status_under_is_none_when_nothing_matches() {
    let statuses = FxHashMap::default();
    let worst = worst_status_under(&statuses, "/repo/sub");

    assert_eq!(worst, None);
}

#[test]
fn find_repo_root_walks_up_to_the_nearest_dot_git() {
    let candidates = repo_root_candidates("/tmp/root/src/explorer");
    assert_eq!(
        candidates,
        vec![
            "/tmp/root/src/explorer".to_string(),
            "/tmp/root/src".to_string(),
            "/tmp/root".to_string(),
            "/tmp".to_string(),
            "/".to_string()
        ]
    );
    let markers: Vec<bool> = candidates.iter().map(|c| c == "/tmp/root").collect();
    assert_eq!(find_repo_root(&candidates, &markers), Some("/tmp/root".to_string()));

    let at_root = repo_root_candidates("/tmp/root");
    let markers: Vec<bool> = at_root.iter().map(|c| c == "/tmp/root").collect();
    assert_eq!(find_repo_root(&at_root, &markers), Some("/tmp/root".to_string()));
}

#[test]
fn find_repo_root_is_none_outside_any_repo() {
    let candidates = repo_root_candidates("/tmp/norepo");
    let markers = vec![false; candidates.len()];
    assert_eq!(find_repo_root(&candidates, &markers), None);
}

#[test]
fn worse_status_is_the_higher_priority_one() {
    assert_eq!(GitFileStatus::Modified.worse(GitFileStatus::Conflicted), GitFileStatus::Conflicted);
    assert_eq!(GitFileStatus::Conflicted.worse(GitFileStatus::Ignored), GitFileStatus::Conflicted);
    assert!(GitFileStatus::Conflicted.priority() < GitFileStatus::Ignored.priority());
}

#[test]
fn classify_maps_porcelain_letters() {
    assert_eq!(classify(Some(('?', '?'))), GitFileStatus::Untracked);
    assert_eq!(classify(Some(('U', 'U'))), GitFileStatus::Conflicted);
    assert_eq!(classify(Some(('R', ' '))), GitFileStatus::Renamed);
    assert_eq!(git_letter_for(GitFileStatus::Modified), "M");
}

#[test]
fn find_repo_root_treats_a_dot_git_file_as_a_repo_marker() {
    // Whether the `.git` marker is a folder or a file is the caller's probe;
    // either kind counts as a marker here.
    let root = "/tmp/zex_repo_root_file_test".to_string();
    let candidates = repo_root_candidates(&root);
    let markers: Vec<bool> = candidates.iter().map(|c| *c == root).collect();
    assert_eq!(find_repo_root(&candidates, &markers), Some(root.clone()));
}

#[test]
fn snapshot_arguments_follow_the_status_settings() {
    let mut status = GitStatusSettings::default();
    assert_eq!(
        snapshot_args(&status),
        vec!["status", "--porcelain=v1", "-z", "--branch", "--untracked-files=all", "--", "."]
    );
    status.show_untracked = false;
    status.show_ignored = true;
    assert_eq!(
        snapshot_args(&status),
        vec![
            "status",
            "--porcelain=v1",
            "-z",
            "--branch",
            "--untracked-files=no",
            "--ignored=matching",
            "--",
            "."
        ]
    );
}

#[test]
fn dirty_means_a_change_that_is_not_only_ignored() {
    let clean = parse_porcelain(&dir(), b"## main\0!! target/\0").unwrap();
    assert!(!git_is_dirty(Some(&clean)));
    let dirty = parse_porcelain(&dir(), b"## main\0 M a.rs\0").unwrap();
    assert!(git_is_dirty(Some(&dirty)));
    assert!(!git_is_dirty(None));
}

#[test]
fn entry_status_depends_on_the_settings() {
    let snap = parse_porcelain(&dir(), b"## main\0 M src/a.rs\0?? src/b.rs\0").unwrap();
    let mut settings = GitSettings::default();
    assert_eq!(git_status_for(&settings, Some(&snap), "/repo/src/a.rs", false), None);
    settings.enabled = true;
    assert_eq!(
        git_status_for(&settings, Some(&snap), "/repo/src/a.rs", false),
        Some(GitFileStatus::Modified)
    );
    assert_eq!(
        git_status_for(&settings, Some(&snap), "/repo/src", true),
        Some(GitFileStatus::Modified)
    );
    assert_eq!(git_status_for(&settings, Some(&snap), "/repo/docs", true), None);
    assert_eq!(git_status_for(&settings, None, "/repo/src/a.rs", false), None);
    settings.status.aggregate_folders = false;
    assert_eq!(git_status_for(&settings, Some(&snap), "/repo/src", true), None);
}

#[test]
fn failed_or_oversized_git_runs_give_no_snapshot() {
    let cli = GitCliSettings::default();
    assert!(snapshot("/repo", &cli, None, None).is_none());
    let snap = snapshot("/repo/sub", &cli, Some(b"## main\0 M x.rs\0".to_vec()), Some("/repo".to_string()))
        .unwrap();
    assert_eq!(snap.status("/repo/x.rs"), Some(GitFileStatus::Modified));
    let limited = GitCliSettings { max_repo_entries: Some(0), ..GitCliSettings::default() };
    assert!(snapshot("/repo", &limited, Some(b"## main\0 M x.rs\0".to_vec()), None).is_none());
}

fn chars(s: &str) -> Vec<char> {
    s.chars().collect()
}

#[test]
fn counts_are_read_as_unsigned_decimals() {
    assert_eq!(parse_u32(&chars("7")), Some(7));
    assert_eq!(parse_u32(&chars("+7")), Some(7));
    assert_eq!(parse_u32(&chars("007")), Some(7));
    assert_eq!(parse_u32(&chars("4294967295")), Some(u32::MAX));
    assert_eq!(parse_u32(&chars("4294967296")), None);
    assert_eq!(parse_u32(&chars("")), None);
    assert_eq!(parse_u32(&chars("+")), None);
    assert_eq!(parse_u32(&chars("-1")), None);
    assert_eq!(parse_u32(&chars("1a")), None);
    assert_eq!(parse_u32(&chars(" 1")), None);
    for s in ["0", "12", "+3", "99999", "4294967295", "4294967296", "x", "-0", "++1"] {
        assert_eq!(parse_u32(&chars(s)), s.parse::<u32>().ok());
    }
}

#[test]
fn ahead_and_behind_counts_come_from_the_branch_line() {
    let snapshot = parse_porcelain(&dir(), b"## main...origin/main [ahead +12, behind 4294967296]\0").unwrap();
    assert_eq!(snapshot.ahead, 12);
    assert_eq!(snapshot.behind, 0);
}
