use zex::assets::Assets;
use zex::entry::FsEntry;
use zex::icon_theme::{
    load_theme_entry, resolve_in, resolve_theme_path, zed_extensions_dir, IconRenderMode,
    IconThemeEntry, IconThemeState, LoadedIconTheme,
};
use zex::path_edit::{next_suggestion, prev_suggestion};
use zex::naming::{new_entry_destination, rename_destination, rename_wanted};
use zex::undo::OpError;

fn s(x: &str) -> String {
    x.to_string()
}

fn pairs(items: &[(&str, &str)]) -> Vec<(String, String)> {
    items.iter().map(|(k, v)| (s(k), s(v))).collect()
}

fn theme(
    name: &str,
    directory_icon: Option<&str>,
    stems: &[(&str, &str)],
    suffixes: &[(&str, &str)],
    icons: &[(&str, &str)],
) -> LoadedIconTheme {
    LoadedIconTheme {
        name: s(name),
        directory_icon: directory_icon.map(s),
        file_stems: pairs(stems),
        file_suffixes: pairs(suffixes),
        file_icons: pairs(icons),
    }
}

fn file_entry(name: &str, path: &str, is_dir: bool) -> FsEntry {
    FsEntry { name: s(name), path: s(path), is_dir, size: 0, modified: None }
}

#[test]
fn file_stems_take_priority_over_file_suffixes() {
    let theme = theme(
        "T",
        None,
        &[("Dockerfile", "docker")],
        &[("Dockerfile", "generic")],
        &[("docker", "/root/docker.svg"), ("generic", "/root/generic.svg")],
    );

    let resolved = resolve_in(&theme, "/project/Dockerfile");

    assert_eq!(resolved, Some(s("/root/docker.svg")));
}

#[test]
fn falls_back_to_fallback_theme_file_key_when_nothing_matches() {
    let fallback = theme(
        "Fallback",
        Some("/fallback/folder.svg"),
        &[],
        &[],
        &[("file", "/fallback/file.svg")],
    );
    let state = IconThemeState { primary: None, fallback };

    let entry = file_entry("mystery.xyz", "/home/user/mystery.xyz", false);

    let icon = state.icon_for(&entry);
    assert_eq!(icon.path, s("/fallback/file.svg"));
    assert_eq!(icon.mode, IconRenderMode::Tinted);
}

#[test]
fn directory_uses_primary_theme_when_available() {
    let fallback = theme("Fallback", Some("/fallback/folder.svg"), &[], &[], &[]);
    let primary = theme("Primary", Some("/primary/folder.svg"), &[], &[], &[]);
    let state = IconThemeState { primary: Some(primary), fallback };

    let entry = file_entry("Documents", "/home/user/Documents", true);

    let icon = state.icon_for(&entry);
    assert_eq!(icon.path, s("/primary/folder.svg"));
    assert_eq!(icon.mode, IconRenderMode::FullColor);
}

#[test]
fn directory_falls_back_to_tinted_fallback_icon() {
    let fallback = theme("Fallback", Some("/fallback/folder.svg"), &[], &[], &[]);
    let primary = theme("Primary", None, &[], &[], &[]);
    let state = IconThemeState { primary: Some(primary), fallback };
    let icon = state.directory_icon();
    assert_eq!(icon.path, s("/fallback/folder.svg"));
    assert_eq!(icon.mode, IconRenderMode::Tinted);
}

#[test]
fn primary_theme_icon_wins_over_fallback_for_files() {
    let fallback = theme(
        "Fallback",
        Some("/fallback/folder.svg"),
        &[],
        &[("rs", "code")],
        &[("file", "/fallback/file.svg"), ("code", "/fallback/code.svg")],
    );
    let primary = theme("Primary", None, &[], &[("rs", "rust")], &[("rust", "/theme/rust.svg")]);
    let state = IconThemeState { primary: Some(primary), fallback };
    let icon = state.icon_for(&file_entry("main.rs", "/home/user/main.rs", false));
    assert_eq!(icon.path, s("/theme/rust.svg"));
    assert_eq!(icon.mode, IconRenderMode::FullColor);
}

#[test]
fn fallback_theme_icon_is_tinted_when_primary_has_none() {
    let fallback = theme(
        "Fallback",
        Some("/fallback/folder.svg"),
        &[],
        &[("rs", "code")],
        &[("file", "/fallback/file.svg"), ("code", "/fallback/code.svg")],
    );
    let primary = theme("Primary", None, &[], &[], &[("file", "/theme/file.svg")]);
    let state = IconThemeState { primary: Some(primary), fallback };
    let icon = state.icon_for(&file_entry("main.rs", "/home/user/main.rs", false));
    assert_eq!(icon.path, s("/fallback/code.svg"));
    assert_eq!(icon.mode, IconRenderMode::Tinted);
    let generic = state.icon_for(&file_entry("notes.zzz", "/home/user/notes.zzz", false));
    assert_eq!(generic.path, s("/theme/file.svg"));
    assert_eq!(generic.mode, IconRenderMode::FullColor);
}

#[test]
fn suffix_chain_matches_the_longest_suffix_first() {
    let theme = theme(
        "T",
        None,
        &[],
        &[("tar.gz", "archive"), ("gz", "zip")],
        &[("archive", "/t/archive.svg"), ("zip", "/t/zip.svg")],
    );
    assert_eq!(resolve_in(&theme, "/x/backup.tar.gz"), Some(s("/t/archive.svg")));
    assert_eq!(resolve_in(&theme, "/x/backup.gz"), Some(s("/t/zip.svg")));
    assert_eq!(resolve_in(&theme, "/x/README"), None);
}

#[test]
fn hidden_file_name_is_looked_up_without_its_dot() {
    let theme = theme("T", None, &[], &[("gitignore", "vcs")], &[("vcs", "/t/vcs.svg")]);
    assert_eq!(resolve_in(&theme, "/repo/.gitignore"), Some(s("/t/vcs.svg")));
}

#[test]
fn type_without_an_icon_resolves_to_nothing() {
    let theme = theme("T", None, &[("Makefile", "make")], &[], &[]);
    assert_eq!(resolve_in(&theme, "/p/Makefile"), None);
}

#[test]
fn rename_is_wanted_only_for_a_new_nonempty_name() {
    assert!(rename_wanted("/d/a.txt", "b.txt"));
    assert!(!rename_wanted("/d/a.txt", "a.txt"));
    assert!(!rename_wanted("/d/a.txt", ""));
}

#[test]
fn rename_destination_stays_in_the_same_folder() {
    assert_eq!(rename_destination("/d/a.txt", "b.txt").ok(), Some(s("/d/b.txt")));
    match rename_destination("/", "x") {
        Err(OpError::NameConflict(p)) => assert_eq!(p, s("/")),
        _ => panic!("a root folder cannot be renamed"),
    }
}

#[test]
fn new_entry_goes_into_the_current_folder() {
    assert_eq!(new_entry_destination("/home/u", "notes"), Some(s("/home/u/notes")));
    assert_eq!(new_entry_destination("/home/u", ""), None);
}

fn bundle() -> Assets {
    Assets::new(vec![
        (s("themes/zex-default.json"), b"{\"themes\": []}".to_vec()),
        (s("icons/folder.svg"), b"<svg/>".to_vec()),
        (s("icons/file_icons/rust.svg"), b"<svg r/>".to_vec()),
        (s("icons/file.svg"), b"<svg f/>".to_vec()),
        (s("bad.bin"), vec![0xff, 0xfe]),
    ])
}

#[test]
fn asset_lookup_returns_the_bundled_bytes() {
    let assets = bundle();
    assert_eq!(assets.get("icons/folder.svg"), Some(b"<svg/>".to_vec()));
    assert_eq!(assets.get("icons/missing.svg"), None);
    assert_eq!(assets.get("bad.bin"), Some(vec![0xff, 0xfe]));
}

#[test]
fn asset_text_is_decoded() {
    let assets = bundle();
    assert_eq!(assets.read_to_string("themes/zex-default.json"), s("{\"themes\": []}"));
}

#[test]
fn asset_listing_is_sorted_and_each_name_once() {
    let assets = bundle();
    assert_eq!(
        assets.list_dir("icons"),
        vec![s("file.svg"), s("file_icons"), s("folder.svg")]
    );
    assert_eq!(assets.list_dir("icons/"), assets.list_dir("icons"));
    assert_eq!(assets.list_dir("icons/file_icons"), vec![s("rust.svg")]);
    assert_eq!(assets.list_dir("nothing"), Vec::<String>::new());
}

#[test]
fn manifest_entry_paths_resolve_under_the_theme_folder() {
    let entry = IconThemeEntry {
        name: s("Test Theme"),
        collapsed_directory_icon: Some(s("./icons/folder.svg")),
        expanded_directory_icon: Some(s("./icons/open.svg")),
        file_stems: vec![],
        file_suffixes: pairs(&[("rs", "rust")]),
        file_icons: pairs(&[("rust", "./icons/rust.svg")]),
    };
    let theme = load_theme_entry(entry, "/theme/root", vec![], vec![]);
    assert_eq!(theme.name, s("Test Theme"));
    assert_eq!(theme.directory_icon, Some(s("/theme/root/icons/folder.svg")));
    assert_eq!(theme.file_icons, pairs(&[("rust", "/theme/root/icons/rust.svg")]));
    assert_eq!(resolve_in(&theme, "/src/main.rs"), Some(s("/theme/root/icons/rust.svg")));
}

#[test]
fn expanded_directory_icon_is_used_without_a_collapsed_one() {
    let entry = IconThemeEntry {
        name: s("T"),
        collapsed_directory_icon: None,
        expanded_directory_icon: Some(s("dirs/open.svg")),
        file_stems: vec![],
        file_suffixes: vec![],
        file_icons: vec![],
    };
    let theme = load_theme_entry(entry, "/t", vec![], vec![]);
    assert_eq!(theme.directory_icon, Some(s("/t/dirs/open.svg")));
}

#[test]
fn missing_tables_take_the_defaults_and_own_entries_win() {
    let entry = IconThemeEntry {
        name: s("Bare"),
        collapsed_directory_icon: None,
        expanded_directory_icon: None,
        file_stems: vec![],
        file_suffixes: pairs(&[("rs", "mine")]),
        file_icons: pairs(&[("mine", "./mine.svg"), ("rust", "./rust.svg"), ("docker", "./d.svg")]),
    };
    let theme = load_theme_entry(
        entry,
        "/root",
        pairs(&[("Dockerfile", "docker")]),
        pairs(&[("rs", "rust")]),
    );
    assert!(theme.directory_icon.is_none());
    assert_eq!(theme.file_stems, pairs(&[("Dockerfile", "docker")]));
    assert_eq!(theme.file_suffixes, pairs(&[("rs", "mine"), ("rs", "rust")]));
    assert_eq!(resolve_in(&theme, "/p/lib.rs"), Some(s("/root/mine.svg")));
    assert_eq!(resolve_in(&theme, "/p/Dockerfile"), Some(s("/root/d.svg")));
}

#[test]
fn theme_paths_drop_a_leading_dot_slash_and_keep_absolute_ones() {
    assert_eq!(resolve_theme_path("/base", "./a/b.svg"), s("/base/a/b.svg"));
    assert_eq!(resolve_theme_path("/base", "a.svg"), s("/base/a.svg"));
    assert_eq!(resolve_theme_path("/base", "/abs/a.svg"), s("/abs/a.svg"));
}

#[test]
fn zed_extensions_live_under_the_data_directory() {
    assert_eq!(zed_extensions_dir(Some(s("/data")), Some(s("/home/u"))), s("/data/zed/extensions/installed"));
    assert_eq!(
        zed_extensions_dir(None, Some(s("/home/u"))),
        s("/home/u/.local/share/zed/extensions/installed")
    );
    assert_eq!(zed_extensions_dir(None, None), s("/.local/share/zed/extensions/installed"));
}

#[test]
fn suggestion_selection_wraps_both_ways() {
    assert_eq!(next_suggestion(None, 3), Some(0));
    assert_eq!(next_suggestion(Some(0), 3), Some(1));
    assert_eq!(next_suggestion(Some(2), 3), Some(0));
    assert_eq!(prev_suggestion(None, 3), Some(2));
    assert_eq!(prev_suggestion(Some(0), 3), Some(2));
    assert_eq!(prev_suggestion(Some(2), 3), Some(1));
    assert_eq!(next_suggestion(None, 0), None);
    assert_eq!(prev_suggestion(Some(4), 0), Some(4));
    assert_eq!(prev_suggestion(next_suggestion(Some(1), 3), 3), Some(1));
}

fn table_of(v: &serde_json::Value) -> Vec<(String, String)> {
    match v.as_object() {
        Some(m) => m.iter().map(|(k, v)| (k.clone(), v.as_str().unwrap().to_string())).collect(),
        None => vec![],
    }
}

fn manifest_entry(v: &serde_json::Value) -> IconThemeEntry {
    let dirs = &v["directory_icons"];
    IconThemeEntry {
        name: v["name"].as_str().unwrap().to_string(),
        collapsed_directory_icon: dirs["collapsed"].as_str().map(s),
        expanded_directory_icon: dirs["expanded"].as_str().map(s),
        file_stems: table_of(&v["file_stems"]),
        file_suffixes: table_of(&v["file_suffixes"]),
        file_icons: match v["file_icons"].as_object() {
            Some(m) => m
                .iter()
                .map(|(k, d)| (k.clone(), d["path"].as_str().unwrap().to_string()))
                .collect(),
            None => vec![],
        },
    }
}

#[test]
fn parses_manifest_and_resolves_paths() {
    let json = r#"{
            "themes": [{
                "name": "Test Theme",
                "directory_icons": { "collapsed": "./icons/folder.svg" },
                "file_suffixes": { "rs": "rust" },
                "file_icons": { "rust": { "path": "./icons/rust.svg" } }
            }]
        }"#;
    let manifest: serde_json::Value = serde_json::from_str(json).unwrap();
    let themes: Vec<LoadedIconTheme> = manifest["themes"]
        .as_array()
        .unwrap()
        .iter()
        .map(|t| load_theme_entry(manifest_entry(t), "/theme/root", vec![], vec![]))
        .collect();

    assert_eq!(themes.len(), 1);
    let theme = &themes[0];
    assert_eq!(theme.name, "Test Theme");
    assert_eq!(theme.directory_icon, Some(s("/theme/root/icons/folder.svg")));
    let rust = theme.file_icons.iter().find(|(k, _)| k == "rust").map(|(_, p)| p.clone());
    assert_eq!(rust, Some(s("/theme/root/icons/rust.svg")));
}
