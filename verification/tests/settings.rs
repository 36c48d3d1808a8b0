use zex::json::{
    config_dir, default_zed_settings_path, merge_json, resolve_inherit_path, zex_config_path, Json,
};
use zex::jsonc::{parse_jsonc, strip_json_comments, strip_trailing_commas};
use zex::settings::{GitSettings, ThemeMode, ThemeSettings};

fn obj(members: Vec<(&str, Json)>) -> Json {
    Json::Object(members.into_iter().map(|(k, v)| (k.to_string(), v)).collect())
}

fn st(s: &str) -> Json {
    Json::Str(s.to_string())
}

fn member<'a>(j: &'a Json, key: &str) -> &'a Json {
    j.get(key).unwrap()
}

fn as_str(j: &Json) -> &str {
    match j {
        Json::Str(s) => s.as_str(),
        _ => panic!("not a string"),
    }
}

#[test]
fn parse_jsonc_strips_line_and_block_comments() {
    let contents = r#"{
            // top-level comment
            "icon_theme": "Foo", /* inline */ "ui_font_size": 15.0
        }"#;

    let value = parse_jsonc(contents).unwrap();

    assert_eq!(as_str(member(&value, "icon_theme")), "Foo");
    assert!(matches!(member(&value, "ui_font_size"), Json::Number(n) if n.parse::<f64>().unwrap() == 15.0));
}

#[test]
fn parse_jsonc_strips_trailing_commas() {
    let contents = r#"{
            "sidebar": [
                { "name": "A", "path": "/a", },
                { "name": "B", "path": "/b" },
            ],
        }"#;

    let value = parse_jsonc(contents).unwrap();

    assert!(matches!(member(&value, "sidebar"), Json::Array(items) if items.len() == 2));
}

#[test]
fn parse_jsonc_leaves_commas_and_slashes_inside_strings_untouched() {
    let contents = r#"{ "ui_font_family": "A, B // not a comment, /* also not */" }"#;

    let value = parse_jsonc(contents).unwrap();

    assert_eq!(as_str(member(&value, "ui_font_family")), "A, B // not a comment, /* also not */");
}

#[test]
fn merge_json_overlays_scalars_and_deep_merges_nested_objects() {
    let mut base = obj(vec![
        ("icon_theme", st("Zed Icons")),
        ("theme", obj(vec![("mode", st("dark")), ("light", st("A")), ("dark", st("B"))])),
    ]);
    let overlay = obj(vec![("theme", obj(vec![("light", st("Overridden"))]))]);

    merge_json(&mut base, overlay);

    assert_eq!(as_str(member(&base, "icon_theme")), "Zed Icons");
    let theme = member(&base, "theme");
    assert_eq!(as_str(member(theme, "mode")), "dark");
    assert_eq!(as_str(member(theme, "light")), "Overridden");
    assert_eq!(as_str(member(theme, "dark")), "B");
}

#[test]
fn merge_json_overlay_array_replaces_base_array_wholesale() {
    let num = |n: &str| Json::Number(n.to_string());
    let mut base = obj(vec![("sidebar", Json::Array(vec![num("1"), num("2"), num("3")]))]);
    let overlay = obj(vec![("sidebar", Json::Array(vec![num("4")]))]);

    merge_json(&mut base, overlay);

    match member(&base, "sidebar") {
        Json::Array(items) => {
            assert_eq!(items.len(), 1);
            assert!(matches!(&items[0], Json::Number(n) if n == "4"));
        }
        _ => panic!("not an array"),
    }
}

#[test]
fn resolve_inherit_path_true_uses_default_zed_settings_path() {
    let value = obj(vec![("inherit_from_zed", Json::Bool(true))]);
    let config = config_dir(Some("/cfg".to_string()), None);

    assert_eq!(
        resolve_inherit_path(&value, &config, "/home/u"),
        Some(default_zed_settings_path(&config))
    );
    assert_eq!(default_zed_settings_path(&config), "/cfg/zed/settings.json");
}

#[test]
fn resolve_inherit_path_false_or_absent_disables_inheritance() {
    let disabled = obj(vec![("inherit_from_zed", Json::Bool(false))]);
    let absent = obj(vec![]);

    assert_eq!(resolve_inherit_path(&disabled, "/cfg", "/home/u"), None);
    assert_eq!(resolve_inherit_path(&absent, "/cfg", "/home/u"), None);
}

#[test]
fn resolve_inherit_path_string_expands_tilde() {
    let value = obj(vec![("inherit_from_zed", st("~/custom/zed-settings.json"))]);

    assert_eq!(
        resolve_inherit_path(&value, "/cfg", "/home/u"),
        Some("/home/u/custom/zed-settings.json".to_string())
    );
}

#[test]
fn resolve_inherit_path_string_absolute_path_used_as_is() {
    let value = obj(vec![("inherit_from_zed", st("/etc/zed/settings.json"))]);

    assert_eq!(
        resolve_inherit_path(&value, "/cfg", "/home/u"),
        Some("/etc/zed/settings.json".to_string())
    );
}

#[test]
fn config_dir_falls_back_to_dot_config_in_home() {
    assert_eq!(config_dir(None, Some("/home/u".to_string())), "/home/u/.config");
    assert_eq!(config_dir(None, None), "/.config");
    assert_eq!(config_dir(Some("/x".to_string()), Some("/home/u".to_string())), "/x");
}

#[test]
fn merge_keeps_base_members_the_overlay_does_not_name() {
    let mut base = obj(vec![("a", st("1")), ("b", st("2"))]);
    merge_json(&mut base, obj(vec![("c", st("3"))]));
    assert_eq!(as_str(member(&base, "a")), "1");
    assert_eq!(as_str(member(&base, "b")), "2");
    assert_eq!(as_str(member(&base, "c")), "3");
}

#[test]
fn merge_over_a_non_object_base_takes_the_overlay() {
    let mut base = st("scalar");
    merge_json(&mut base, obj(vec![("k", Json::Bool(true))]));
    assert!(matches!(member(&base, "k"), Json::Bool(true)));
}

#[test]
fn stripping_without_comments_or_commas_changes_nothing() {
    let text = r#"{ "a": [1, 2], "b": "x" }"#;
    assert_eq!(strip_json_comments(text), text);
    assert_eq!(strip_trailing_commas(text), text);
}

#[test]
fn block_comment_and_trailing_comma_are_removed() {
    assert_eq!(strip_json_comments("[1 /* c */, 2]"), "[1 , 2]");
    assert_eq!(strip_trailing_commas("[1, 2, ]"), "[1, 2 ]");
    assert_eq!(strip_json_comments("1 // x\n2"), "1 \n2");
}

#[test]
fn git_settings_default_to_disabled() {
    let git = GitSettings::default();
    assert!(!git.enabled);
    assert!(git.status.enabled);
    assert!(git.status.show_untracked);
    assert!(!git.status.show_ignored);
    assert_eq!(git.refresh.poll_interval_ms, 2000);
    assert_eq!(git.cli.timeout_ms, 3000);
    assert_eq!(git.cli.binary_path, None);
}

#[test]
fn theme_selection_follows_mode_and_appearance() {
    let theme = ThemeSettings {
        mode: ThemeMode::System,
        light: Some("VSCode Light Modern".to_string()),
        dark: Some("VSCode Dark Modern".to_string()),
    };
    assert_eq!(theme.selected_theme_name(true), Some("VSCode Light Modern".to_string()));
    assert_eq!(theme.selected_theme_name(false), Some("VSCode Dark Modern".to_string()));
    let dark = ThemeSettings { mode: ThemeMode::Dark, ..theme.clone() };
    assert_eq!(dark.selected_theme_name(true), Some("VSCode Dark Modern".to_string()));
    let default = ThemeSettings::default();
    assert_eq!(default.mode, ThemeMode::Dark);
    assert_eq!(default.selected_theme_name(false), None);
}

#[test]
fn own_config_file_lives_under_zex_in_the_config_dir() {
    assert_eq!(zex_config_path("/home/u/.config"), "/home/u/.config/zex/config.json".to_string());
}

#[test]
fn zex_values_win_over_inherited_zed_values_end_to_end() {
    let zed_contents = r#"{
            // zed's own settings
            "icon_theme": "Colored Zed Icons Theme Dark",
            "ui_font_family": "JetBrainsMono Nerd Font Mono",
            "ui_font_size": 16.0,
            "theme": {
                "mode": "dark",
                "light": "VSCode Dark Modern",
                "dark": "VSCode Dark Modern",
            },
        }"#;
    let zex_contents = r#"{
            "inherit_from_zed": true,
            "ui_font_size": 13.0,
            "theme": { "light": "VSCode Light Modern" }
        }"#;

    let mut zed_value = parse_jsonc(zed_contents).unwrap();
    let zex_value = parse_jsonc(zex_contents).unwrap();
    merge_json(&mut zed_value, zex_value);

    assert_eq!(as_str(member(&zed_value, "icon_theme")), "Colored Zed Icons Theme Dark");
    assert_eq!(as_str(member(&zed_value, "ui_font_family")), "JetBrainsMono Nerd Font Mono");
    match member(&zed_value, "ui_font_size") {
        Json::Number(n) => assert_eq!(n.parse::<f64>().unwrap(), 13.0),
        _ => panic!("not a number"),
    }
    let theme = member(&zed_value, "theme");
    assert_eq!(as_str(member(theme, "mode")), "dark");
    assert_eq!(as_str(member(theme, "light")), "VSCode Light Modern");
    assert_eq!(as_str(member(theme, "dark")), "VSCode Dark Modern");
}

#[test]
fn settings_text_that_is_not_json_gives_nothing() {
    assert!(parse_jsonc("{ \"a\": }").is_none());
    assert!(parse_jsonc("").is_none());
    assert!(matches!(parse_jsonc("// only a comment\n[1, 2, ]"), Some(Json::Array(items)) if items.len() == 2));
    assert!(matches!(parse_jsonc("null"), Some(Json::Null)));
}
