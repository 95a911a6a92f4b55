use elio::config::{
    entry_field_name_text, entry_warning_text, GoToConfig, GoToConfigOverride, GoToEntry,
    GoToEntryError, GoToEntryValue,
};
use elio::input::{rect_contains, Rect};
use elio::paths::{
    cd_target, expand_place_path_with_home, expand_tilde, expand_tilde_with_home, join_path,
    PlacePathError,
};
use elio::text::{
    char_count, count_text_exec, concatenate, insert_char, next_delete_end, next_word_start, previous_delete_start,
    previous_word_start, remove_char_range, trim,
};

fn home() -> Option<String> {
    Some("/home/alice".to_string())
}

fn table(title: Option<&str>, path: Option<&str>) -> GoToEntryValue {
    GoToEntryValue::Table { title: title.map(str::to_string), path: path.map(str::to_string) }
}

#[test]
fn trim_removes_unicode_whitespace_at_both_ends() {
    assert_eq!(trim("  a b \t\n"), "a b");
    assert_eq!(trim("\u{3000}x\u{a0}"), "x");
    assert_eq!(trim("   "), "");
    assert_eq!(trim(""), "");
    assert_eq!(trim("x"), "x");
}

#[test]
fn word_boundaries() {
    assert_eq!(previous_word_start("foo bar", 7), 4);
    assert_eq!(previous_word_start("foo bar", 4), 0);
    assert_eq!(previous_word_start("  ", 2), 0);
    assert_eq!(next_word_start("foo bar", 0), 4);
    assert_eq!(next_word_start("foo bar", 4), 7);
    assert_eq!(previous_delete_start("/usr/local/", 11), 5);
    assert_eq!(previous_delete_start("/usr/local", 10), 5);
    assert_eq!(next_delete_end("/usr/local", 0), 4);
    assert_eq!(next_delete_end("a b", 1), 3);
}

#[test]
fn editing_counts_characters_not_bytes() {
    assert_eq!(char_count("äöü"), 3);
    assert_eq!(insert_char("äü", 1, 'ö'), "äöü");
    assert_eq!(remove_char_range("äöü", 1, 2), "äü");
    assert_eq!(concatenate("ä", "b"), "äb");
}

#[test]
fn join_follows_unix_path_rules() {
    assert_eq!(join_path("/home/alice", "docs"), "/home/alice/docs");
    assert_eq!(join_path("/home/alice/", "docs"), "/home/alice/docs");
    assert_eq!(join_path("/home/alice", "/etc"), "/etc");
    assert_eq!(join_path("", "docs"), "docs");
    assert_eq!(join_path("/home/alice", ""), "/home/alice/");
}

#[test]
fn tilde_expansion() {
    assert_eq!(expand_tilde_with_home("~", home()), "/home/alice");
    assert_eq!(expand_tilde_with_home("~/src", home()), "/home/alice/src");
    assert_eq!(expand_tilde_with_home("~bob", home()), "~bob");
    assert_eq!(expand_tilde_with_home("/tmp/~", home()), "/tmp/~");
    assert_eq!(expand_tilde_with_home("~/src", None), "~/src");
    assert_eq!(expand_tilde("/usr"), "/usr");
}

#[test]
fn place_paths_need_the_home_directory_for_a_tilde() {
    assert_eq!(expand_place_path_with_home("~/music", home()), Ok("/home/alice/music".to_string()));
    assert_eq!(expand_place_path_with_home("~", None), Err(PlacePathError::HomeUnavailable));
    assert_eq!(expand_place_path_with_home("/srv", None), Ok("/srv".to_string()));
}

#[test]
fn a_file_path_leads_to_its_parent() {
    assert_eq!(cd_target("/home/alice/notes.txt".to_string(), true), "/home/alice");
    assert_eq!(cd_target("/home/alice".to_string(), false), "/home/alice");
    assert_eq!(cd_target("/".to_string(), true), "/");
    assert_eq!(cd_target("notes.txt".to_string(), true), "");
}

#[test]
fn rectangles_hold_their_cells() {
    let r = Rect { x: 2, y: 3, width: 4, height: 2 };
    assert!(rect_contains(r, 2, 3));
    assert!(rect_contains(r, 5, 4));
    assert!(!rect_contains(r, 6, 4));
    assert!(!rect_contains(r, 5, 5));
    assert!(!rect_contains(r, 1, 3));
    let edge = Rect { x: 65535, y: 65535, width: 1, height: 1 };
    assert!(rect_contains(edge, 65535, 65535));
    assert!(!rect_contains(Rect { x: 0, y: 0, width: 0, height: 0 }, 0, 0));
}

#[test]
fn entries_are_read_from_tables_with_title_and_path() {
    let e = GoToEntry::from_toml_value_with_home(&table(Some("  Music "), Some(" ~/music ")), home())
        .unwrap();
    assert_eq!(e.title, "Music");
    assert_eq!(e.path, "/home/alice/music");
}

#[test]
fn malformed_entries_are_skipped_with_a_reason() {
    let err = |v: GoToEntryValue| GoToEntry::from_toml_value_with_home(&v, home()).err();
    assert_eq!(err(GoToEntryValue::Other), Some(GoToEntryError::NotATable));
    assert_eq!(err(table(None, Some("/x"))), Some(GoToEntryError::MissingTitle));
    assert_eq!(err(table(Some("   "), Some("/x"))), Some(GoToEntryError::MissingTitle));
    assert_eq!(err(table(Some("X"), None)), Some(GoToEntryError::MissingPath));
    assert_eq!(err(table(Some("X"), Some(""))), Some(GoToEntryError::MissingPath));
    let no_home = GoToEntry::from_toml_value_with_home(&table(Some("X"), Some("~")), None).err();
    assert_eq!(no_home, Some(GoToEntryError::Path(PlacePathError::HomeUnavailable)));
}

#[test]
fn the_config_keeps_valid_entries_in_order() {
    let overrides = GoToConfigOverride {
        entries: Some(vec![
            table(Some("A"), Some("/a")),
            GoToEntryValue::Other,
            table(Some(""), Some("/b")),
            table(Some("C"), Some("~/c")),
        ]),
    };
    let config = GoToConfig::from_override_with_home(overrides, home());
    let got: Vec<(&str, &str)> =
        config.entries.iter().map(|e| (e.title.as_str(), e.path.as_str())).collect();
    assert_eq!(got, vec![("A", "/a"), ("C", "/home/alice/c")]);
    let empty = GoToConfig::from_override(GoToConfigOverride { entries: None });
    assert!(empty.entries.is_empty());
}

#[test]
fn counts_are_grouped_by_thousands() {
    assert_eq!(count_text_exec("1234567"), "1,234,567");
    assert_eq!(count_text_exec("123"), "123");
    assert_eq!(count_text_exec("1000"), "1,000");
    assert_eq!(count_text_exec("12a4"), "12a4");
    assert_eq!(count_text_exec(""), "");
}

#[test]
fn skipped_entries_are_reported_with_the_original_warnings() {
    let overrides = GoToConfigOverride {
        entries: Some(vec![
            GoToEntryValue::Other,
            table(Some("A"), Some("/a")),
            table(None, None),
            table(Some("T"), Some("  ")),
            table(Some("H"), Some("~/h")),
        ]),
    };
    let (config, warnings) = GoToConfig::from_override_reporting_with_home(overrides, None);
    assert_eq!(config.entries.len(), 1);
    assert_eq!(config.entries[0].title, "A");
    assert_eq!(
        warnings,
        vec![
            "elio: go_to.entries[0]: expected a { title, path } object; skipping entry",
            "elio: go_to.entries[2]: go_to entries require a non-empty string title; skipping entry",
            "elio: go_to.entries[3]: go_to entries require a non-empty string path; skipping entry",
            "elio: go_to.entries[4]: cannot expand `~`: the home directory is unknown; skipping entry",
        ]
    );
}

#[test]
fn warning_texts_name_the_field() {
    assert_eq!(entry_field_name_text(12), "go_to.entries[12]");
    assert_eq!(
        entry_warning_text(GoToEntryError::MissingTitle, "go_to.entries[1]"),
        "elio: go_to.entries[1]: go_to entries require a non-empty string title; skipping entry"
    );
    let (config, warnings) =
        GoToConfig::from_override_reporting(GoToConfigOverride { entries: None });
    assert!(config.entries.is_empty() && warnings.is_empty());
}
