use kyvyrn::paths::{
    app_dir, app_dir_from, app_dir_in, apps_dir, apps_dir_from, apps_dir_in, config_file,
    generate_app_folder, global_config_path, global_config_path_from, global_config_path_in,
    icon_path, icon_path_in, join, safe_app_name, temp_config_file,
};

#[test]
fn folder_of_name_with_punctuation() {
    assert_eq!(generate_app_folder("My App!", "abc123"), "my-app-abc123");
}

#[test]
fn folder_of_name_with_spaces_at_both_ends() {
    assert_eq!(generate_app_folder("  a--b  ", "x"), "-a-b-x");
}

#[test]
fn folder_of_plain_name() {
    assert_eq!(generate_app_folder("abc", "1"), "abc-1");
    assert_eq!(generate_app_folder("GitHub", "7f3a"), "github-7f3a");
}

#[test]
fn folder_of_empty_name() {
    assert_eq!(generate_app_folder("", "id"), "-id");
}

#[test]
fn folder_keeps_the_id_as_it_is() {
    assert_eq!(generate_app_folder("a", "ID_9/x"), "a-ID_9/x");
    assert_eq!(generate_app_folder("a", ""), "a-");
}

#[test]
fn folder_of_name_that_is_all_punctuation() {
    assert_eq!(generate_app_folder("!!!", "z"), "-z");
}

#[test]
fn safe_name_lowers_and_collapses() {
    assert_eq!(safe_app_name("My App!"), "my-app-");
    assert_eq!(safe_app_name("  a--b  "), "-a-b-");
    assert_eq!(safe_app_name("Hello, World 42"), "hello-world-42");
    assert_eq!(safe_app_name(""), "");
}

#[test]
fn safe_name_treats_other_alphabets_as_separators() {
    assert_eq!(safe_app_name("\u{dc}n\u{ef}"), "-n-");
    assert_eq!(safe_app_name("caf\u{e9} \u{2603} bar"), "caf-bar");
}

#[test]
fn safe_name_of_safe_name_is_itself() {
    let names = ["My App!", "  a--b  ", "x", "", "A_B__C", "--", "9 to 5"];
    for name in names {
        let once = safe_app_name(name);
        assert_eq!(safe_app_name(&once), once);
    }
}

#[test]
fn safe_name_has_no_two_hyphens_in_a_row() {
    let names = ["a  b", "a - b", "-- --", "a!@#$%^&*()b", "\t\n"];
    for name in names {
        let safe = safe_app_name(name);
        assert!(!safe.contains("--"));
        assert!(safe.chars().all(|c| c.is_ascii_lowercase() || c.is_ascii_digit() || c == '-'));
    }
}

#[test]
fn same_safe_name_and_other_id_give_other_folder() {
    assert_eq!(safe_app_name("My App"), safe_app_name("my app"));
    assert_ne!(generate_app_folder("My App", "1"), generate_app_folder("my app", "2"));
}

#[test]
fn join_puts_one_separator() {
    assert_eq!(join("/a", "b"), "/a/b");
    assert_eq!(join("/a/", "b"), "/a/b");
    assert_eq!(join("", "b"), "b");
    assert_eq!(join("a", ""), "a/");
    assert_eq!(join("/", "b"), "/b");
}

#[test]
fn join_with_a_rooted_part_takes_the_part() {
    assert_eq!(join("/a", "/etc"), "/etc");
}

#[test]
fn join_agrees_with_std_paths() {
    let cases = [("/a", "b"), ("/a/", "b"), ("", "b"), ("a", ""), ("/a", "/etc"), ("a/b", "c/d")];
    for (base, part) in cases {
        let expected = std::path::Path::new(base).join(part);
        assert_eq!(std::path::PathBuf::from(join(base, part)), expected);
        assert_eq!(join(base, part), expected.to_str().unwrap());
    }
}

#[test]
fn apps_directory_under_data_directory() {
    assert_eq!(apps_dir_in("/home/u/.local/share"), "/home/u/.local/share/kyvyrn/Apps");
}

#[test]
fn app_directory_under_data_directory() {
    assert_eq!(
        app_dir_in("/home/u/.local/share", "my-app-abc123"),
        "/home/u/.local/share/kyvyrn/Apps/my-app-abc123"
    );
}

#[test]
fn config_and_temp_file_in_app_directory() {
    assert_eq!(config_file("/d/Apps/x-1"), "/d/Apps/x-1/config.json");
    assert_eq!(temp_config_file("/d/Apps/x-1"), "/d/Apps/x-1/config.tmp");
}

#[test]
fn icon_is_keyed_by_id_alone() {
    assert_eq!(icon_path_in("/d", "abc123"), "/d/kyvyrn/icons/abc123.png");
}

#[test]
fn preference_file_under_config_directory() {
    assert_eq!(global_config_path_in("/home/u/.config"), "/home/u/.config/kyvyrn/config.json");
}

#[test]
fn paths_of_this_user_end_as_expected() {
    if let Some(p) = apps_dir() {
        assert!(p.ends_with("kyvyrn/Apps"));
    }
    if let Some(p) = app_dir("x-1") {
        assert!(p.ends_with("kyvyrn/Apps/x-1"));
    }
    if let Ok(p) = icon_path("abc") {
        assert!(p.ends_with("kyvyrn/icons/abc.png"));
    }
    if let Some(p) = global_config_path() {
        assert!(p.ends_with("kyvyrn/config.json"));
    }
}

#[test]
fn app_dir_is_there_exactly_if_apps_dir_is() {
    assert_eq!(apps_dir().is_some(), app_dir("x").is_some());
    assert_eq!(apps_dir().is_some(), icon_path("x").is_ok());
}

#[test]
fn paths_follow_from_the_directory_the_platform_names() {
    assert_eq!(apps_dir_from(Some("/d".to_string())), Some("/d/kyvyrn/Apps".to_string()));
    assert_eq!(app_dir_from(Some("/d".to_string()), "x-1"), Some("/d/kyvyrn/Apps/x-1".to_string()));
    assert_eq!(
        global_config_path_from(Some("/c".to_string())),
        Some("/c/kyvyrn/config.json".to_string())
    );
}

#[test]
fn no_paths_where_the_platform_names_no_directory() {
    assert_eq!(apps_dir_from(None), None);
    assert_eq!(app_dir_from(None, "x-1"), None);
    assert_eq!(global_config_path_from(None), None);
}
