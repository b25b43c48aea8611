use kyvyrn::config::{AppConfig, Engine};
use kyvyrn::error::Error;
use kyvyrn::paths::generate_app_folder;
use kyvyrn::registry::{
    app_dir_by_id, delete_app, find_app, plan_update, rename_app_folder, save_app,
    update_app_config, AppRegistry, Scanned, Update,
};

fn app(id: &str, name: &str) -> AppConfig {
    AppConfig {
        id: id.to_string(),
        name: name.to_string(),
        url: format!("https://{name}.test"),
        description: "d".to_string(),
        created_at: 1700000000,
        engine: Engine::WebKit,
        folder: generate_app_folder(name, id),
    }
}

fn dir(config: AppConfig) -> Scanned {
    Scanned::App { folder: config.folder.clone(), config }
}

fn empty_dir(folder: &str) -> Scanned {
    Scanned::NoConfig { folder: folder.to_string() }
}

fn broken(message: &str) -> Scanned {
    Scanned::Failed { error: Error::Json(message.to_string()) }
}

fn sorted_ids(apps: &[AppConfig]) -> Vec<String> {
    let mut ids: Vec<String> = apps.iter().map(|a| a.id.clone()).collect();
    ids.sort();
    ids
}

#[test]
fn lookup_finds_the_first_app_with_the_id() {
    let listing = vec![empty_dir("junk"), dir(app("a", "One")), dir(app("b", "Two"))];
    assert_eq!(find_app(&listing, "a"), Ok(1));
    assert_eq!(find_app(&listing, "b"), Ok(2));
}

#[test]
fn lookup_of_an_unknown_id_finds_nothing() {
    let listing = vec![empty_dir("junk"), dir(app("a", "One"))];
    assert_eq!(find_app(&listing, "zzz"), Err(Error::AppNotFound));
    assert_eq!(find_app(&Vec::new(), "a"), Err(Error::AppNotFound));
}

#[test]
fn lookup_takes_the_earlier_of_two_directories_with_one_id() {
    let mut second = app("a", "One");
    second.folder = "copy".to_string();
    let listing = vec![dir(app("a", "One")), dir(second)];
    assert_eq!(find_app(&listing, "a"), Ok(0));
}

#[test]
fn lookup_stops_at_a_failure_before_the_app() {
    let listing = vec![dir(app("b", "Two")), broken("bad json"), dir(app("a", "One"))];
    assert_eq!(find_app(&listing, "a"), Err(Error::Json("bad json".to_string())));
    assert_eq!(find_app(&listing, "missing"), Err(Error::Json("bad json".to_string())));
}

#[test]
fn lookup_does_not_reach_a_failure_after_the_app() {
    let listing = vec![dir(app("b", "Two")), broken("bad json"), dir(app("a", "One"))];
    assert_eq!(find_app(&listing, "b"), Ok(0));
}

#[test]
fn lookup_compares_ids_exactly() {
    let listing = vec![dir(app("abc", "One"))];
    assert_eq!(find_app(&listing, "ab"), Err(Error::AppNotFound));
    assert_eq!(find_app(&listing, "abcd"), Err(Error::AppNotFound));
    assert_eq!(find_app(&listing, "ABC"), Err(Error::AppNotFound));
    assert_eq!(find_app(&listing, ""), Err(Error::AppNotFound));
}

#[test]
fn directory_by_id_is_under_the_base() {
    let listing = vec![dir(app("a", "My App!"))];
    assert_eq!(app_dir_by_id("/d/Apps", &listing, "a"), Ok("/d/Apps/my-app-a".to_string()));
}

#[test]
fn directory_by_id_goes_by_the_directory_not_the_folder_field() {
    let mut moved = app("a", "One");
    moved.folder = "stale".to_string();
    let listing = vec![Scanned::App { folder: "actual".to_string(), config: moved }];
    assert_eq!(app_dir_by_id("/d/Apps", &listing, "a"), Ok("/d/Apps/actual".to_string()));
}

#[test]
fn directory_by_id_fails_as_the_lookup_does() {
    let listing = vec![broken("io"), dir(app("a", "One"))];
    assert_eq!(app_dir_by_id("/d", &listing, "a"), Err(Error::Json("io".to_string())));
    assert_eq!(app_dir_by_id("/d", &Vec::new(), "a"), Err(Error::AppNotFound));
}

#[test]
fn deleted_app_is_not_found_again() {
    let mut listing = vec![empty_dir("junk"), dir(app("a", "One")), dir(app("b", "Two"))];
    let i = find_app(&listing, "a").unwrap();
    listing.remove(i);
    assert_eq!(find_app(&listing, "a"), Err(Error::AppNotFound));
    assert_eq!(find_app(&listing, "b"), Ok(1));
}

#[test]
fn deleting_one_of_two_directories_with_one_id_leaves_the_other() {
    let mut second = app("a", "One");
    second.folder = "copy".to_string();
    let mut listing = vec![dir(app("a", "One")), dir(second)];
    let i = find_app(&listing, "a").unwrap();
    listing.remove(i);
    assert_eq!(find_app(&listing, "a"), Ok(0));
}

#[test]
fn save_derives_the_folder_and_keeps_the_rest() {
    let mut given = app("abc123", "My App!");
    given.folder = "whatever the caller said".to_string();
    given.engine = Engine::Chromium { browser: "chromium".to_string() };
    let saved = save_app(given.clone());
    assert_eq!(saved.folder, "my-app-abc123");
    assert_eq!(saved.id, given.id);
    assert_eq!(saved.name, given.name);
    assert_eq!(saved.url, given.url);
    assert_eq!(saved.description, given.description);
    assert_eq!(saved.created_at, given.created_at);
    assert_eq!(saved.engine, given.engine);
}

#[test]
fn saved_app_is_what_a_load_returns() {
    let mut given = app("abc123", "My App!");
    given.folder = String::new();
    let saved = save_app(given.clone());
    let listing = vec![empty_dir("x"), dir(app("other", "Other")), dir(saved.clone())];
    let mut registry = AppRegistry::new();
    let apps = registry.load_apps(&listing).unwrap();
    let found = apps.iter().find(|a| a.id == "abc123").unwrap();
    assert_eq!(found.folder, generate_app_folder("My App!", "abc123"));
    assert_eq!(*found, AppConfig { folder: found.folder.clone(), ..given });
    assert_eq!(registry.get("abc123"), Some(&saved));
}

#[test]
fn load_replaces_what_the_registry_held() {
    let mut registry = AppRegistry::new();
    registry.insert(app("old", "Old"));
    let apps = registry.load_apps(&vec![dir(app("a", "One"))]).unwrap();
    assert_eq!(sorted_ids(&apps), vec!["a"]);
    assert_eq!(registry.get("old"), None);
    assert!(registry.get("a").is_some());
}

#[test]
fn load_skips_directories_without_configuration() {
    let mut registry = AppRegistry::new();
    let listing = vec![empty_dir("x"), dir(app("a", "One")), empty_dir("y"), dir(app("b", "Two"))];
    let apps = registry.load_apps(&listing).unwrap();
    assert_eq!(sorted_ids(&apps), vec!["a", "b"]);
}

#[test]
fn load_of_an_empty_directory_is_empty() {
    let mut registry = AppRegistry::new();
    registry.insert(app("old", "Old"));
    assert_eq!(registry.load_apps(&Vec::new()), Ok(Vec::new()));
    assert_eq!(registry.len(), 0);
}

#[test]
fn load_keeps_the_later_of_two_directories_with_one_id() {
    let mut second = app("a", "Renamed");
    second.url = "https://second.test".to_string();
    let mut registry = AppRegistry::new();
    let apps = registry.load_apps(&vec![dir(app("a", "One")), dir(second.clone())]).unwrap();
    assert_eq!(apps, vec![second.clone()]);
    assert_eq!(registry.get("a"), Some(&second));
}

#[test]
fn load_fails_at_the_first_failure_and_keeps_what_came_before() {
    let listing = vec![
        dir(app("a", "One")),
        broken("first"),
        dir(app("b", "Two")),
        Scanned::Failed { error: Error::Io("second".to_string()) },
    ];
    let mut registry = AppRegistry::new();
    registry.insert(app("old", "Old"));
    assert_eq!(registry.load_apps(&listing), Err(Error::Json("first".to_string())));
    assert!(registry.get("a").is_some());
    assert_eq!(registry.get("b"), None);
    assert_eq!(registry.get("old"), None);
    assert_eq!(registry.len(), 1);
}

#[test]
fn registry_starts_empty() {
    let registry = AppRegistry::new();
    assert_eq!(registry.len(), 0);
    assert_eq!(registry.values(), Vec::new());
    assert_eq!(registry.get("a"), None);
}

#[test]
fn registry_insert_overwrites_by_id() {
    let mut registry = AppRegistry::new();
    registry.insert(app("a", "One"));
    registry.insert(app("b", "Two"));
    let mut newer = app("a", "One again");
    newer.url = "https://new.test".to_string();
    registry.insert(newer.clone());
    assert_eq!(registry.len(), 2);
    assert_eq!(registry.get("a"), Some(&newer));
    assert_eq!(registry.get("b"), Some(&app("b", "Two")));
    assert_eq!(sorted_ids(&registry.values()), vec!["a", "b"]);
}

#[test]
fn registry_clear_forgets_everything() {
    let mut registry = AppRegistry::new();
    registry.insert(app("a", "One"));
    registry.clear();
    assert_eq!(registry.len(), 0);
    assert_eq!(registry.get("a"), None);
}

#[test]
fn update_with_a_new_name_renames_and_derives_the_folder() {
    let current = app("abc123", "Old Name");
    let update = update_app_config(
        current.clone(),
        "New Name".to_string(),
        "https://new.test".to_string(),
        Engine::Chromium { browser: "vivaldi".to_string() },
    );
    assert_eq!(update.rename_to, Some("new-name-abc123".to_string()));
    assert_eq!(
        update.config,
        AppConfig {
            name: "New Name".to_string(),
            url: "https://new.test".to_string(),
            engine: Engine::Chromium { browser: "vivaldi".to_string() },
            folder: "new-name-abc123".to_string(),
            ..current
        }
    );
}

#[test]
fn update_with_the_same_name_renames_nothing() {
    let mut current = app("abc123", "Name");
    current.folder = "where it is".to_string();
    let update = update_app_config(
        current.clone(),
        "Name".to_string(),
        "https://new.test".to_string(),
        Engine::WebKit,
    );
    assert_eq!(update.rename_to, None);
    assert_eq!(update.config, AppConfig { url: "https://new.test".to_string(), ..current });
}

#[test]
fn second_update_with_the_same_name_renames_nothing() {
    let current = app("abc123", "Old Name");
    let first = update_app_config(current, "New".to_string(), "u1".to_string(), Engine::WebKit);
    assert!(first.rename_to.is_some());
    let second =
        update_app_config(first.config.clone(), "New".to_string(), "u2".to_string(), Engine::WebKit);
    assert_eq!(second.rename_to, None);
    assert_eq!(second.config.folder, first.config.folder);
}

#[test]
fn update_treats_names_that_differ_in_case_as_different() {
    let update =
        update_app_config(app("1", "name"), "Name".to_string(), "u".to_string(), Engine::WebKit);
    assert_eq!(update.rename_to, Some("name-1".to_string()));
}

#[test]
fn update_never_touches_id_description_or_creation_time() {
    let current = app("abc123", "Old");
    let update =
        update_app_config(current.clone(), "New".to_string(), "u".to_string(), Engine::WebKit);
    assert_eq!(update.config.id, current.id);
    assert_eq!(update.config.description, current.description);
    assert_eq!(update.config.created_at, current.created_at);
}

#[test]
fn delete_names_the_directory_and_what_is_left() {
    let listing = vec![empty_dir("junk"), dir(app("a", "One")), dir(app("b", "Two"))];
    let (removed, rest) = delete_app("/d/Apps", listing, "a").unwrap();
    assert_eq!(removed, "/d/Apps/one-a");
    assert_eq!(rest, vec![empty_dir("junk"), dir(app("b", "Two"))]);
    assert_eq!(app_dir_by_id("/d/Apps", &rest, "a"), Err(Error::AppNotFound));
}

#[test]
fn delete_of_an_unknown_id_fails() {
    let listing = vec![dir(app("a", "One"))];
    assert_eq!(delete_app("/d", listing, "zzz"), Err(Error::AppNotFound));
    assert_eq!(
        delete_app("/d", vec![broken("bad"), dir(app("a", "One"))], "a"),
        Err(Error::Json("bad".to_string()))
    );
}

#[test]
fn rename_moves_the_directory_to_the_folder_of_the_new_name() {
    let listing = vec![dir(app("abc123", "Old Name"))];
    assert_eq!(
        rename_app_folder("/d/Apps", &listing, "abc123", "New Name!"),
        Ok(("/d/Apps/old-name-abc123".to_string(), "/d/Apps/new-name-abc123".to_string()))
    );
}

#[test]
fn rename_starts_from_where_the_directory_is() {
    let listing = vec![Scanned::App { folder: "elsewhere".to_string(), config: app("1", "A") }];
    assert_eq!(
        rename_app_folder("/d", &listing, "1", "B"),
        Ok(("/d/elsewhere".to_string(), "/d/b-1".to_string()))
    );
}

#[test]
fn rename_of_an_unknown_id_fails() {
    assert_eq!(rename_app_folder("/d", &Vec::new(), "1", "B"), Err(Error::AppNotFound));
}

#[test]
fn registry_counts_its_apps() {
    let mut registry = AppRegistry::new();
    assert_eq!(registry.len(), 0);
    registry.insert(app("a", "One"));
    registry.insert(app("b", "Two"));
    registry.insert(app("a", "Again"));
    assert_eq!(registry.len(), 2);
}

#[test]
fn update_of_an_unknown_id_fails_and_decides_nothing() {
    let listing = vec![empty_dir("junk"), dir(app("a", "One"))];
    assert_eq!(
        plan_update("/d", &listing, "zzz", "N".to_string(), "u".to_string(), Engine::WebKit),
        Err(Error::AppNotFound)
    );
    assert_eq!(
        plan_update("/d", &Vec::new(), "a", "N".to_string(), "u".to_string(), Engine::WebKit),
        Err(Error::AppNotFound)
    );
    assert_eq!(Error::AppNotFound.message(), "App not found");
}

#[test]
fn update_fails_with_the_error_of_a_directory_that_cannot_be_read() {
    let listing = vec![broken("bad json"), dir(app("a", "One"))];
    assert_eq!(
        plan_update("/d", &listing, "a", "N".to_string(), "u".to_string(), Engine::WebKit),
        Err(Error::Json("bad json".to_string()))
    );
}

#[test]
fn update_is_planned_from_the_configuration_found() {
    let stored = app("abc123", "Old Name");
    let listing = vec![empty_dir("junk"), dir(stored.clone())];
    let planned = plan_update(
        "/d/Apps",
        &listing,
        "abc123",
        "New Name".to_string(),
        "https://new.test".to_string(),
        Engine::Chromium { browser: "opera".to_string() },
    );
    assert_eq!(
        planned,
        Ok((
            "/d/Apps/old-name-abc123".to_string(),
            Update {
                rename_to: Some("new-name-abc123".to_string()),
                config: AppConfig {
                    name: "New Name".to_string(),
                    url: "https://new.test".to_string(),
                    engine: Engine::Chromium { browser: "opera".to_string() },
                    folder: "new-name-abc123".to_string(),
                    ..stored
                },
            }
        ))
    );
}

#[test]
fn update_with_the_stored_name_plans_no_rename() {
    let stored = app("abc123", "Name");
    let planned = plan_update(
        "/d",
        &vec![dir(stored.clone())],
        "abc123",
        "Name".to_string(),
        "https://new.test".to_string(),
        Engine::WebKit,
    );
    assert_eq!(
        planned,
        Ok((
            "/d/name-abc123".to_string(),
            Update {
                rename_to: None,
                config: AppConfig { url: "https://new.test".to_string(), ..stored },
            }
        ))
    );
}
