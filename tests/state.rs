use core_api::extensions::{
    ExtensionInfo, ExtensionsManager, LoadedExtension, Manifest, ManifestInfo,
};
use core_api::registry::{LanguageServer, LOCAL_FS};
use core_api::state::{Errors, ExtensionErrors, Persist, State};
use core_api::state_data::{same_strings, StateData};

fn get_sample_extension_info() -> ExtensionInfo {
    ExtensionInfo {
        id: "sample".to_string(),
        name: "sample".to_string(),
    }
}

fn info(id: &str) -> ExtensionInfo {
    ExtensionInfo {
        id: id.to_string(),
        name: format!("{} extension", id),
    }
}

fn builtin(id: &str) -> LoadedExtension {
    LoadedExtension::ManifestBuiltin {
        info: ManifestInfo { extension: info(id) },
    }
}

fn from_file(id: &str) -> LoadedExtension {
    LoadedExtension::ManifestFile {
        manifest: Manifest {
            info: ManifestInfo { extension: info(id) },
        },
    }
}

fn strings(items: &[&str]) -> Vec<String> {
    items.iter().map(|s| s.to_string()).collect()
}

fn data(id: u8, views: &[&str], commands: &[&str]) -> StateData {
    StateData {
        id,
        views: strings(views),
        commands: strings(commands),
    }
}

fn not_found<T>() -> Result<T, Errors> {
    Err(Errors::Ext(ExtensionErrors::ExtensionNotFound))
}

/// A catalog with two manifests and three running instances.
fn sample_catalog() -> ExtensionsManager {
    let mut manager = ExtensionsManager::new();
    manager.extensions.push(builtin("git"));
    manager.register("group-1", info("git-view-1"), 11);
    manager.extensions.push(from_file("lint"));
    manager.register("group-2", info("lint-view-1"), 22);
    manager.register("group-1", info("git-view-2"), 12);
    manager
}

#[test]
fn get_info() {
    let mut manager = ExtensionsManager::new();
    manager.register("sample", get_sample_extension_info(), 0);
    let test_state = State::new(0, manager, StateData::default());

    let ext_info = test_state.get_ext_run_info_by_id("sample");
    assert!(ext_info.is_ok());

    let ext_info = ext_info.unwrap();
    assert_eq!(get_sample_extension_info(), ext_info);
}

#[test]
fn runtime_lookup_finds_each_instance() {
    let state = State::new(1, sample_catalog(), StateData::default());
    assert_eq!(state.get_ext_run_info_by_id("git-view-1"), Ok(info("git-view-1")));
    assert_eq!(state.get_ext_run_info_by_id("git-view-2"), Ok(info("git-view-2")));
    assert_eq!(state.get_ext_run_info_by_id("lint-view-1"), Ok(info("lint-view-1")));
}

#[test]
fn runtime_lookup_ignores_manifests_and_parents() {
    let state = State::new(1, sample_catalog(), StateData::default());
    assert_eq!(state.get_ext_run_info_by_id("git"), not_found());
    assert_eq!(state.get_ext_run_info_by_id("group-1"), not_found());
    assert_eq!(state.get_ext_run_info_by_id(""), not_found());
}

#[test]
fn manifest_lookup_finds_builtin_and_file() {
    let state = State::new(1, sample_catalog(), StateData::default());
    assert_eq!(
        state.get_ext_info_by_id("git"),
        Ok(ManifestInfo { extension: info("git") })
    );
    assert_eq!(
        state.get_ext_info_by_id("lint"),
        Ok(ManifestInfo { extension: info("lint") })
    );
}

#[test]
fn manifest_lookup_ignores_instances() {
    let state = State::new(1, sample_catalog(), StateData::default());
    assert_eq!(state.get_ext_info_by_id("git-view-1"), not_found());
    assert_eq!(state.get_ext_info_by_id("missing"), not_found());
}

#[test]
fn manifest_lookup_first_match_wins() {
    let mut manager = ExtensionsManager::new();
    manager.extensions.push(LoadedExtension::ManifestBuiltin {
        info: ManifestInfo {
            extension: ExtensionInfo {
                id: "dup".to_string(),
                name: "first".to_string(),
            },
        },
    });
    manager.extensions.push(from_file("dup"));
    let state = State::new(0, manager, StateData::default());
    let found = state.get_ext_info_by_id("dup").unwrap();
    assert_eq!(found.extension.name, "first");
}

#[test]
fn list_ids_has_only_manifest_ids() {
    let state = State::new(1, sample_catalog(), StateData::default());
    assert_eq!(state.get_ext_list_by_id(), strings(&["git", "lint"]));
}

#[test]
fn list_ids_empty_catalog() {
    let state = State::default();
    assert!(state.get_ext_list_by_id().is_empty());
    assert_eq!(state.get_ext_info_by_id("git"), not_found());
}

#[test]
fn notify_reaches_only_the_targeted_group() {
    let mut manager = ExtensionsManager::new();
    manager.register("group-1", info("one"), 1);
    manager.register("group-2", info("two"), 2);
    let state = State::new(0, manager, StateData::default());
    assert_eq!(state.notify_extension("group-1"), vec![1]);
    assert_eq!(state.notify_extension("group-2"), vec![2]);
    assert!(state.notify_extension("group-3").is_empty());
}

#[test]
fn notify_targeted_keeps_catalog_order() {
    let state = State::new(1, sample_catalog(), StateData::default());
    assert_eq!(state.notify_extension("group-1"), vec![11, 12]);
    assert!(state.notify_extension("git").is_empty());
}

#[test]
fn notify_all_and_reload_reach_every_instance() {
    let state = State::new(1, sample_catalog(), StateData::default());
    assert_eq!(state.notify_extensions(), vec![11, 22, 12]);
    assert_eq!(state.run_extensions(), vec![11, 22, 12]);
    assert!(State::default().notify_extensions().is_empty());
}

#[test]
fn update_without_persistor_warns_and_merges() {
    let mut state = State::default();
    let action = state.update(data(9, &["main.rs"], &["build"]));
    assert_eq!(action, Persist::NoPersistor);
    assert_eq!(state.data.id, 0);
    assert_eq!(state.data.views, strings(&["main.rs"]));
    assert_eq!(state.data.commands, strings(&["build"]));
}

#[test]
fn update_identical_data_does_not_save() {
    let mut state = State::new(3, ExtensionsManager::new(), data(0, &["a.rs"], &["run"]));
    let action = state.update(data(7, &["a.rs"], &["run"]));
    assert_eq!(action, Persist::Unchanged);
    assert_eq!(state.data.id, 3);
    assert_eq!(state.data.views, strings(&["a.rs"]));
}

#[test]
fn update_changed_views_saves_merged_data() {
    let mut state = State::new(3, ExtensionsManager::new(), data(0, &["a.rs"], &["run"]));
    let action = state.update(data(7, &["a.rs", "b.rs"], &["run"]));
    assert_eq!(action, Persist::Save);
    assert_eq!(state.data.id, 3);
    assert_eq!(state.data.views, strings(&["a.rs", "b.rs"]));
    assert_eq!(state.data.commands, strings(&["run"]));
}

#[test]
fn update_changed_commands_saves() {
    let mut state = State::new(3, ExtensionsManager::new(), data(0, &[], &[]));
    assert_eq!(state.update(data(3, &[], &["test"])), Persist::Save);
    assert_eq!(state.update(data(3, &[], &["test"])), Persist::Unchanged);
}

#[test]
fn new_overlays_session_id() {
    let state = State::new(5, ExtensionsManager::new(), data(200, &["x"], &["y"]));
    assert_eq!(state.data.id, 5);
    assert_eq!(state.data.views, strings(&["x"]));
    assert!(state.has_persistor);
    assert!(state.tokens.is_empty());
}

#[test]
fn tokens_membership() {
    let mut state = State::default();
    assert!(!state.has_token(""));
    assert!(!state.has_token("secret"));
    state.add_token("secret".to_string());
    assert!(state.has_token("secret"));
    assert!(!state.has_token("Secret"));
    assert!(!state.has_token(""));
    state.add_token("".to_string());
    assert!(state.has_token(""));
}

#[test]
fn default_registers_local_filesystem() {
    let state = State::default();
    assert_eq!(state.get_fs_by_name("local"), Some(LOCAL_FS));
    assert_eq!(state.get_fs_by_name("remote"), None);
    assert!(!state.has_persistor);
}

#[test]
fn register_fs_last_write_wins() {
    let mut state = State::default();
    state.register_fs("remote".to_string(), 4);
    state.register_fs("local".to_string(), 7);
    assert_eq!(state.get_fs_by_name("remote"), Some(4));
    assert_eq!(state.get_fs_by_name("local"), Some(7));
}

fn server(name: &str, ext: &str) -> LanguageServer {
    LanguageServer {
        name: name.to_string(),
        extension_id: ext.to_string(),
    }
}

#[test]
fn language_servers_register_and_overwrite() {
    let mut state = State::default();
    assert!(state.get_all_language_servers().is_empty());
    state.register_language_servers(vec![
        ("rust".to_string(), server("rust", "a")),
        ("go".to_string(), server("go", "b")),
    ]);
    state.register_language_servers(vec![("rust".to_string(), server("rust", "c"))]);
    assert_eq!(
        state.get_all_language_servers(),
        vec![server("rust", "c"), server("go", "b")]
    );
}

#[test]
fn compare_string_lists() {
    assert!(same_strings(&strings(&["a", "b"]), &strings(&["a", "b"])));
    assert!(!same_strings(&strings(&["a", "b"]), &strings(&["b", "a"])));
    assert!(!same_strings(&strings(&["a"]), &strings(&["a", "b"])));
    assert!(same_strings(&Vec::new(), &Vec::new()));
}
