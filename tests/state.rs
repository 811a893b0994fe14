use std::sync::atomic::{AtomicUsize, Ordering};
use std::sync::Arc;

use core_api::data::StateData;
use core_api::extensions::{
    Errors, ExtensionErrors, ExtensionInfo, ExtensionsManager, Manifest, ManifestInfo,
};
use core_api::registry::Registry;
use core_api::state::{LanguageServer, State, UpdateOutcome, LOCAL_FILESYSTEM};

fn get_sample_extension_info() -> ExtensionInfo {
    ExtensionInfo {
        id: "sample".to_string(),
        name: "sample".to_string(),
    }
}

fn manifest_info(id: &str, name: &str) -> ManifestInfo {
    ManifestInfo {
        extension: ExtensionInfo {
            id: id.to_string(),
            name: name.to_string(),
        },
    }
}

fn data(id: u8, views: &[&str]) -> StateData {
    StateData {
        id,
        views: views.iter().map(|v| v.to_string()).collect(),
    }
}

#[test]
fn get_info() {
    let mut manager = ExtensionsManager::default();
    manager.register("sample", 0, get_sample_extension_info());
    let test_state = State::new(0, manager, 0, StateData::empty());

    let ext_info = test_state.get_ext_run_info_by_id("sample");
    assert!(ext_info.is_ok());

    let ext_info = ext_info.unwrap();
    assert_eq!(get_sample_extension_info(), ext_info);
}

#[test]
fn runtime_lookup_missing_is_not_found() {
    let mut manager = ExtensionsManager::default();
    manager.register("sample", 0, get_sample_extension_info());
    let state = State::new(0, manager, 0, StateData::empty());
    assert_eq!(
        state.get_ext_run_info_by_id("other").unwrap_err(),
        Errors::Ext(ExtensionErrors::ExtensionNotFound)
    );
}

#[test]
fn durable_state_takes_the_given_id() {
    let loaded = data(9, &["main.rs", "lib.rs"]);
    let state = State::new(3, ExtensionsManager::default(), 7, loaded);
    assert_eq!(state.data.id, 3);
    assert_eq!(state.data.views, vec!["main.rs".to_string(), "lib.rs".to_string()]);
    assert_eq!(state.persistor, Some(7));
    assert_eq!(state.get_fs_by_name("local"), Some(LOCAL_FILESYSTEM));
}

#[test]
fn default_state_mounts_local_only() {
    let state = State::default();
    assert_eq!(state.get_fs_by_name("local"), Some(LOCAL_FILESYSTEM));
    assert_eq!(state.get_fs_by_name("remote"), None);
    assert_eq!(state.get_fs_by_name("Local"), None);
    assert!(state.persistor.is_none());
    assert_eq!(state.data.id, 0);
    assert!(state.data.views.is_empty());
}

#[test]
fn update_equal_payload_does_not_save() {
    let mut state = State::new(1, ExtensionsManager::default(), 0, data(1, &["a"]));
    assert_eq!(state.update_outcome(&data(1, &["a"])), UpdateOutcome::Unchanged);
    assert_eq!(state.update(data(1, &["a"])), UpdateOutcome::Unchanged);
    assert_eq!(state.data, data(1, &["a"]));
}

#[test]
fn update_changed_payload_saves_then_commits() {
    let mut state = State::new(1, ExtensionsManager::default(), 0, data(1, &["a"]));
    let mut saves = 0;
    let new_data = data(1, &["a", "b"]);
    if state.update_outcome(&new_data) == UpdateOutcome::Save {
        saves += 1;
    }
    assert_eq!(state.update(new_data.clone()), UpdateOutcome::Save);
    assert_eq!(saves, 1);
    assert_eq!(state.data, new_data);

    assert_eq!(state.update(data(2, &["a", "b"])), UpdateOutcome::Save);
    assert_eq!(state.data.id, 2);
}

#[test]
fn update_without_persistor_discards() {
    let mut state = State::default();
    assert_eq!(state.update(data(5, &["x"])), UpdateOutcome::NoPersistor);
    assert_eq!(state.data, StateData::empty());
    assert_eq!(state.update(data(0, &[])), UpdateOutcome::NoPersistor);
    assert_eq!(state.data, StateData::empty());
}

#[test]
fn token_membership_is_exact() {
    let mut state = State::default();
    state.tokens.push("x".to_string());
    state.tokens.push("Secret".to_string());
    assert!(state.has_token("x"));
    assert!(state.has_token("Secret"));
    assert!(!state.has_token("X"));
    assert!(!state.has_token(" x"));
    assert!(!state.has_token("secret"));
    assert!(!state.has_token(""));
    assert!(!State::default().has_token("x"));
}

#[test]
fn manifest_lookup_prefers_first_registered() {
    let mut manager = ExtensionsManager::default();
    manager.register_manifest_file(Manifest {
        info: manifest_info("git", "from file"),
    });
    manager.register_builtin(manifest_info("git", "builtin"), 4);
    let state = State::new(0, manager, 0, StateData::empty());
    assert_eq!(state.get_ext_info_by_id("git").unwrap(), manifest_info("git", "from file"));

    let mut manager = ExtensionsManager::default();
    manager.register_builtin(manifest_info("git", "builtin"), 4);
    manager.register_manifest_file(Manifest {
        info: manifest_info("git", "from file"),
    });
    let state = State::new(0, manager, 0, StateData::empty());
    assert_eq!(state.get_ext_info_by_id("git").unwrap(), manifest_info("git", "builtin"));
}

#[test]
fn manifest_lookup_ignores_running_instances() {
    let mut manager = ExtensionsManager::default();
    manager.register("sample", 0, get_sample_extension_info());
    let state = State::new(0, manager, 0, StateData::empty());
    assert_eq!(
        state.get_ext_info_by_id("sample"),
        Err(Errors::Ext(ExtensionErrors::ExtensionNotFound))
    );
}

#[test]
fn list_ids_keeps_manifest_entries_in_order() {
    let mut manager = ExtensionsManager::default();
    manager.register_builtin(manifest_info("b", "b"), 1);
    manager.register("b", 2, get_sample_extension_info());
    manager.register_manifest_file(Manifest {
        info: manifest_info("a", "a"),
    });
    let state = State::new(0, manager, 0, StateData::empty());
    assert_eq!(state.get_ext_list_by_id(), vec!["b".to_string(), "a".to_string()]);
    assert!(State::default().get_ext_list_by_id().is_empty());
}

#[test]
fn notify_targets_follow_parent_and_order() {
    let mut manager = ExtensionsManager::default();
    manager.register_builtin(manifest_info("a", "a"), 100);
    manager.register("a", 1, get_sample_extension_info());
    manager.register("b", 2, get_sample_extension_info());
    manager.register("a", 3, get_sample_extension_info());
    let state = State::new(0, manager, 0, StateData::empty());
    assert_eq!(state.notify_extension("a"), vec![1, 3]);
    assert_eq!(state.notify_extension("b"), vec![2]);
    assert!(state.notify_extension("c").is_empty());
    assert_eq!(state.notify_extensions(), vec![1, 2, 3]);
    assert_eq!(state.run_extensions(), vec![1, 2, 3]);
}

#[test]
fn broadcast_reaches_every_instance() {
    let mut manager = ExtensionsManager::default();
    for handle in 0..5u64 {
        manager.register("p", handle, get_sample_extension_info());
    }
    let state = State::new(0, manager, 0, StateData::empty());
    let targets = state.notify_extensions();
    assert_eq!(targets.len(), 5);
    for handle in 0..5u64 {
        assert!(targets.contains(&handle));
    }
}

#[test]
fn terminal_lifecycle() {
    let mut state = State::default();
    state.terminal_shell_builders.insert("b".to_string(), 10);

    assert_eq!(state.get_terminal_shell_builder("b"), Some(10));
    assert!(state.create_terminal_shell("b".to_string(), "t1".to_string(), 20));
    assert_eq!(state.write_to_terminal_shell("t1"), Some(20));
    assert_eq!(state.resize_terminal_shell("t1"), 20);

    state.close_terminal_shell("t1");
    assert_eq!(state.write_to_terminal_shell("t1"), None);
    state.close_terminal_shell("t1");

    assert!(!state.create_terminal_shell("missing".to_string(), "t2".to_string(), 30));
    assert_eq!(state.write_to_terminal_shell("t2"), None);
    assert_eq!(state.terminal_shells.len(), 0);
}

#[test]
fn creating_a_shell_twice_overwrites() {
    let mut state = State::default();
    state.terminal_shell_builders.insert("b".to_string(), 10);
    assert!(state.create_terminal_shell("b".to_string(), "t1".to_string(), 20));
    assert!(state.create_terminal_shell("b".to_string(), "t1".to_string(), 21));
    assert_eq!(state.terminal_shells.len(), 1);
    assert_eq!(state.write_to_terminal_shell("t1"), Some(21));
}

#[test]
fn builders_listed_in_registration_order() {
    let mut state = State::default();
    assert!(state.get_terminal_shell_builders().is_empty());
    state.terminal_shell_builders.insert("bash".to_string(), 3);
    state.terminal_shell_builders.insert("zsh".to_string(), 1);
    state.terminal_shell_builders.insert("bash".to_string(), 5);
    assert_eq!(state.get_terminal_shell_builders(), vec![5, 1]);
}

#[test]
fn language_servers_last_writer_wins() {
    let mut state = State::default();
    let mut first = Registry::new();
    first.insert(
        "rust".to_string(),
        LanguageServer { name: "rust-analyzer".to_string(), extension_id: "a".to_string() },
    );
    first.insert(
        "ts".to_string(),
        LanguageServer { name: "tsserver".to_string(), extension_id: "a".to_string() },
    );
    state.register_language_servers(first);

    let mut second = Registry::new();
    second.insert(
        "rust".to_string(),
        LanguageServer { name: "rls".to_string(), extension_id: "b".to_string() },
    );
    state.register_language_servers(second);

    let all = state.get_all_language_servers();
    assert_eq!(all.len(), 2);
    assert_eq!(all[0].name, "rls");
    assert_eq!(all[0].extension_id, "b");
    assert_eq!(all[1].name, "tsserver");
    assert!(State::default().get_all_language_servers().is_empty());
}

#[test]
fn state_data_equality() {
    assert_eq!(data(1, &["a", "b"]), data(1, &["a", "b"]));
    assert_ne!(data(1, &["a", "b"]), data(2, &["a", "b"]));
    assert_ne!(data(1, &["a", "b"]), data(1, &["b", "a"]));
    assert_ne!(data(1, &["a"]), data(1, &["a", "b"]));
    assert_eq!(StateData::empty(), data(0, &[]));
}

#[test]
fn registry_insert_get_remove() {
    let mut r: Registry<u64> = Registry::new();
    assert!(!r.contains_key("k"));
    r.insert("k".to_string(), 1);
    r.insert("j".to_string(), 2);
    assert_eq!(r.get("k"), Some(&1));
    assert_eq!(r.key_at(1), "j");
    assert_eq!(*r.value_at(1), 2);
    r.remove("k");
    assert_eq!(r.get("k"), None);
    assert_eq!(r.len(), 1);
    assert_eq!(r.key_at(0), "j");
}

#[test]
fn fan_out_survives_a_failing_extension() {
    let mut manager = ExtensionsManager::default();
    for handle in 0..4u64 {
        manager.register("p", handle, get_sample_extension_info());
    }
    let state = State::new(0, manager, 0, StateData::empty());
    let counters: Vec<Arc<AtomicUsize>> = (0..4).map(|_| Arc::new(AtomicUsize::new(0))).collect();

    let runtime = tokio::runtime::Builder::new_current_thread().build().unwrap();
    runtime.block_on(async {
        let mut tasks = Vec::new();
        for handle in state.notify_extensions() {
            let counter = counters[handle as usize].clone();
            tasks.push(tokio::spawn(async move {
                if handle == 2 {
                    panic!("extension hook failed");
                }
                counter.fetch_add(1, Ordering::SeqCst);
            }));
        }
        for task in tasks {
            let _ = task.await;
        }
    });

    let delivered: Vec<usize> = counters.iter().map(|c| c.load(Ordering::SeqCst)).collect();
    assert_eq!(delivered, vec![1, 1, 0, 1]);
}
