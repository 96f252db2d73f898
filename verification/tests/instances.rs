use rmcl::instances::{spawn_modpack_update_checks, State};
use rmcl::keys::{KeyCode, KeyEvent};
use rmcl::model::{InstanceConfig, ModLoader, ProviderProject, VersionInfo};
use rmcl::time::{format_relative_time, relative_time_from};

fn instance(name: &str) -> InstanceConfig {
    InstanceConfig {
        name: name.to_string(),
        game_version: "1.20.1".to_string(),
        loader: ModLoader::Vanilla,
        loader_version: None,
        last_played: None,
        modpack_source: None,
    }
}

fn pack(version: &str) -> ProviderProject {
    ProviderProject { provider: "modrinth".to_owned(), project_id: "pack".to_owned(), version_id: version.to_owned() }
}

fn version(id: &str) -> VersionInfo {
    VersionInfo {
        id: id.to_owned(),
        project_id: "pack".to_owned(),
        name: id.to_owned(),
        version_number: id.to_owned(),
        game_versions: Vec::new(),
        loaders: Vec::new(),
        date_published: String::new(),
    }
}

fn key(code: KeyCode) -> KeyEvent {
    KeyEvent::plain(code)
}

#[test]
fn format_relative_time_none_returns_never_played() {
    assert_eq!(format_relative_time(None, chrono::Utc::now().timestamp()), "Never played");
}

#[test]
fn format_relative_time_buckets() {
    let cases: [(i64, &str); 11] = [
        (0, "Just now"),
        (59, "Just now"),
        (60, "1 minute ago"),
        (3599, "59 minutes ago"),
        (3600, "1 hour ago"),
        (86_399, "23 hours ago"),
        (86_400, "1 day ago"),
        (2_591_999, "29 days ago"),
        (2_592_000, "1 month ago"),
        (31_535_999, "12 months ago"),
        (31_536_000, "Over a year ago"),
    ];
    let now = chrono::Utc::now().timestamp();
    for (seconds_ago, expected) in cases {
        assert_eq!(format_relative_time(Some(now - seconds_ago), now), expected);
        assert_eq!(relative_time_from(Some(seconds_ago as i128)), expected);
    }
}

#[test]
fn format_relative_time_measures_against_the_clock() {
    assert_eq!(format_relative_time(Some(0), chrono::Utc::now().timestamp()), "Over a year ago");
    assert_eq!(format_relative_time(Some(1_000), 1_090), "1 minute ago");
    assert_eq!(format_relative_time(Some(1_000), 1_000 + 2 * 86_400), "2 days ago");
}

#[test]
fn with_instances_selects_the_first_instance() {
    let state = State::with_instances(vec![instance("Vanilla 1.20.1"), instance("Forge Pack"), instance("Fabric Test")]);
    assert_eq!(state.list_state.selected, Some(0));
    assert_eq!(state.scrollbar_state.content_length, 2);
    assert_eq!(state.selected_instance().unwrap().name, "Vanilla 1.20.1");

    let empty = State::with_instances(Vec::new());
    assert_eq!(empty.list_state.selected, None);
    assert!(empty.selected_instance().is_none());
}

#[test]
fn instance_selection_wraps_both_ways() {
    let mut state = State::with_instances(vec![instance("a"), instance("b"), instance("c")]);
    state.handle_key(&key(KeyCode::Char('k')));
    assert_eq!(state.list_state.selected, Some(2));
    state.handle_key(&key(KeyCode::Down));
    assert_eq!(state.list_state.selected, Some(0));
    state.handle_key(&key(KeyCode::Char('j')));
    assert_eq!(state.selected_instance().unwrap().name, "b");
}

#[test]
fn instance_search_filters_and_reselects_the_first_match() {
    let mut state = State::with_instances(vec![instance("Forge Pack"), instance("Fabric Test"), instance("Vanilla")]);
    state.handle_key(&key(KeyCode::Char('/')));
    assert!(state.search.active);
    for c in "fab".chars() {
        state.handle_key(&key(KeyCode::Char(c)));
    }
    assert_eq!(state.filtered_indices(), vec![1]);
    assert_eq!(state.selected_instance().unwrap().name, "Fabric Test");
    state.handle_key(&key(KeyCode::Esc));
    assert!(!state.search.active);
    assert_eq!(state.filtered_indices(), vec![0, 1, 2]);
}

#[test]
fn popups_are_requested_by_their_keys() {
    let mut state = State::with_instances(vec![instance("a")]);
    assert!(!state.wants_popup());
    state.handle_key(&key(KeyCode::Char('a')));
    assert!(state.wants_popup());
    state.handle_key(&key(KeyCode::Char('m')));
    assert!(state.wants_import_popup());
}

#[test]
fn adding_selects_and_removing_clamps() {
    let mut state = State::with_instances(vec![instance("a"), instance("b")]);
    state.add_instance(instance("c"));
    assert_eq!(state.list_state.selected, Some(2));
    state.remove_instance("c");
    assert_eq!(state.instances.len(), 2);
    assert_eq!(state.list_state.selected, Some(1));
    state.replace_instance("a", instance("renamed"));
    assert_eq!(state.instances[0].name, "renamed");
    state.replace_instance("missing", instance("new"));
    assert_eq!(state.instances.len(), 3);
}

#[test]
fn modpack_updates_only_count_for_the_checked_source() {
    let mut managed = instance("Pack");
    managed.modpack_source = Some(pack("v1"));
    let mut state = State::with_instances(vec![managed]);
    state.drain_modpack_updates(vec![("Pack".to_owned(), pack("v0"), Some(version("v2")))]);
    assert!(state.selected_modpack_update().is_none());

    state.drain_modpack_updates(vec![("Pack".to_owned(), pack("v1"), Some(version("v2")))]);
    assert_eq!(state.selected_modpack_update().unwrap().id, "v2");

    state.drain_modpack_updates(vec![("Pack".to_owned(), pack("v1"), None)]);
    assert!(state.selected_modpack_update().is_none());
}

#[test]
fn update_checks_start_only_for_modpack_instances_when_enabled() {
    let mut managed = instance("Pack");
    managed.modpack_source = Some(pack("v1"));
    let instances = vec![instance("Plain"), managed];
    let checks = spawn_modpack_update_checks(&instances, true);
    assert_eq!(checks.len(), 1);
    assert_eq!(checks[0].0, "Pack");
    assert_eq!(checks[0].1.version_id, "v1");
    assert!(spawn_modpack_update_checks(&instances, false).is_empty());
}

#[test]
fn renaming_edits_the_name_and_applies_it_trimmed() {
    let mut state = State::with_instances(vec![instance("Old"), instance("Other")]);
    state.renaming = Some("Ne".to_owned());
    assert!(state.rename_key(&key(KeyCode::Char('w'))).is_none());
    assert!(state.rename_key(&key(KeyCode::Char(' '))).is_none());
    let new_name = state.rename_key(&key(KeyCode::Enter)).unwrap();
    assert_eq!(new_name, "New ");
    assert!(state.renaming.is_none());
    state.apply_rename("Old", &new_name);
    assert_eq!(state.instances[0].name, "New");
    state.renaming = Some("x".to_owned());
    assert!(state.rename_key(&key(KeyCode::Esc)).is_none());
    assert!(state.renaming.is_none());
}
