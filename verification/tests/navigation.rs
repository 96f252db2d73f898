use rmcl::discovery::ContentMode;
use rmcl::keys::{KeyCode, KeyEvent};
use rmcl::model::{ContentKind, ProviderProject};
use rmcl::navigation::{
    conflict_key, discovery_key_action, focus_after_instance_keys, global_key, installed_key_action, overlay_key, overlay_scroll, ConflictAction,
    DiscoveryKeyAction, FocusedArea, InstalledKeyAction, NavAction, NavState, ProviderConflictState, first_key_handler, KeyContext, KeyHandler,
};
use rmcl::tabs::ContentTab;

fn key(code: KeyCode) -> KeyEvent {
    KeyEvent::plain(code)
}

fn project(provider: &str, id: &str, version: &str) -> ProviderProject {
    ProviderProject { provider: provider.to_owned(), project_id: id.to_owned(), version_id: version.to_owned() }
}

#[test]
fn global_navigation_returns_from_log_overlay() {
    let mut nav = NavState::new();

    global_key(&mut nav, &key(KeyCode::Char('C')), false);
    assert_eq!(nav.focused, FocusedArea::Content);

    global_key(&mut nav, &key(KeyCode::Char('O')), false);
    assert_eq!(nav.focused, FocusedArea::OverviewExpanded);

    overlay_key(&mut nav, &key(KeyCode::Esc));
    assert_eq!(nav.focused, FocusedArea::Content);

    global_key(&mut nav, &key(KeyCode::Char('q')), false);
    assert!(nav.exit);
}

#[test]
fn escape_returns_through_nested_sections() {
    let mut nav = NavState::new();
    for area in [FocusedArea::Content, FocusedArea::Account, FocusedArea::Settings] {
        nav.focused = area;
        assert_eq!(global_key(&mut nav, &key(KeyCode::Esc), false), NavAction::Nothing);
        assert_eq!(nav.focused, FocusedArea::Instances);
    }

    let esc = key(KeyCode::Esc);
    assert_eq!(
        installed_key_action(ContentTab::Worlds, true, false, false, false, &esc),
        InstalledKeyAction::CloseWorldDatapacks
    );
}

#[test]
fn installed_version_action_requires_selected_provider_match() {
    let v = key(KeyCode::Char('v'));
    assert_eq!(
        installed_key_action(ContentTab::Mods, false, false, false, false, &v),
        InstalledKeyAction::List { toggle: true }
    );
    assert_eq!(
        installed_key_action(ContentTab::Mods, false, false, false, true, &v),
        InstalledKeyAction::InstalledVersions
    );
}

#[test]
fn mouse_wheel_uses_the_focused_views_scroll_navigation() {
    let mut nav = NavState::new();
    nav.focused = FocusedArea::OverviewExpanded;
    nav.log_overlay_max_scroll = 1;

    overlay_scroll(&mut nav, true);
    overlay_scroll(&mut nav, true);
    assert_eq!(nav.log_overlay_scroll, 1);

    overlay_scroll(&mut nav, false);
    assert_eq!(nav.log_overlay_scroll, 0);
}

#[test]
fn discovery_mode_recovers_from_a_hidden_tab_and_cycles_visible_tabs() {
    let mut nav = NavState::new();
    nav.focused = FocusedArea::Content;
    nav.content_tab = ContentTab::Logs;

    global_key(&mut nav, &key(KeyCode::Tab), false);
    assert_eq!(nav.content_mode, ContentMode::Discover);
    assert_eq!(nav.content_tab, ContentTab::Mods);

    global_key(&mut nav, &key(KeyCode::Right), false);
    assert_eq!(nav.content_tab, ContentTab::ResourcePacks);

    global_key(&mut nav, &key(KeyCode::Left), false);
    assert_eq!(nav.content_tab, ContentTab::Mods);
}

#[test]
fn versions_open_from_a_discovery_project_page() {
    assert_eq!(
        discovery_key_action(false, None, true, ContentKind::Mod, &key(KeyCode::Char('v'))),
        DiscoveryKeyAction::OpenVersions
    );
    assert_eq!(
        discovery_key_action(false, None, true, ContentKind::Mod, &key(KeyCode::Enter)),
        DiscoveryKeyAction::Delegate
    );
}

#[test]
fn provider_conflict_renders_and_can_be_deferred() {
    let mut conflict = ProviderConflictState {
        relative_path: "mods/example.jar".to_owned(),
        candidates: vec![project("modrinth", "first", "1"), project("curseforge", "second", "2")],
        selected: 0,
    };

    assert!(matches!(conflict_key(&mut conflict, &key(KeyCode::Down)), ConflictAction::Nothing));
    assert_eq!(conflict.selected, 1);
    assert!(matches!(conflict_key(&mut conflict, &key(KeyCode::Esc)), ConflictAction::Dismiss));
}

#[test]
fn provider_conflict_selection_is_persisted() {
    let mut conflict = ProviderConflictState {
        relative_path: "mods/example.jar".to_owned(),
        candidates: vec![project("modrinth", "first", "1"), project("curseforge", "second", "2")],
        selected: 1,
    };

    match conflict_key(&mut conflict, &key(KeyCode::Enter)) {
        ConflictAction::Resolve { project, aliases } => {
            assert_eq!(project.provider, "curseforge");
            assert_eq!(aliases.len(), 1);
            assert_eq!(aliases[0].project_id, "first");
        }
        _ => panic!("the selected candidate resolves the conflict"),
    }
}

#[test]
fn tab_switches_mode_back_and_forth() {
    let mut nav = NavState::new();
    nav.focused = FocusedArea::Content;
    nav.content_tab = ContentTab::Worlds;
    global_key(&mut nav, &key(KeyCode::Tab), false);
    assert_eq!(nav.content_tab, ContentTab::DataPacks);
    global_key(&mut nav, &key(KeyCode::Tab), false);
    assert_eq!(nav.content_mode, ContentMode::Installed);
    assert_eq!(nav.content_tab, ContentTab::Worlds);
}

#[test]
fn focus_follows_the_popups_the_instance_list_asks_for() {
    assert_eq!(focus_after_instance_keys(FocusedArea::Instances, true, false), (FocusedArea::Popup, false));
    assert_eq!(focus_after_instance_keys(FocusedArea::Popup, false, false), (FocusedArea::Instances, false));
    assert_eq!(focus_after_instance_keys(FocusedArea::Instances, false, true), (FocusedArea::ImportPopup, true));
    assert_eq!(focus_after_instance_keys(FocusedArea::ImportPopup, false, true), (FocusedArea::ImportPopup, false));
    assert_eq!(focus_after_instance_keys(FocusedArea::ImportPopup, false, false), (FocusedArea::Instances, false));
}

fn quiet() -> KeyContext {
    KeyContext {
        content_update_visible: false,
        modpack_versions_open: false,
        modpack_update_open: false,
        provider_conflict_open: false,
        discovery_view_open: false,
        renaming: false,
        instances_search_active: false,
    }
}

#[test]
fn open_popups_see_keys_before_the_focused_area() {
    let mut c = quiet();
    assert_eq!(first_key_handler(FocusedArea::Instances, ContentMode::Installed, c), KeyHandler::GlobalKeys);
    assert_eq!(first_key_handler(FocusedArea::Content, ContentMode::Installed, c), KeyHandler::InstalledContent);
    assert_eq!(first_key_handler(FocusedArea::Content, ContentMode::Discover, c), KeyHandler::DiscoveryContent);
    c.discovery_view_open = true;
    assert_eq!(first_key_handler(FocusedArea::Content, ContentMode::Installed, c), KeyHandler::DiscoveryContent);
    c.renaming = true;
    assert_eq!(first_key_handler(FocusedArea::Instances, ContentMode::Installed, c), KeyHandler::InstanceRename);
    c.provider_conflict_open = true;
    assert_eq!(first_key_handler(FocusedArea::ConfirmDelete, ContentMode::Installed, c), KeyHandler::ProviderConflict);
    c.content_update_visible = true;
    c.modpack_versions_open = true;
    assert_eq!(first_key_handler(FocusedArea::OverviewExpanded, ContentMode::Installed, c), KeyHandler::ContentUpdatePopup);
    let mut c = quiet();
    assert_eq!(first_key_handler(FocusedArea::OverviewExpanded, ContentMode::Installed, c), KeyHandler::LogOverlay);
    c.instances_search_active = true;
    assert_eq!(first_key_handler(FocusedArea::Instances, ContentMode::Installed, c), KeyHandler::InstanceSearch);
    assert_eq!(first_key_handler(FocusedArea::ImportPopup, ContentMode::Installed, c), KeyHandler::ImportPopup);
}
