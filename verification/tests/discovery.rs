use rmcl::discovery::{
    handle_key, minecraft_versions, page_key_direction, project_entry, refresh_source_installed_versions,
    ContentMode, DiscoveryActionResult, DiscoveryPageError, DiscoveryPageResult, DiscoveryState,
    InstallCompletion, PendingDiscoveryResult, ProjectPageState, MIN_PREFETCH_ITEMS, PAGE_RETRY_BASE_DELAY_MS,
    PAGE_SIZE, SEARCH_DEBOUNCE_MS,
};
use rmcl::keys::{KeyCode, KeyEvent};
use rmcl::merge::{merge_provider_results, project_identity, MergedDiscoveryProject};
use rmcl::panel::{version_popup_body, version_popup_keybinds, PopupBody};
use rmcl::provider_search::{search_failure, search_page, search_pages, search_row};
use rmcl::model::{
    ContentEntry, ContentFileRecord, ContentKind, ContentManifest, DependencyPlan, DiscoveryProject, DiscoveryResults,
    InstanceConfig, ModLoader, ProjectInfo, ProviderProject, VersionInfo,
};

fn instance(name: &str, version: &str) -> InstanceConfig {
    InstanceConfig {
        name: name.to_string(),
        game_version: version.to_string(),
        loader: ModLoader::Fabric,
        loader_version: None,
        last_played: None,
        modpack_source: None,
    }
}

fn version(id: &str) -> VersionInfo {
    VersionInfo {
        id: id.to_owned(),
        project_id: "project".to_owned(),
        name: format!("Version {id}"),
        version_number: id.to_owned(),
        game_versions: vec!["1.21.1".to_owned()],
        loaders: vec!["fabric".to_owned()],
        date_published: "2026-01-02T12:00:00Z".to_owned(),
    }
}

fn project(id: &str) -> DiscoveryProject {
    DiscoveryProject {
        id: id.to_owned(),
        slug: id.to_owned(),
        title: id.to_owned(),
        description: String::new(),
        downloads: 0,
        icon_url: None,
        icon_bytes: None,
    }
}

fn titled(id: &str, title: &str) -> DiscoveryProject {
    DiscoveryProject {
        id: id.to_owned(),
        slug: id.to_owned(),
        title: title.to_owned(),
        description: String::new(),
        downloads: 0,
        icon_url: None,
        icon_bytes: None,
    }
}

fn entry(project: DiscoveryProject, installed: Option<&str>) -> ContentEntry {
    project_entry(project, installed.map(str::to_owned), "0")
}

fn source(provider: &str, project_id: &str, version_id: &str) -> ProviderProject {
    ProviderProject {
        provider: provider.to_owned(),
        project_id: project_id.to_owned(),
        version_id: version_id.to_owned(),
    }
}

fn page_done(generation: u64, offset: usize, received: usize, total_hits: usize) -> PendingDiscoveryResult {
    PendingDiscoveryResult {
        generation,
        offset,
        result: Ok(DiscoveryPageResult { received, total_hits }),
        sources: Vec::new(),
    }
}

fn versions_answer(state: &DiscoveryState, request_id: u64, project_id: String, versions: Vec<VersionInfo>) -> DiscoveryActionResult {
    let _ = state;
    DiscoveryActionResult::Versions { request_id, project_id, result: Ok(versions) }
}

fn key(code: KeyCode) -> KeyEvent {
    KeyEvent::plain(code)
}

#[test]
fn bracket_keys_change_pages() {
    assert_eq!(page_key_direction(&key(KeyCode::Char('['))), Some(false));
    assert_eq!(page_key_direction(&key(KeyCode::Char(']'))), Some(true));
}

#[test]
fn discovery_requests_four_viewport_pages() {
    let mut state = DiscoveryState::new_modpacks();
    assert_eq!(state.begin_modpack_search().limit, PAGE_SIZE);

    state.set_viewport_rows(30);
    assert_eq!(state.begin_modpack_search().limit, 40);

    state.set_viewport_rows(300);
    assert_eq!(state.begin_modpack_search().limit, PAGE_SIZE);
}

#[test]
fn content_mode_toggles_both_ways() {
    assert_eq!(ContentMode::Installed.toggle(), ContentMode::Discover);
    assert_eq!(ContentMode::Discover.toggle(), ContentMode::Installed);
}

#[test]
fn duplicate_provider_titles_share_one_identity() {
    let mut modrinth = project("sodium");
    modrinth.title = "Sodium".to_owned();
    let mut curseforge = project("sodium-reforged");
    curseforge.title = "SODIUM!".to_owned();
    curseforge.slug = "sodium".to_owned();
    assert_eq!(project_identity(&modrinth), project_identity(&curseforge));
}

#[test]
fn matching_titles_with_different_slugs_remain_distinct() {
    let mut original = project("sodium");
    original.title = "Sodium".to_owned();
    let mut fork = project("sodium-reforged");
    fork.title = "Sodium".to_owned();
    assert_ne!(project_identity(&original), project_identity(&fork));
}

#[test]
fn provider_merge_preserves_ranking_and_appends_fallbacks() {
    let mut modrinth_first = project("mr-first");
    modrinth_first.title = "Shared".to_owned();
    modrinth_first.slug = "shared".to_owned();
    let modrinth_second = project("mr-second");
    let mut curseforge_duplicate = project("cf-duplicate");
    curseforge_duplicate.title = "Shared".to_owned();
    curseforge_duplicate.slug = "shared".to_owned();
    let curseforge_fallback = project("cf-fallback");

    let merged = merge_provider_results(
        vec![
            (
                "modrinth".to_owned(),
                DiscoveryResults { projects: vec![modrinth_first, modrinth_second], total_hits: 2 },
            ),
            (
                "curseforge".to_owned(),
                DiscoveryResults { projects: vec![curseforge_duplicate, curseforge_fallback], total_hits: 2 },
            ),
        ],
        "modrinth",
        Vec::new(),
    );

    assert_eq!(
        merged.projects.iter().map(|project| project.project.id.as_str()).collect::<Vec<_>>(),
        ["mr-first", "mr-second", "cf-fallback"]
    );
    assert_eq!(merged.sources.len(), 4);
    assert_eq!(merged.sources[0].0, merged.sources[2].0);
}

#[test]
fn provider_merge_keeps_same_provider_title_collisions() {
    let mut first = project("first");
    first.title = "Same".to_owned();
    let mut second = project("second");
    second.title = "Same".to_owned();

    let merged = merge_provider_results(
        vec![("modrinth".to_owned(), DiscoveryResults { projects: vec![first, second], total_hits: 2 })],
        "modrinth",
        Vec::new(),
    );

    assert_eq!(merged.projects.len(), 2);
    assert_ne!(merged.projects[0].stem, merged.projects[1].stem);
}

#[test]
fn provider_merge_keeps_the_preferred_project_across_pages() {
    let mut fallback = project("shared");
    fallback.title = "Shared".to_owned();
    let identity = project_identity(&fallback);
    let known = vec![(identity, ("shared".to_owned(), "modrinth".to_owned()))];

    let merged = merge_provider_results(
        vec![("curseforge".to_owned(), DiscoveryResults { projects: vec![fallback], total_hits: 200 })],
        "modrinth",
        known,
    );

    assert!(merged.projects.is_empty());
    assert_eq!(merged.sources[0].0, "shared");
    assert_eq!(merged.total_hits, 200);
}

#[test]
fn provider_merge_uses_the_longest_provider_result_range() {
    let merged = merge_provider_results(
        vec![
            ("modrinth".to_owned(), DiscoveryResults { projects: vec![], total_hits: 20 }),
            ("curseforge".to_owned(), DiscoveryResults { projects: vec![], total_hits: 200 }),
        ],
        "modrinth",
        Vec::new(),
    );

    assert_eq!(merged.total_hits, 200);
}

#[test]
fn version_popup_switches_to_the_other_provider() {
    let mut state = DiscoveryState::new(ContentKind::Mod);
    state.list.entries.push(entry(project("sodium"), None));
    state.list.list_state.selected = Some(0);
    let request = state.begin_search(&instance("test", "1.21.1"));
    state.drain_pending(
        vec![PendingDiscoveryResult {
            generation: request.generation,
            offset: request.offset,
            result: Ok(DiscoveryPageResult { received: 1, total_hits: 1 }),
            sources: vec![
                ("sodium".to_owned(), source("modrinth", "mr", "")),
                ("sodium".to_owned(), source("curseforge", "cf", "")),
            ],
        }],
        Vec::new(),
        0,
    );
    state.list.entries.push(entry(project("sodium"), None));
    state.list.list_state.selected = Some(0);
    let first = state.begin_versions("modrinth").unwrap();
    state.version_popup.as_mut().unwrap().loading = false;
    let second = state.switch_version_source().unwrap();
    assert_ne!(second.provider, first.provider);
    assert_eq!(state.version_popup.as_ref().unwrap().provider, second.provider);
}

#[test]
fn datapack_versions_select_a_world_before_dependency_resolution() {
    let mut state = DiscoveryState::new(ContentKind::DataPack);
    let installed = "minecraft/saves/world-folder/datapacks/project.zip";
    state.list.entries.push(entry(project("project"), Some(installed)));
    state.list.list_state.selected = Some(0);
    let request = state.begin_versions("modrinth").unwrap();
    let mut datapack_version = version("1.0.0");
    datapack_version.loaders = vec!["datapack".to_owned()];
    let answer = versions_answer(&state, request.request_id, request.project_id, vec![datapack_version]);
    state.drain_pending(Vec::new(), vec![answer], 0);

    let mut world = entry(project("world-folder"), None);
    world.path = "minecraft/saves/world-folder".to_owned();
    world.icon_lines = None;
    assert!(state.begin_world_selection(vec![world]));
    assert_eq!(
        state.version_popup.as_ref().unwrap().worlds.entries[0].icon_lines.as_ref().unwrap().len(),
        3
    );
    let manifest = ContentManifest {
        files: vec![ContentFileRecord {
            relative_path: "saves/world-folder/datapacks/project.zip".to_owned(),
            kind: ContentKind::DataPack,
            project: Some(source("modrinth", "project", "old")),
            provider_aliases: Vec::new(),
        }],
    };

    assert!(state.select_world(Some(&manifest), "minecraft"));
    let dependency = state.begin_dependency_resolution().unwrap();
    assert_eq!(dependency.root.kind, ContentKind::DataPack);
    assert_eq!(dependency.root.target_world.as_deref(), Some("minecraft/saves/world-folder"));
    assert_eq!(dependency.root.installed_path.as_deref(), Some(installed));
}

#[test]
fn project_metadata_is_split_between_title_and_footer_badges() {
    let downloads: u64 = 1_234;
    let label = format!("{:.1}K", downloads as f64 / 1_000.0);
    let entry = project_entry(
        DiscoveryProject {
            id: "example".to_owned(),
            slug: "example".to_owned(),
            title: "Example".to_owned(),
            description: "Project description".to_owned(),
            downloads,
            icon_url: None,
            icon_bytes: None,
        },
        Some("example.jar".to_owned()),
        &label,
    );

    assert_eq!(entry.title_suffix.as_deref(), Some("Installed"));
    assert_eq!(entry.footer_label.as_deref(), Some("1.2K downloads"));
    assert_eq!(entry.description, "Project description");
    assert_eq!(entry.path, "example");
    assert_eq!(entry.installed_path, Some("example.jar".to_owned()));
}

#[test]
fn install_and_change_version_popups_only_differ_in_title() {
    let mut state = DiscoveryState::new(ContentKind::Mod);
    state.list.entries.push(entry(titled("project", "Project"), None));
    state.list.list_state.selected = Some(0);
    state.begin_versions("modrinth").unwrap();
    assert_eq!(state.version_popup.as_ref().unwrap().title(), "Install Project");

    state.version_popup = None;
    state.list.entries[0] = entry(titled("project", "Project"), Some("mods/project.jar"));
    state.begin_versions("modrinth").unwrap();
    assert_eq!(state.version_popup.as_ref().unwrap().title(), "Change Project version");
}

#[test]
fn installed_version_popup_tracks_current_version_and_reinstalls_it() {
    let mut state = DiscoveryState::new(ContentKind::Mod);
    let mut installed = entry(titled("project", "Project"), None);
    installed.source_slug = None;
    installed.provider_project = None;
    installed.path = "mods/project.jar".to_owned();
    let record = ContentFileRecord {
        relative_path: "mods/project.jar".to_owned(),
        kind: ContentKind::Mod,
        project: Some(source("modrinth", "project", "current")),
        provider_aliases: vec![source("curseforge", "42", "84")],
    };

    let request = state.begin_installed_versions(&installed, &record, None, "modrinth").unwrap();
    let first_provider = request.provider.clone();
    let first_version = request.current_version_id.clone().unwrap();
    assert_eq!(state.version_popup.as_ref().unwrap().sources.len(), 2);
    state.version_popup.as_mut().unwrap().loading = false;
    state.version_popup.as_mut().unwrap().versions = vec![version(&first_version)];
    assert_eq!(state.version_popup.as_ref().unwrap().title(), "Reinstall Project");

    let switched = state.switch_version_source().unwrap();
    assert_ne!(switched.provider, first_provider);
    let switched_version = switched.current_version_id.clone().unwrap();

    state.version_popup.as_mut().unwrap().loading = false;
    state.version_popup.as_mut().unwrap().versions = vec![version(&switched_version)];
    let request = state.begin_dependency_resolution().unwrap();
    assert!(request.root.force_reinstall);
}

#[test]
fn compatible_versions_populate_the_open_popup() {
    let mut state = DiscoveryState::new(ContentKind::Mod);
    state.list.entries.push(entry(titled("project", "Project"), None));
    state.list.list_state.selected = Some(0);
    let request = state.begin_versions("modrinth").unwrap();
    let answer = versions_answer(&state, request.request_id, request.project_id, vec![version("1.0.0"), version("1.1.0")]);
    state.drain_pending(Vec::new(), vec![answer], 0);

    let popup = state.version_popup.as_ref().unwrap();
    assert!(!popup.loading);
    assert_eq!(popup.versions.len(), 2);
    assert_eq!(popup.selected, 0);
}

#[test]
fn modpacks_choose_minecraft_before_filtering_pack_versions() {
    let mut state = DiscoveryState::new_modpacks();
    state.list.entries.push(entry(project("pack"), None));
    state.list.list_state.selected = Some(0);
    let request = state.begin_versions("modrinth").unwrap();
    let mut older = version("1.0.0");
    older.game_versions = vec!["1.20.1".to_owned(), "fabric".to_owned()];
    let answer = versions_answer(&state, request.request_id, request.project_id, vec![older, version("2.0.0")]);
    state.drain_pending(Vec::new(), vec![answer], 0);

    let popup = state.version_popup.as_mut().unwrap();
    assert!(popup.selecting_minecraft_version);
    assert_eq!(popup.minecraft_versions, ["1.21.1", "1.20.1"]);
    popup.selected = 1;

    assert!(state.select_minecraft_version());
    let popup = state.version_popup.as_ref().unwrap();
    assert_eq!(popup.selected_minecraft_version.as_deref(), Some("1.20.1"));
    assert_eq!(
        popup
            .visible_versions()
            .into_iter()
            .map(|index| popup.versions[index].version_number.as_str())
            .collect::<Vec<_>>(),
        ["1.0.0"]
    );
}

#[test]
fn managed_modpack_versions_open_directly_and_mark_reinstall() {
    let mut state = DiscoveryState::new_modpacks();
    let request = state
        .begin_managed_modpack_versions("Managed Pack", source("modrinth", "pack", "current"), "modrinth")
        .unwrap();
    assert_eq!(request.current_version_id.as_deref(), Some("current"));
    let popup = state.version_popup.as_mut().unwrap();
    assert!(!popup.selecting_minecraft_version);
    popup.loading = false;
    popup.versions = vec![version("current"), version("older")];

    assert_eq!(popup.title(), "Reinstall Managed Pack");
    popup.selected = 1;
    assert_eq!(popup.title(), "Change Managed Pack version");
}

#[test]
fn project_page_loads_for_the_selected_discovery_entry() {
    let mut state = DiscoveryState::new(ContentKind::Mod);
    state.list.entries.push(entry(titled("project", "Project"), None));
    state.list.list_state.selected = Some(0);

    let request = state.begin_project_page().unwrap();
    assert!(state.project_page_open());
    state.drain_pending(Vec::new(), vec![DiscoveryActionResult::ProjectPage {
        request_id: request.request_id,
        project_id: request.project_id,
        result: Ok(ProjectInfo {
            id: "project".to_owned(),
            slug: "project".to_owned(),
            title: "Project page".to_owned(),
            description: "Short description".to_owned(),
            body: "Long **Markdown** description.".to_owned(),
        }),
    }], 0);

    let page = state.project_page.as_ref().unwrap();
    assert_eq!(page.title, "Project page");
    assert!(page.body.is_some());
    state.project_page = None;
    assert!(state.begin_project_page().is_none());
    assert!(state.project_page.as_ref().is_some_and(|page| page.body.is_some()));
}

#[test]
fn project_page_navigation_is_bounded_and_can_go_back() {
    let mut state = DiscoveryState::new(ContentKind::Mod);
    state.project_page = Some(ProjectPageState {
        request_id: 1,
        project_id: "project".to_owned(),
        title: "Project".to_owned(),
        body: Some("Body".to_owned()),
        error: None,
        scroll: 0,
        max_scroll: 20,
    });

    handle_key(&key(KeyCode::Char('d')), &mut state, 0);
    assert_eq!(state.project_page.as_ref().unwrap().scroll, 10);
    handle_key(&key(KeyCode::Char('G')), &mut state, 0);
    assert_eq!(state.project_page.as_ref().unwrap().scroll, 20);
    handle_key(&key(KeyCode::Char('h')), &mut state, 0);
    assert!(!state.project_page_open());
}

#[test]
fn version_popup_owns_navigation_over_a_project_page() {
    let mut state = DiscoveryState::new(ContentKind::Mod);
    state.list.entries.push(entry(titled("project", "Project"), None));
    state.list.list_state.selected = Some(0);
    state.project_page = Some(ProjectPageState {
        request_id: 1,
        project_id: "project".to_owned(),
        title: "Project".to_owned(),
        body: None,
        error: None,
        scroll: 0,
        max_scroll: 20,
    });
    let request = state.begin_versions("modrinth").unwrap();
    let answer = versions_answer(&state, request.request_id, request.project_id, vec![version("1.0.0"), version("2.0.0")]);
    state.drain_pending(Vec::new(), vec![answer], 0);

    handle_key(&key(KeyCode::Char('j')), &mut state, 0);

    assert_eq!(state.version_popup.as_ref().unwrap().selected, 1);
    assert_eq!(state.project_page.as_ref().unwrap().scroll, 0);
}

#[test]
fn confirmation_can_return_to_version_selection() {
    let mut state = DiscoveryState::new(ContentKind::Mod);
    state.list.entries.push(entry(titled("project", "Project"), None));
    state.list.list_state.selected = Some(0);
    let request = state.begin_versions("modrinth").unwrap();
    let answer = versions_answer(&state, request.request_id, request.project_id, vec![version("1.0.0")]);
    state.drain_pending(Vec::new(), vec![answer], 0);
    assert!(state.begin_confirmation());

    handle_key(&key(KeyCode::Char('h')), &mut state, 0);

    assert!(!state.version_popup.as_ref().unwrap().confirming);
    assert!(state.version_popup.is_some());
}

#[test]
fn dependency_resolution_opens_the_existing_confirmation() {
    let mut state = DiscoveryState::new(ContentKind::Mod);
    state.list.entries.push(entry(titled("project", "Project"), None));
    state.list.list_state.selected = Some(0);
    let versions = state.begin_versions("modrinth").unwrap();
    let answer = versions_answer(&state, versions.request_id, versions.project_id, vec![version("1.0.0")]);
    state.drain_pending(Vec::new(), vec![answer], 0);
    let request = state.begin_dependency_resolution().unwrap();
    assert!(state.version_popup.as_ref().unwrap().loading);
    state.drain_pending(Vec::new(), vec![DiscoveryActionResult::Dependencies {
        request_id: request.request_id,
        project_id: request.project_id,
        result: Ok(DependencyPlan { installs: Vec::new(), replacements: Vec::new(), optional_dependencies: 0 }),
    }], 0);

    let popup = state.version_popup.as_ref().unwrap();
    assert!(popup.confirming);
    assert!(!popup.loading);
    assert!(popup.dependency_plan.is_some());
    assert!(state.begin_install().unwrap().dependency_plan.is_some());
}

#[test]
fn discovery_delete_only_clears_the_matching_installed_badge() {
    let mut state = DiscoveryState::new(ContentKind::Mod);
    state.list.entries.push(entry(project("first"), Some("mods/first.jar")));
    state.list.entries.push(entry(project("second"), Some("mods/second.jar")));
    state.list.list_state.selected = Some(0);

    let pending = state.pending_installed_delete().unwrap();
    assert_eq!(pending.path, "mods/first.jar");
    assert!(state.clear_installed_path(&pending.path));

    assert_eq!(state.list.entries.len(), 2);
    assert!(state.list.entries[0].installed_path.is_none());
    assert!(state.list.entries[0].title_suffix.is_none());
    assert_eq!(state.list.entries[1].installed_path.as_deref(), Some("mods/second.jar"));
    assert_eq!(state.list.entries[1].title_suffix.as_deref(), Some("Installed"));
    assert!(state.pending_installed_delete().is_none());
}

#[test]
fn successful_install_marks_the_project_and_closes_the_popup() {
    let mut state = DiscoveryState::new(ContentKind::Mod);
    state.list.entries.push(entry(titled("project", "Project"), None));
    state.list.list_state.selected = Some(0);
    let versions_request = state.begin_versions("modrinth").unwrap();
    let answer = versions_answer(&state, versions_request.request_id, versions_request.project_id, vec![version("1.0.0")]);
    state.drain_pending(Vec::new(), vec![answer], 0);
    assert!(state.begin_confirmation());
    let install = state.begin_install().unwrap();
    assert!(state.version_popup.is_none());
    state.drain_pending(Vec::new(), vec![DiscoveryActionResult::Install {
        request_id: install.request_id,
        generation: install.generation,
        project_id: install.project_id,
        project_title: install.project_title,
        result: Ok(InstallCompletion {
            path: "mods/project.jar".to_owned(),
            replaced: false,
            skipped: false,
            orphaned_dependencies: Vec::new(),
        }),
    }], 0);

    assert!(state.version_popup.is_none());
    assert_eq!(state.list.entries[0].title_suffix.as_deref(), Some("Installed"));
    assert_eq!(state.list.entries[0].installed_path, Some("mods/project.jar".to_owned()));
    assert_eq!(state.list.entries[0].path, "project");
}

#[test]
fn installed_labels_follow_exact_manifest_projects() {
    let mut state = DiscoveryState::new(ContentKind::Mod);
    state.list.entries.push(entry(
        DiscoveryProject {
            id: "project-id".to_owned(),
            slug: "example-project".to_owned(),
            title: "Example Project".to_owned(),
            description: String::new(),
            downloads: 0,
            icon_url: None,
            icon_bytes: None,
        },
        None,
    ));

    let manifest = ContentManifest {
        files: vec![ContentFileRecord {
            relative_path: "mods/example-project-1.0.0.jar".to_owned(),
            kind: ContentKind::Mod,
            project: Some(source("modrinth", "project-id", "version")),
            provider_aliases: Vec::new(),
        }],
    };
    let mut sources = vec![("example-project".to_owned(), source("modrinth", "project-id", ""))];
    refresh_source_installed_versions(&mut sources, Some(&manifest));
    assert_eq!(sources[0].1.version_id, "version");

    state.refresh_installed_manifest(&manifest, "first");
    assert_eq!(state.list.entries[0].title_suffix.as_deref(), Some("Installed"));
    assert_eq!(state.list.entries[0].installed_path, Some("first/mods/example-project-1.0.0.jar".to_owned()));
    state.list.list_state.selected = Some(0);
    let request = state.begin_versions("modrinth").unwrap();
    assert_eq!(request.current_version_id.as_deref(), Some("version"));
    assert_eq!(state.version_popup.as_ref().unwrap().current_version_id.as_deref(), Some("version"));
    state.version_popup = None;

    state.refresh_installed_manifest(&ContentManifest { files: Vec::new() }, "first");
    assert_eq!(state.list.entries[0].title_suffix, None);
    assert_eq!(state.list.entries[0].installed_path, None);
    assert_eq!(state.list.entries[0].path, "project-id");
}

#[test]
fn changing_instance_invalidates_results() {
    let mut state = DiscoveryState::new(ContentKind::Mod);
    let first = instance("one", "1.21.1");
    let second = instance("two", "1.21.1");
    let _request = state.begin_search(&first);

    assert!(!state.needs_search(&first));
    assert!(state.needs_search(&second));
}

#[test]
fn unavailable_vanilla_discovery_clears_cached_results() {
    let mut state = DiscoveryState::new(ContentKind::Mod);
    state.list.entries.push(entry(titled("cached", "Cached"), None));
    let mut vanilla = instance("vanilla", "1.21.1");
    vanilla.loader = ModLoader::Vanilla;

    state.set_unavailable(&vanilla);

    assert!(state.list.entries.is_empty());
    assert!(!state.page_loading);
    assert!(state.exhausted);
}

#[test]
fn changing_instance_compatibility_invalidates_results() {
    let mut state = DiscoveryState::new(ContentKind::Mod);
    let original = instance("one", "1.21.1");
    let mut other_version = original.clone();
    other_version.game_version = "1.20.1".to_owned();
    let mut other_loader = original.clone();
    other_loader.loader = ModLoader::NeoForge;
    let _request = state.begin_search(&original);

    assert!(state.needs_search(&other_version));
    assert!(state.needs_search(&other_loader));
}

#[test]
fn stale_search_result_is_ignored() {
    let mut state = DiscoveryState::new(ContentKind::Mod);
    let instance = instance("one", "1.21.1");
    let old = state.begin_search(&instance);
    let _new = state.begin_search(&instance);

    state.drain_pending(vec![page_done(old.generation, old.offset, 20, 99)], Vec::new(), 0);

    assert_eq!(state.total_hits, 0);
    assert!(state.list.loading);
}

fn numbered(index: usize) -> ContentEntry {
    entry(project(&index.to_string()), None)
}

#[test]
fn next_page_prefetches_before_selection_reaches_the_end() {
    let mut state = DiscoveryState::new(ContentKind::Mod);
    state.set_viewport_rows(30);
    let mut first = state.begin_search(&instance("one", "1.21.1"));
    for index in 0..PAGE_SIZE {
        assert!(first.stream.send(numbered(index)));
    }
    state.list.drain_pending();
    state.drain_pending(vec![page_done(first.generation, first.offset, PAGE_SIZE, 300)], Vec::new(), 0);
    state.list.list_state.selected = Some(80);

    let next = state.begin_next_page(0).expect("next page should prefetch");
    assert_eq!(next.offset, PAGE_SIZE);
    assert!(state.begin_next_page(0).is_none());
}

#[test]
fn large_page_fills_a_tall_viewport_without_another_request() {
    let mut state = DiscoveryState::new(ContentKind::Mod);
    state.set_viewport_rows(90);
    let mut first = state.begin_search(&instance("one", "1.21.1"));
    for index in 0..PAGE_SIZE {
        assert!(first.stream.send(numbered(index)));
    }
    state.list.drain_pending();
    state.drain_pending(vec![page_done(first.generation, first.offset, PAGE_SIZE, 300)], Vec::new(), 0);

    assert!(state.begin_next_page(0).is_none());
}

#[test]
fn typing_keeps_loaded_results_until_remote_search_is_due() {
    let mut state = DiscoveryState::new(ContentKind::Mod);
    let mut request = state.begin_search(&instance("one", "1.21.1"));
    for title in ["Sodium", "Lithium"] {
        assert!(request.stream.send(entry(titled(&title.to_lowercase(), title), None)));
    }
    state.list.drain_pending();

    let now = 10_000;
    handle_key(&key(KeyCode::Char('/')), &mut state, now);
    for character in "sod".chars() {
        handle_key(&key(KeyCode::Char(character)), &mut state, now);
    }

    assert_eq!(state.list.filtered_indices(), vec![0, 1]);
    assert_eq!(state.list.search.query, "sod");
    assert!(!state.search_due(now));
    assert!(state.search_due(now + SEARCH_DEBOUNCE_MS));
}

#[test]
fn search_refresh_keeps_rows_until_the_diff_arrives() {
    let mut state = DiscoveryState::new(ContentKind::Mod);
    let instance = instance("one", "1.21.1");
    let mut initial = state.begin_search(&instance);
    for title in ["Sodium", "Lithium"] {
        let mut row = titled(&title.to_lowercase(), title);
        if title == "Sodium" {
            row.icon_bytes = Some(vec![1, 2, 3]);
        }
        assert!(initial.stream.upsert(entry(row, None)));
    }
    state.list.drain_pending();
    state.search.query = "sodium".to_owned();
    state.search_changed(0);

    let refresh = state.begin_search(&instance);

    assert!(refresh.reconcile);
    assert!(refresh.loaded_icon_stems.contains(&"sodium".to_owned()));
    assert!(!refresh.loaded_icon_stems.contains(&"lithium".to_owned()));
    assert_eq!(state.list.entries.len(), 2);
    assert!(!state.list.loading);
}

#[test]
fn pagination_continues_across_multiple_pages() {
    let mut state = DiscoveryState::new(ContentKind::Mod);
    let instance = instance("one", "1.21.1");
    let mut first = state.begin_search(&instance);
    for index in 0..PAGE_SIZE {
        assert!(first.stream.upsert(numbered(index)));
    }
    state.list.drain_pending();
    state.drain_pending(vec![page_done(first.generation, first.offset, PAGE_SIZE, 300)], Vec::new(), 0);
    state.list.list_state.selected = Some(PAGE_SIZE - MIN_PREFETCH_ITEMS);

    let mut second = state.begin_next_page(0).unwrap();
    for index in PAGE_SIZE..PAGE_SIZE * 2 {
        assert!(second.stream.upsert(numbered(index)));
    }
    state.list.drain_pending();
    state.drain_pending(vec![page_done(second.generation, second.offset, PAGE_SIZE, 300)], Vec::new(), 0);
    state.list.list_state.selected = Some(PAGE_SIZE * 2 - MIN_PREFETCH_ITEMS);

    let third = state.begin_next_page(0).unwrap();
    assert_eq!(third.offset, PAGE_SIZE * 2);
}

#[test]
fn permanent_pagination_failure_stops_without_discarding_loaded_entries() {
    let mut state = DiscoveryState::new(ContentKind::Mod);
    let mut first = state.begin_search(&instance("one", "1.21.1"));
    for index in 0..PAGE_SIZE {
        assert!(first.stream.upsert(numbered(index)));
    }
    state.list.drain_pending();
    state.drain_pending(vec![page_done(first.generation, first.offset, PAGE_SIZE, 300)], Vec::new(), 0);
    state.list.list_state.selected = Some(PAGE_SIZE - MIN_PREFETCH_ITEMS);
    let second = state.begin_next_page(0).unwrap();
    state.drain_pending(
        vec![PendingDiscoveryResult {
            generation: second.generation,
            offset: second.offset,
            result: Err(DiscoveryPageError { message: "invalid response".to_owned(), retryable: false }),
            sources: Vec::new(),
        }],
        Vec::new(),
        0,
    );

    assert!(state.begin_next_page(0).is_none());
    assert_eq!(state.list.entries.len(), PAGE_SIZE);
    assert!(state.exhausted);
}

#[test]
fn transient_pagination_failure_retries_the_same_offset_after_a_delay() {
    let mut state = DiscoveryState::new(ContentKind::Mod);
    let first = state.begin_search(&instance("one", "1.21.1"));
    let now = 50_000;
    state.drain_pending(vec![page_done(first.generation, first.offset, PAGE_SIZE, 300)], Vec::new(), now);

    let second = state.begin_next_page(now).unwrap();
    state.drain_pending(
        vec![PendingDiscoveryResult {
            generation: second.generation,
            offset: second.offset,
            result: Err(DiscoveryPageError { message: "connection reset".to_owned(), retryable: true }),
            sources: Vec::new(),
        }],
        Vec::new(),
        now,
    );

    assert!(state.begin_next_page(now).is_none());
    assert_eq!(state.begin_next_page(now + PAGE_RETRY_BASE_DELAY_MS).unwrap().offset, PAGE_SIZE);
}

#[test]
fn minecraft_versions_are_listed_newest_first_without_loader_names() {
    let mut older = version("1.0.0");
    older.game_versions = vec!["1.20.1".to_owned(), "fabric".to_owned()];
    let versions = vec![older, version("2.0.0")];
    assert_eq!(minecraft_versions(&versions), ["1.21.1", "1.20.1"]);
}

#[test]
fn provider_search_fails_only_without_a_usable_answer() {
    let failed = |retryable: bool| -> Option<Result<DiscoveryResults, DiscoveryPageError>> {
        Some(Err(DiscoveryPageError { message: "down".to_owned(), retryable }))
    };
    let answered = || -> Option<Result<DiscoveryResults, DiscoveryPageError>> {
        Some(Ok(DiscoveryResults { projects: vec![project("a")], total_hits: 1 }))
    };
    assert!(search_failure(&failed(true), &answered()).is_none());
    assert!(search_failure(&answered(), &failed(false)).is_none());
    assert!(search_failure(&failed(true), &failed(false)).unwrap().retryable);
    assert!(!search_failure(&None, &failed(false)).unwrap().retryable);
    let none = search_failure(&None, &None).unwrap();
    assert_eq!(none.message, "No discovery provider is available");
    assert!(!none.retryable);

    let pages = search_pages(answered(), answered());
    assert_eq!(pages.iter().map(|(provider, _)| provider.as_str()).collect::<Vec<_>>(), ["modrinth", "curseforge"]);
    assert_eq!(search_pages(failed(true), answered()).len(), 1);
}

#[test]
fn provider_search_rows_take_cached_icons_and_installed_paths() {
    let mut iconic = project("sodium");
    iconic.icon_url = Some("https://example.invalid/icon.png".to_owned());
    let merged = |project: DiscoveryProject| MergedDiscoveryProject {
        stem: "sodium".to_owned(),
        provider: "modrinth".to_owned(),
        project,
    };
    let sources = vec![("sodium".to_owned(), source("modrinth", "sodium", ""))];
    let manifest = ContentManifest {
        files: vec![ContentFileRecord {
            relative_path: "mods/sodium.jar".to_owned(),
            kind: ContentKind::Mod,
            project: Some(source("modrinth", "sodium", "v1")),
            provider_aliases: Vec::new(),
        }],
    };

    let (row, icon) = search_row(merged(iconic.clone()), &sources, Some(&manifest), "mc", &Vec::new(), None, "12");
    assert_eq!(row.installed_path.as_deref(), Some("mc/mods/sodium.jar"));
    assert_eq!(row.title_suffix.as_deref(), Some("Installed"));
    assert_eq!(row.footer_label.as_deref(), Some("12 downloads"));
    assert_eq!(icon.as_deref(), Some("https://example.invalid/icon.png"));

    let (row, icon) = search_row(merged(iconic.clone()), &sources, None, "mc", &Vec::new(), Some(vec![7]), "12");
    assert_eq!(row.icon_bytes, Some(vec![7]));
    assert!(row.installed_path.is_none());
    assert!(icon.is_none());

    let loaded = vec!["sodium".to_owned()];
    let (row, icon) = search_row(merged(iconic), &sources, None, "mc", &loaded, Some(vec![7]), "12");
    assert!(row.icon_bytes.is_none());
    assert!(icon.is_none());
}

#[test]
fn version_popup_body_and_keybinds_follow_its_state() {
    let mut state = DiscoveryState::new(ContentKind::Mod);
    state.list.entries.push(entry(titled("project", "Project"), None));
    state.list.list_state.selected = Some(0);
    let request = state.begin_versions("modrinth").unwrap();
    {
        let popup = state.version_popup.as_ref().unwrap();
        assert!(matches!(version_popup_body(popup), PopupBody::Note("Loading compatible versions...")));
    }
    let answer = versions_answer(&state, request.request_id, request.project_id, vec![version("1.0.0"), version("2.0.0")]);
    state.drain_pending(Vec::new(), vec![answer], 0);
    let popup = state.version_popup.as_ref().unwrap();
    match version_popup_body(popup) {
        PopupBody::Versions(items) => {
            assert_eq!(items, vec![("1.0.0".to_owned(), false), ("2.0.0".to_owned(), false)]);
        }
        other => panic!("unexpected body {other:?}"),
    }
    assert_eq!(
        version_popup_keybinds(popup),
        vec![("j/k", " navigate"), ("Enter", " continue"), ("Esc", " close")]
    );

    assert!(state.begin_confirmation());
    let popup = state.version_popup.as_mut().unwrap();
    popup.dependency_plan = Some(DependencyPlan {
        installs: vec!["Library".to_owned(), "Api".to_owned()],
        replacements: vec![("Other".to_owned(), "2.0".to_owned())],
        optional_dependencies: 2,
    });
    match version_popup_body(popup) {
        PopupBody::Summary(rows) => {
            assert_eq!(
                rows,
                vec![
                    ("Version", "1.0.0".to_owned()),
                    ("Minecraft", "1.21.1".to_owned()),
                    ("Loader", "Fabric".to_owned()),
                    ("Released", "2026-01-02".to_owned()),
                    ("Also installs", "Library, Api".to_owned()),
                    ("Also changes", "Other -> 2.0".to_owned()),
                    ("Optional not installed", "2".to_owned()),
                ]
            );
        }
        other => panic!("unexpected body {other:?}"),
    }
    assert_eq!(version_popup_keybinds(popup), vec![("h", " back"), ("Enter", " install")]);
}

#[test]
fn a_provider_search_page_carries_the_merge_or_the_failure() {
    let answered = |ids: &[&str], total: usize| -> Option<Result<DiscoveryResults, DiscoveryPageError>> {
        Some(Ok(DiscoveryResults { projects: ids.iter().map(|id| project(id)).collect(), total_hits: total }))
    };
    let page = search_page(7, 40, answered(&["a", "b"], 90), answered(&["c"], 120), "modrinth", Vec::new(), None);
    assert_eq!(page.result.generation, 7);
    assert_eq!(page.result.offset, 40);
    let result = page.result.result.as_ref().unwrap();
    assert_eq!(result.received, 2);
    assert_eq!(result.total_hits, 120);
    assert_eq!(page.projects.len(), 3);
    assert_eq!(page.result.sources.len(), 3);

    let failed = search_page(8, 0, None, None, "modrinth", Vec::new(), None);
    assert_eq!(failed.result.generation, 8);
    let error = failed.result.result.unwrap_err();
    assert_eq!(error.message, "No discovery provider is available");
    assert!(!error.retryable);
    assert!(failed.projects.is_empty());
    assert!(failed.result.sources.is_empty());

    let down = Some(Err(DiscoveryPageError { message: "down".to_owned(), retryable: true }));
    let half = search_page(9, 0, down, answered(&["c"], 1), "modrinth", Vec::new(), None);
    assert_eq!(half.result.result.unwrap().received, 1);
}
