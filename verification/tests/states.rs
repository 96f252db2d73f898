use rmcl::discovery::{ContentMode, DiscoveryState};
use rmcl::tabs::ContentTab;
use rmcl::list::{ContentListState, PaginationState, Rect};
use rmcl::logs::LogsState;
use rmcl::model::{ContentEntry, ContentKind, InstanceConfig, ModLoader, WorldDetails};
use rmcl::states::{active_discovery_kind_of, bulk_update_records, update_title, bulk_update_target, datapack_world_of, ContentStates, DiscoveryLoad, LoadTarget};

fn row(stem: &str, path: &str) -> ContentEntry {
    ContentEntry {
        file_stem: stem.to_owned(),
        name: stem.to_owned(),
        source_slug: None,
        installed_path: None,
        provider_project: None,
        world_details: None,
        title_suffix: None,
        footer_label: None,
        footer_change: None,
        description: String::new(),
        enabled: true,
        icon_bytes: None,
        provider_icon: false,
        provider_description: false,
        path: path.to_owned(),
        icon_lines: None,
    }
}

fn states() -> ContentStates {
    ContentStates {
        mods: ContentListState::new(),
        resource_packs: ContentListState::new(),
        shaders: ContentListState::new(),
        world_datapacks: ContentListState::new(),
        worlds: ContentListState::new(),
        screenshots: ContentListState::new(),
        logs: LogsState::new(),
        mods_discovery: DiscoveryState::new(ContentKind::Mod),
        resource_packs_discovery: DiscoveryState::new(ContentKind::ResourcePack),
        shaders_discovery: DiscoveryState::new(ContentKind::Shader),
        datapacks_discovery: DiscoveryState::new(ContentKind::DataPack),
    }
}

#[test]
fn a_deleted_mod_leaves_its_list_and_its_discovery_row() {
    let mut s = states();
    s.mods.set_entries(vec![row("a", "mc/mods/a.jar"), row("b", "mc/mods/b.jar")]);
    let mut found = row("a", "");
    found.installed_path = Some("mc/mods/a.jar".to_owned());
    found.title_suffix = Some("Installed".to_owned());
    s.mods_discovery.list.set_entries(vec![found]);

    let removed = s.remove_content_path("mc/mods/a.jar");
    assert_eq!(s.mods.entries.len(), 1);
    assert_eq!(s.mods.entries[0].file_stem, "b");
    assert!(s.mods_discovery.list.entries[0].installed_path.is_none());
    assert!(s.mods_discovery.list.entries[0].title_suffix.is_none());
    assert!(removed.world_to_refresh.is_none());
    assert!(removed.read_log.is_none());
}

#[test]
fn a_deleted_datapack_names_its_world_for_refreshing() {
    let mut s = states();
    let mut world = row("w", "saves/w");
    world.world_details = Some(WorldDetails {
        minecraft_version: None,
        size: None,
        datapacks: vec!["old".to_owned(), "gone".to_owned()],
        game_mode: None,
    });
    s.worlds.set_entries(vec![row("x", "saves/x"), world]);
    s.world_datapacks.set_entries(vec![row("gone", "saves/w/datapacks/gone.zip")]);

    let removed = s.remove_content_path("saves/w/datapacks/gone.zip");
    assert!(s.world_datapacks.entries.is_empty());
    assert_eq!(removed.world_to_refresh, Some(1));
    s.set_world_datapacks(1, vec!["old".to_owned()]);
    assert_eq!(s.worlds.entries[1].world_details.as_ref().unwrap().datapacks, vec!["old".to_owned()]);

    assert_eq!(datapack_world_of("saves/w/datapacks/gone.zip").as_deref(), Some("saves/w"));
    assert_eq!(datapack_world_of("mods/a.jar"), None);
    assert!(s.remove_content_path("saves/z/datapacks/p.zip").world_to_refresh.is_none());
}

fn instance(name: &str) -> InstanceConfig {
    InstanceConfig {
        name: name.to_owned(),
        game_version: "1.21.1".to_owned(),
        loader: ModLoader::Fabric,
        loader_version: None,
        last_played: None,
        modpack_source: None,
    }
}

#[test]
fn each_tab_shows_its_own_discovery_view() {
    let s = states();
    assert_eq!(active_discovery_kind_of(ContentTab::Shaders, false), Some(ContentKind::Shader));
    assert_eq!(active_discovery_kind_of(ContentTab::Worlds, false), None);
    assert_eq!(active_discovery_kind_of(ContentTab::Worlds, true), Some(ContentKind::DataPack));
    assert_eq!(s.active_discovery(ContentTab::ResourcePacks, false).unwrap().kind, ContentKind::ResourcePack);
    assert_eq!(s.active_discovery(ContentTab::Worlds, true).unwrap().kind, ContentKind::DataPack);
    assert!(s.active_discovery(ContentTab::Logs, true).is_none());
}

#[test]
fn the_shown_discovery_view_searches_once_per_context() {
    let mut s = states();
    let one = instance("one");
    assert_eq!(s.ensure_active_discovery_loaded(ContentMode::Installed, ContentTab::Mods, false, Some(&one), false, 0), DiscoveryLoad::Nothing);
    assert_eq!(s.ensure_active_discovery_loaded(ContentMode::Discover, ContentTab::Mods, false, None, false, 0), DiscoveryLoad::Nothing);
    assert_eq!(s.ensure_active_discovery_loaded(ContentMode::Discover, ContentTab::Logs, false, Some(&one), false, 0), DiscoveryLoad::Nothing);
    assert_eq!(s.ensure_active_discovery_loaded(ContentMode::Discover, ContentTab::Mods, false, Some(&one), false, 0), DiscoveryLoad::Search);
    let _request = s.mods_discovery.begin_search(&one);
    assert_eq!(s.ensure_active_discovery_loaded(ContentMode::Discover, ContentTab::Mods, false, Some(&one), false, 0), DiscoveryLoad::NextPage);
    assert_eq!(s.ensure_active_discovery_loaded(ContentMode::Discover, ContentTab::Mods, false, Some(&instance("two")), false, 0), DiscoveryLoad::Search);
}

#[test]
fn an_unavailable_discovery_view_is_emptied_and_stops_loading() {
    let mut s = states();
    let one = instance("one");
    s.shaders_discovery.list.set_entries(vec![row("a", "")]);
    assert_eq!(s.ensure_active_discovery_loaded(ContentMode::Discover, ContentTab::Shaders, false, Some(&one), true, 0), DiscoveryLoad::Unavailable);
    assert!(s.shaders_discovery.list.entries.is_empty());
    assert!(s.shaders_discovery.exhausted);
    s.reset_discovery_states();
    assert_eq!(s.shaders_discovery.kind, ContentKind::Shader);
    assert!(s.shaders_discovery.context.is_none());
}

#[test]
fn a_click_on_a_pager_label_opens_that_discovery_page() {
    let mut s = states();
    let rows: Vec<ContentEntry> = (0..30).map(|i| row(&format!("p{i}"), "")).collect();
    s.mods_discovery.list.set_entries(rows);
    s.mods_discovery.list.set_pagination(Some(PaginationState {
        page_size: 10,
        page_count: 3,
        hits: vec![(Rect { x: 0, y: 5, width: 3, height: 1 }, 1), (Rect { x: 4, y: 5, width: 3, height: 1 }, 7)],
    }));
    assert!(!s.click_discovery_page(false, ContentMode::Discover, ContentTab::Mods, false, 1, 5));
    assert!(!s.click_discovery_page(true, ContentMode::Installed, ContentTab::Mods, false, 1, 5));
    assert!(!s.click_discovery_page(true, ContentMode::Discover, ContentTab::Mods, false, 9, 9));
    assert!(s.click_discovery_page(true, ContentMode::Discover, ContentTab::Mods, false, 1, 5));
    assert_eq!(s.mods_discovery.list.list_state.selected, Some(10));
    assert!(s.click_discovery_page(true, ContentMode::Discover, ContentTab::Mods, false, 5, 5));
    assert_eq!(s.mods_discovery.list.list_state.selected, Some(20));
    s.mods_discovery.search.active = true;
    assert!(!s.click_discovery_page(true, ContentMode::Discover, ContentTab::Mods, false, 1, 5));
    assert_eq!(s.mods_discovery.list.list_state.selected, Some(20));
}

#[test]
fn a_bulk_update_covers_the_shown_kind_of_content() {
    assert_eq!(bulk_update_target(false, ContentTab::Mods, None), Some((ContentKind::Mod, None)));
    assert_eq!(bulk_update_target(true, ContentTab::Mods, None), None);
    assert_eq!(bulk_update_target(false, ContentTab::Logs, None), None);
    assert_eq!(bulk_update_target(false, ContentTab::Worlds, None), None);
    assert_eq!(
        bulk_update_target(false, ContentTab::Worlds, Some("saves/w".to_owned())),
        Some((ContentKind::DataPack, Some("saves/w".to_owned())))
    );
    let s = states();
    assert_eq!(s.bulk_update_rows(ContentTab::Worlds).unwrap().entries.len(), s.world_datapacks.entries.len());
    assert!(s.bulk_update_rows(ContentTab::Screenshots).is_none());
}

#[test]
fn the_shown_tab_loads_its_directory_once_per_instance() {
    let mut s = states();
    let load = s.tab_load(ContentTab::Mods, Some("A"), "inst", ".minecraft", None).unwrap();
    assert_eq!(load.target, LoadTarget::Mods);
    assert_eq!(load.key, "A");
    assert_eq!(load.dir, "inst/A/.minecraft/mods");
    let _stream = s.mods.start_load("A");
    assert!(s.tab_load(ContentTab::Mods, Some("A"), "inst", ".minecraft", None).is_none());
    assert!(s.tab_load(ContentTab::Mods, None, "inst", ".minecraft", None).is_none());
    let worlds = s.tab_load(ContentTab::DataPacks, Some("A"), "inst", ".minecraft", None).unwrap();
    assert_eq!((worlds.target, worlds.dir.as_str()), (LoadTarget::Worlds, "inst/A/.minecraft/saves"));
    let packs = s
        .tab_load(ContentTab::Worlds, Some("A"), "inst", ".minecraft", Some(("w", "inst/A/.minecraft/saves/w")))
        .unwrap();
    assert_eq!(packs.target, LoadTarget::WorldDatapacks);
    assert_eq!(packs.key, "A:w");
    assert_eq!(packs.dir, "inst/A/.minecraft/saves/w/datapacks");
    let logs = s.tab_load(ContentTab::Logs, Some("A"), "inst", ".minecraft", None).unwrap();
    assert_eq!((logs.target, logs.key.as_str(), logs.dir.as_str()), (LoadTarget::Logs, "A", "inst"));
}

#[test]
fn a_bulk_update_covers_the_records_of_its_kind() {
    let records = vec![
        (ContentKind::Mod, "mods/a.jar".to_owned()),
        (ContentKind::Shader, "shaderpacks/s.zip".to_owned()),
        (ContentKind::Mod, "mods/b.jar".to_owned()),
    ];
    assert_eq!(bulk_update_records(&records, ContentKind::Mod, "mc", None), vec![0, 2]);
    assert_eq!(bulk_update_records(&records, ContentKind::Shader, "mc", None), vec![1]);
    assert_eq!(bulk_update_records(&records, ContentKind::ResourcePack, "mc", None), Vec::<usize>::new());
}

#[test]
fn a_world_bulk_update_covers_only_that_worlds_data_packs() {
    let records = vec![
        (ContentKind::DataPack, "saves/w1/datapacks/a.zip".to_owned()),
        (ContentKind::DataPack, "saves/w2/datapacks/b.zip".to_owned()),
        (ContentKind::Mod, "saves/w1/datapacks/c.jar".to_owned()),
    ];
    assert_eq!(bulk_update_records(&records, ContentKind::DataPack, "mc", Some("mc/saves/w1")), vec![0]);
    assert_eq!(bulk_update_records(&records, ContentKind::DataPack, "mc", Some("mc/saves/w2")), vec![1]);
}

#[test]
fn an_update_is_titled_by_the_stem_of_its_file() {
    assert_eq!(update_title("mods/sodium-0.5.jar"), "sodium-0.5");
    assert_eq!(update_title("resourcepacks/pack.tar.gz"), "pack.tar");
    assert_eq!(update_title("mods/.hidden"), ".hidden");
    assert_eq!(update_title("mods/plain"), "plain");
    assert_eq!(update_title(""), "content");
    assert_eq!(update_title("mods/.."), "content");
}
