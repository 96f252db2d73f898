use rmcl::watcher::WatcherDiff;
use rmcl::provider_search::stream_search_rows;
use rmcl::keys::{KeyCode, KeyEvent, KeyModifiers};
use rmcl::list::{
    handle_key, handle_key_no_toggle, ContentListState, ListAction, PendingContentImage, PendingProviderIcon,
};
use rmcl::model::IconCell;
use rmcl::model::{ContentEntry, ContentFileRecord, ContentKind, ContentManifest, ProviderProject};

fn row(stem: &str, path: &str) -> ContentEntry {
    ContentEntry {
        file_stem: stem.to_owned(),
        name: stem.to_owned(),
        source_slug: None,
        installed_path: None,
        provider_project: None,
        world_details: None,
        title_suffix: None,
        footer_label: None,
        footer_change: None,
        description: String::new(),
        enabled: true,
        icon_bytes: None,
        provider_icon: false,
        provider_description: false,
        path: path.to_owned(),
        icon_lines: None,
    }
}

fn project(provider: &str, id: &str, version: &str) -> ProviderProject {
    ProviderProject { provider: provider.to_owned(), project_id: id.to_owned(), version_id: version.to_owned() }
}

#[test]
fn manifest_projects_replace_what_the_old_project_gave() {
    let mut list = ContentListState::new();
    let mut sodium = row("sodium", "mc/mods/sodium.jar");
    sodium.provider_project = Some(project("modrinth", "old", "1"));
    sodium.title_suffix = Some("Update".to_owned());
    sodium.provider_icon = true;
    sodium.icon_bytes = Some(vec![1]);
    sodium.provider_description = true;
    sodium.description = "from provider".to_owned();
    let elsewhere = row("other", "elsewhere/other.jar");
    let mut unknown = row("unknown", "mc/mods/unknown.jar");
    unknown.provider_project = Some(project("modrinth", "gone", "1"));
    list.set_entries(vec![sodium, elsewhere, unknown]);
    let manifest = ContentManifest {
        files: vec![ContentFileRecord {
            relative_path: "mods/sodium.jar".to_owned(),
            kind: ContentKind::Mod,
            project: Some(project("modrinth", "sodium", "2")),
            provider_aliases: Vec::new(),
        }],
    };

    assert!(list.apply_manifest(&manifest, "mc", ContentKind::Mod));
    let sodium = &list.entries[0];
    assert_eq!(sodium.provider_project.as_ref().unwrap().project_id, "sodium");
    assert!(sodium.title_suffix.is_none());
    assert!(sodium.icon_bytes.is_none());
    assert_eq!(sodium.icon_lines.as_ref().unwrap().len(), 3);
    assert!(sodium.description.is_empty());
    assert!(list.entries[1].provider_project.is_none());
    assert!(list.entries[2].provider_project.is_none());
    assert!(!list.apply_manifest(&manifest, "mc", ContentKind::Mod));
    assert!(list.apply_manifest(&manifest, "mc", ContentKind::ResourcePack));
    assert!(list.entries[0].provider_project.is_none());
}

#[test]
fn update_badges_follow_the_update_check() {
    let mut list = ContentListState::new();
    let mut a = row("a", "mods/a.jar");
    a.provider_project = Some(project("modrinth", "a", "1"));
    let mut b = row("b", "mods/b.jar");
    b.provider_project = Some(project("modrinth", "b", "1"));
    b.title_suffix = Some("Update".to_owned());
    list.set_entries(vec![a, b]);
    assert!(list.apply_update_snapshot(&vec![project("modrinth", "a", "1")]));
    assert_eq!(list.entries[0].title_suffix.as_deref(), Some("Update"));
    assert!(list.entries[1].title_suffix.is_none());
    assert!(!list.apply_update_snapshot(&vec![project("modrinth", "a", "1")]));
}

#[test]
fn provider_metadata_fills_missing_icons_and_descriptions() {
    let mut list = ContentListState::new();
    let mut a = row("a", "mods/a.jar");
    a.provider_project = Some(project("modrinth", "a", "1"));
    let mut b = row("b", "mods/b.jar");
    b.provider_project = Some(project("modrinth", "b", "1"));
    b.description = "own".to_owned();
    list.set_entries(vec![a, b]);
    let changed = list.drain_provider_icons(vec![
        PendingProviderIcon { provider: "modrinth".to_owned(), project_id: "a".to_owned(), bytes: vec![9], description: "A mod".to_owned() },
        PendingProviderIcon { provider: "modrinth".to_owned(), project_id: "b".to_owned(), bytes: Vec::new(), description: "B".to_owned() },
    ]);
    assert!(changed);
    assert_eq!(list.entries[0].icon_bytes, Some(vec![9]));
    assert!(list.entries[0].provider_icon);
    assert_eq!(list.entries[0].description, "A mod");
    assert_eq!(list.entries[1].description, "own");
    assert!(list.entries[1].icon_bytes.is_none());
}

#[test]
fn visible_provider_projects_are_sorted_and_unique() {
    let mut list = ContentListState::new();
    let mut rows = Vec::new();
    for (stem, provider, id) in [("a", "modrinth", "z"), ("b", "curseforge", "1"), ("c", "modrinth", "z"), ("d", "modrinth", "a")] {
        let mut r = row(stem, stem);
        r.provider_project = Some(project(provider, id, stem));
        rows.push(r);
    }
    list.set_entries(rows);
    let filtered = list.filtered_indices();
    let projects = list.visible_provider_projects(&filtered, 100, 0, 0);
    let keys: Vec<(String, String, String)> =
        projects.iter().map(|p| (p.provider.clone(), p.project_id.clone(), p.version_id.clone())).collect();
    assert_eq!(
        keys,
        vec![
            ("curseforge".to_owned(), "1".to_owned(), "b".to_owned()),
            ("modrinth".to_owned(), "a".to_owned(), "d".to_owned()),
            ("modrinth".to_owned(), "z".to_owned(), "a".to_owned()),
        ]
    );
    let first_only = list.visible_provider_projects(&filtered, 1, 0, 0);
    assert_eq!(first_only.len(), 1);
    assert_eq!(first_only[0].project_id, "z");
    let cut = list.visible_provider_projects(&filtered, 100, 0, 1);
    assert_eq!(cut.len(), 3);
    assert_eq!(cut[2].version_id, "c");
}

fn cell() -> IconCell {
    IconCell { symbol: ' ', fg: rmcl::model::Rgb { r: 0, g: 0, b: 0 }, bg: rmcl::model::Rgb { r: 0, g: 0, b: 0 } }
}

#[test]
fn image_loads_are_asked_once_per_stem_and_sized_square() {
    let mut list = ContentListState::new();
    let mut a = row("a", "mods/a.jar");
    a.icon_bytes = Some(vec![1, 2]);
    let b = row("b", "mods/b.jar");
    let mut c = row("c", "mods/c.jar");
    c.icon_bytes = Some(vec![3]);
    c.icon_lines = Some(vec![vec![cell()], vec![cell()]]);
    let mut again = row("a", "other/a.jar");
    again.icon_bytes = Some(vec![9]);
    list.set_entries(vec![a, b, c, again]);

    let requests = list.request_image_loads(true, (10, 20));
    assert_eq!(requests.len(), 2);
    assert_eq!(requests[0].file_stem, "a");
    assert_eq!(requests[0].path, "mods/a.jar");
    assert_eq!(requests[0].bytes, vec![1, 2]);
    assert_eq!(requests[0].rows, 3);
    assert_eq!(requests[0].columns, 6);
    assert_eq!(requests[1].file_stem, "c");
    assert_eq!(requests[1].rows, 2);
    assert_eq!(requests[1].columns, 4);
    assert!(list.requested_images.contains("a"));
    assert!(!list.requested_images.contains("b"));
    assert!(list.request_image_loads(true, (10, 20)).is_empty());
}

#[test]
fn decoded_images_reach_the_first_row_with_their_stem_and_path() {
    let mut list = ContentListState::new();
    list.set_entries(vec![row("a", "mods/a.jar"), row("a", "mods/a.jar"), row("b", "mods/b.jar")]);
    list.pending_entry_images.insert("a".to_owned());
    list.pending_entry_images.insert("b".to_owned());
    list.drain_image_loads(vec![
        PendingContentImage { file_stem: "a".to_owned(), path: "mods/a.jar".to_owned(), icon_lines: vec![vec![cell()]], has_image: true },
        PendingContentImage { file_stem: "b".to_owned(), path: "elsewhere/b.jar".to_owned(), icon_lines: vec![], has_image: true },
    ]);
    assert_eq!(list.entries[0].icon_lines.as_ref().unwrap().len(), 1);
    assert!(list.entries[1].icon_lines.is_none());
    assert!(list.entries[2].icon_lines.is_none());
    assert!(!list.pending_entry_images.contains("a"));
    assert!(list.pending_entry_images.contains("b"));
    assert!(list.ready_images.contains("a"));
    assert!(!list.ready_images.contains("b"));
}

#[test]
fn toggling_flips_the_selected_entry_and_takes_its_new_path() {
    let mut list = ContentListState::new();
    list.set_entries(vec![row("a", "mods/a.jar"), row("b", "mods/b.jar")]);
    list.list_state.selected = Some(1);
    list.toggle_selected(Some("mods/b.jar.disabled".to_owned()));
    assert!(!list.entries[1].enabled);
    assert_eq!(list.entries[1].path, "mods/b.jar.disabled");
    assert!(list.entries[0].enabled);
    list.toggle_selected(None);
    assert!(!list.entries[1].enabled);
    list.list_state.selected = Some(5);
    list.toggle_selected(Some("x".to_owned()));
    assert_eq!(list.entries[1].path, "mods/b.jar.disabled");
}

#[test]
fn list_keys_move_and_ask_to_toggle_only_when_enter_toggles() {
    let plain = |code| KeyEvent { code, modifiers: KeyModifiers { shift: false, control: false, alt: false } };
    let mut list = ContentListState::new();
    list.set_entries(vec![row("a", "mods/a.jar"), row("b", "mods/b.jar")]);
    assert!(handle_key(&plain(KeyCode::Char('j')), &mut list).handled);
    assert_eq!(list.list_state.selected, Some(1));
    assert!(handle_key(&plain(KeyCode::Down), &mut list).handled);
    assert_eq!(list.list_state.selected, Some(1));
    let out = handle_key(&plain(KeyCode::Enter), &mut list);
    assert!(out.handled);
    assert!(matches!(out.action, Some(ListAction::Toggle(1))));
    let out = handle_key_no_toggle(&plain(KeyCode::Enter), &mut list);
    assert!(!out.handled);
    assert!(out.action.is_none());
    let shift = KeyEvent { code: KeyCode::Enter, modifiers: KeyModifiers { shift: true, control: false, alt: false } };
    let out = handle_key_no_toggle(&shift, &mut list);
    assert!(matches!(out.action, Some(ListAction::OpenDirectory(ref d)) if d == "mods"));
    assert!(handle_key_no_toggle(&plain(KeyCode::Char('k')), &mut list).handled);
    assert_eq!(list.list_state.selected, Some(0));
}

#[test]
fn provider_metadata_is_asked_once_per_project_and_only_when_enabled() {
    let mut list = ContentListState::new();
    let mut a = row("a", "mods/a.jar");
    a.provider_project = Some(project("modrinth", "a", "1"));
    list.set_entries(vec![a]);
    let filtered = list.filtered_indices();
    assert!(list.request_visible_provider_icons(&filtered, 10, 0, 0).is_empty());
    list.enable_provider_icons("meta".to_owned());
    let first = list.request_visible_provider_icons(&filtered, 10, 0, 0);
    assert_eq!(first.len(), 1);
    assert_eq!(first[0].project_id, "a");
    assert!(list.request_visible_provider_icons(&filtered, 10, 0, 0).is_empty());
    let asked = list.request_provider_icons(&vec![
        project("modrinth", "a", "2"),
        project("curseforge", "a", "1"),
        project("curseforge", "a", "3"),
    ]);
    assert_eq!(asked.len(), 1);
    assert_eq!(asked[0].provider, "curseforge");
}

#[test]
fn returning_to_an_instance_restores_its_cached_rows_and_selection() {
    let mut list = ContentListState::new();
    assert!(list.start_load("A").is_some());
    list.set_entries(vec![row("a", "A/mods/a.jar"), row("b", "A/mods/b.jar")]);
    list.list_state.selected = Some(1);
    assert!(list.start_load("B").is_some());
    assert!(list.entries.is_empty());
    assert!(list.start_load("A").is_none());
    assert_eq!(list.entries.len(), 2);
    assert_eq!(list.entries[1].file_stem, "b");
    assert_eq!(list.list_state.selected, Some(1));
    assert!(!list.loading);
    assert_eq!(list.loaded_for.as_deref(), Some("A"));
}

#[test]
fn draining_streamed_rows_keeps_them_sorted_by_name() {
    let mut list = ContentListState::new();
    let mut stream = list.start_load("A").unwrap();
    for name in ["zeta", "Alpha", "mid"] {
        assert!(stream.send(row(name, &format!("mods/{name}.jar"))));
    }
    assert!(list.drain_pending());
    let names: Vec<&str> = list.entries.iter().map(|e| e.name.as_str()).collect();
    assert_eq!(names, vec!["Alpha", "mid", "zeta"]);
    assert!(!list.loading);
    assert_eq!(list.list_state.selected, Some(0));
    assert!(!list.drain_pending());
}

#[test]
fn search_rows_are_handed_in_order_until_the_list_is_gone() {
    let mut list = ContentListState::new();
    let mut stream = list.start_load("A").unwrap();
    let handed = stream_search_rows(&mut stream, vec![row("a", "x/a"), row("b", "x/b")], true);
    assert_eq!(handed, vec!["a".to_owned(), "b".to_owned()]);
    assert!(list.drain_pending());
    assert_eq!(list.entries.len(), 2);
    let _next = list.start_load("B");
    let handed = stream_search_rows(&mut stream, vec![row("c", "x/c"), row("d", "x/d")], false);
    assert_eq!(handed, vec!["c".to_owned()]);
    assert!(stream_search_rows(&mut stream, Vec::new(), true).is_empty());
}

#[test]
fn a_watcher_diff_waits_while_rows_stream_in() {
    let mut list = ContentListState::new();
    let stream = list.start_load("A").unwrap();
    let mut diff = Some(WatcherDiff { toggled: Vec::new(), removed: Vec::new(), added: vec![row("new", "mods/new.jar")] });
    let update = list.drain_watcher(&mut diff, 0, &Vec::new());
    assert!(update.toggles.is_empty());
    assert!(!update.requires_reconcile);
    assert!(diff.is_some());
    assert!(list.entries.is_empty());
    drop(stream);
    assert!(list.drain_pending());
    let update = list.drain_watcher(&mut diff, 0, &Vec::new());
    assert!(diff.is_none());
    assert!(update.requires_reconcile);
    assert_eq!(list.entries.len(), 1);
    assert_eq!(list.entries[0].file_stem, "new");
}

#[test]
fn each_send_hands_its_own_kind_of_update() {
    let mut list = ContentListState::new();
    let mut stream = list.start_load("A").unwrap();
    let mut icon_row = row("i", "mods/i.jar");
    icon_row.provider_icon = true;
    assert!(stream.send(row("a", "mods/a.jar")));
    assert!(stream.send(icon_row));
    assert!(stream.upsert(row("a", "mods/a2.jar")));
    assert!(stream.send_icon("i".to_owned(), "mods/i.jar".to_owned(), vec![1, 2]));
    assert!(stream.send_icon_unavailable("zz".to_owned(), "nowhere".to_owned()));
    assert!(stream.retain(vec!["a".to_owned(), "i".to_owned()]));
    assert!(list.drain_pending());
    assert_eq!(list.entries.len(), 2);
    let a = list.entries.iter().find(|e| e.file_stem == "a").unwrap();
    assert_eq!(a.path, "mods/a2.jar");
    let i = list.entries.iter().find(|e| e.file_stem == "i").unwrap();
    assert_eq!(i.icon_bytes, Some(vec![1, 2]));
}
