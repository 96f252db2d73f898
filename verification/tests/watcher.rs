use rmcl::watcher::{
    diff_directory, diff_event_paths, merge_watcher_diff, opposite_toggle_path, parse_enabled_stem_dir,
    watched_stem, watcher_diff, KnownFiles, WatcherDiff,
};

fn files(items: &[(&str, &str, bool)]) -> KnownFiles {
    items.iter().map(|(stem, path, enabled)| (stem.to_string(), (path.to_string(), *enabled))).collect()
}

#[test]
fn content_file_names_give_stem_and_state() {
    assert_eq!(watched_stem("sodium.jar", false, ".jar"), Some(("sodium".to_owned(), true)));
    assert_eq!(watched_stem("sodium.jar.disabled", false, ".jar"), Some(("sodium".to_owned(), false)));
    assert_eq!(watched_stem("notes.txt", false, ".jar"), None);
    assert_eq!(watched_stem("World.disabled", true, ""), Some(("World".to_owned(), false)));
    assert_eq!(parse_enabled_stem_dir("World"), (true, "World".to_owned()));
}

#[test]
fn toggling_a_path_adds_or_drops_the_disabled_suffix() {
    assert_eq!(opposite_toggle_path("mods/sodium.jar", true), "mods/sodium.jar.disabled");
    assert_eq!(opposite_toggle_path("mods/sodium.jar.disabled", false), "mods/sodium.jar");
}

#[test]
fn directory_diff_reports_toggles_removals_and_new_files() {
    let mut known = files(&[("a", "mods/a.jar", true), ("b", "mods/b.jar", true)]);
    let on_disk = files(&[("a", "mods/a.jar.disabled", false), ("c", "mods/c.jar", true)]);
    let plan = diff_directory(&mut known, on_disk, true);
    assert_eq!(plan.toggled, vec![("a".to_owned(), false, "mods/a.jar.disabled".to_owned())]);
    assert_eq!(plan.removed, vec!["b".to_owned()]);
    assert_eq!(plan.to_scan, vec![("mods/c.jar".to_owned(), "c".to_owned(), true)]);
    assert_eq!(known.len(), 2);

    let mut known = files(&[]);
    let plan = diff_directory(&mut known, files(&[("d", "mods/d.jar", true)]), false);
    assert!(plan.to_scan.is_empty());
}

#[test]
fn event_paths_follow_renames_within_the_directory() {
    let mut known = files(&[("a", "mods/a.jar", true)]);
    let events = vec![
        ("mods/a.jar.disabled".to_owned(), true, false),
        ("mods/a.jar".to_owned(), false, false),
        ("mods/readme.txt".to_owned(), true, false),
        ("other/b.jar".to_owned(), true, false),
    ];
    let plan = diff_event_paths("mods", events, ".jar", &mut known, true);
    assert_eq!(plan.toggled, vec![("a".to_owned(), false, "mods/a.jar.disabled".to_owned())]);
    assert!(plan.removed.is_empty());
    assert!(plan.to_scan.is_empty());

    let mut known = files(&[("a", "mods/a.jar", true)]);
    let events = vec![("mods/a.jar".to_owned(), false, false), ("mods/a.jar.disabled".to_owned(), true, false)];
    let plan = diff_event_paths("mods", events, ".jar", &mut known, true);
    assert!(plan.toggled.is_empty());
    assert_eq!(plan.removed, vec!["a".to_owned()]);
    assert_eq!(plan.to_scan, vec![("mods/a.jar.disabled".to_owned(), "a".to_owned(), false)]);
}

#[test]
fn watcher_diffs_are_only_made_for_changes_and_merge_keeping_the_last() {
    assert!(watcher_diff(Vec::new(), Vec::new(), Vec::new()).is_none());
    let mut pending = watcher_diff(vec![("a".to_owned(), false, "mods/a.jar.disabled".to_owned())], Vec::new(), Vec::new())
        .unwrap();
    merge_watcher_diff(
        &mut pending,
        WatcherDiff {
            toggled: vec![("a".to_owned(), true, "mods/a.jar".to_owned())],
            removed: vec!["b".to_owned()],
            added: Vec::new(),
        },
    );
    assert_eq!(pending.toggled, vec![("a".to_owned(), true, "mods/a.jar".to_owned())]);
    assert_eq!(pending.removed, vec!["b".to_owned()]);
}
