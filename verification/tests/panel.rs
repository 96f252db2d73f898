use rmcl::discovery::ContentMode;
use rmcl::model::{DependencyPlan, VersionInfo};
use rmcl::navigation::FocusedArea;
use rmcl::panel::{
    confirmation_loaders, confirmation_release_date, confirmation_values, discovery_version_label, footer, format_day,
    version_popup_height, world_picker_keybinds, FooterFlags,
};
use rmcl::tabs::{cycle_tab, mode_label, visible_tabs, ContentTab};

fn flags() -> FooterFlags {
    FooterFlags {
        discovery_unavailable: false,
        discovery_page_open: false,
        discovery_can_delete: false,
        world_datapacks_open: false,
        world_quick_play_supported: false,
        logs_viewer_focused: false,
        has_updates: false,
        can_change_version: false,
        instance_has_modpack: false,
        has_modpack_update: false,
    }
}

fn keys(binds: &[(&str, &str)]) -> Vec<String> {
    binds.iter().map(|(key, _)| key.to_string()).collect()
}

#[test]
fn installed_footer_drops_updates_and_versions_without_them_and_adds_back() {
    let binds = footer(FocusedArea::Content, ContentMode::Installed, ContentTab::Mods, flags());
    assert_eq!(keys(&binds), ["j/k", "⏎", "d", "Shift+⏎", "h/l", "/", "Tab", "Esc"]);
    assert_eq!(binds.last().unwrap().1, " back");

    let mut f = flags();
    f.has_updates = true;
    f.can_change_version = true;
    let binds = footer(FocusedArea::Content, ContentMode::Installed, ContentTab::Mods, f);
    assert_eq!(keys(&binds), ["j/k", "⏎", "v", "u", "d", "Shift+⏎", "h/l", "/", "Tab", "Esc"]);
}

#[test]
fn worlds_reserve_q_for_quick_launch_only_when_supported() {
    let binds = footer(FocusedArea::Content, ContentMode::Installed, ContentTab::Worlds, flags());
    assert!(!keys(&binds).contains(&"q".to_owned()));
    let mut f = flags();
    f.world_quick_play_supported = true;
    let binds = footer(FocusedArea::Content, ContentMode::Installed, ContentTab::Worlds, f);
    assert!(binds.contains(&("q", " quick launch")));
}

#[test]
fn footers_that_mention_esc_get_no_second_back() {
    let mut f = flags();
    f.world_datapacks_open = true;
    let binds = footer(FocusedArea::Content, ContentMode::Installed, ContentTab::Worlds, f);
    assert_eq!(binds.last().unwrap().0, "/");
    f.logs_viewer_focused = true;
    let binds = footer(FocusedArea::Content, ContentMode::Installed, ContentTab::Logs, f);
    assert_eq!(binds.iter().filter(|(key, _)| key.contains("Esc")).count(), 1);
}

#[test]
fn discovery_footer_follows_the_page_and_availability() {
    let mut f = flags();
    f.discovery_unavailable = true;
    let binds = footer(FocusedArea::Content, ContentMode::Discover, ContentTab::Mods, f);
    assert_eq!(keys(&binds), ["h/l", "Tab", "Esc"]);
    let mut f = flags();
    f.discovery_page_open = true;
    let binds = footer(FocusedArea::Content, ContentMode::Discover, ContentTab::Mods, f);
    assert_eq!(keys(&binds), ["j/k", "g/G", "v", "h", "Esc"]);
}

#[test]
fn instance_footer_offers_versions_and_updates_only_for_modpacks() {
    let binds = footer(FocusedArea::Instances, ContentMode::Installed, ContentTab::Mods, flags());
    assert_eq!(keys(&binds), ["l", "⏎", "Shift+⏎", "Esc", "a", "m", "d", "r", "/"]);
    let mut f = flags();
    f.instance_has_modpack = true;
    f.has_modpack_update = true;
    let binds = footer(FocusedArea::Instances, ContentMode::Installed, ContentTab::Mods, f);
    assert_eq!(binds.len(), 11);
    assert!(footer(FocusedArea::Settings, ContentMode::Installed, ContentTab::Mods, flags()).is_empty());
}

#[test]
fn world_picker_keybinds_need_a_world_to_move() {
    assert_eq!(world_picker_keybinds(true).len(), 4);
    assert_eq!(world_picker_keybinds(false), vec![("h", " back"), ("Esc", " close")]);
}

#[test]
fn version_popup_grows_with_the_confirmation() {
    assert_eq!(version_popup_height(false, None, true), 18);
    assert_eq!(version_popup_height(true, None, false), 6);
    assert_eq!(version_popup_height(true, None, true), 7);
    let plan = DependencyPlan {
        installs: vec!["Library".to_owned()],
        replacements: vec![("Other".to_owned(), "2.0".to_owned())],
        optional_dependencies: 1,
    };
    assert_eq!(version_popup_height(true, Some(&plan), true), 10);
}

#[test]
fn confirmation_texts() {
    assert_eq!(confirmation_values(&Vec::new()), "Unknown");
    assert_eq!(confirmation_values(&vec!["1.21.1".to_owned(), "1.21".to_owned()]), "1.21.1, 1.21");
    assert_eq!(
        confirmation_loaders(&vec!["fabric".to_owned(), "neoforge".to_owned(), "iris".to_owned()]),
        "Fabric, NeoForge, iris"
    );
    assert_eq!(confirmation_loaders(&Vec::new()), "Unknown");
}

#[test]
fn release_dates_show_the_day() {
    assert_eq!(confirmation_release_date(""), "Unknown");
    assert_eq!(confirmation_release_date("2026-01-02T12:00:00Z"), "2026-01-02");
    assert_eq!(confirmation_release_date("2026-01-02T23:30:00-05:00"), "2026-01-02");
    assert_eq!(confirmation_release_date("soon"), "soon");
}

#[test]
fn version_label_is_the_version_number() {
    let version = VersionInfo {
        id: "abc".to_owned(),
        project_id: "p".to_owned(),
        name: "Release".to_owned(),
        version_number: "1.2.3".to_owned(),
        game_versions: Vec::new(),
        loaders: Vec::new(),
        date_published: String::new(),
    };
    assert_eq!(discovery_version_label(&version), "1.2.3");
}

#[test]
fn tabs_cycle_within_the_mode() {
    let discovery = visible_tabs(ContentMode::Discover);
    assert_eq!(cycle_tab(ContentTab::DataPacks, &discovery, true), ContentTab::Mods);
    assert_eq!(cycle_tab(ContentTab::Logs, &discovery, true), ContentTab::ResourcePacks);
    assert_eq!(ContentTab::Worlds.next_for_mode(ContentMode::Discover), ContentTab::ResourcePacks);
    assert_eq!(ContentTab::Mods.previous(), ContentTab::Logs);
    assert_eq!(ContentTab::Logs.next(), ContentTab::Mods);
    assert_eq!(ContentTab::Mods.next().previous(), ContentTab::Mods);
    assert_eq!(ContentTab::Screenshots.index(), 3);
    assert_eq!(ContentTab::DataPacks.index(), 0);
    assert_eq!(mode_label(ContentMode::Discover), " Discovery ");
}

#[test]
fn downloadable_tabs_know_their_directories() {
    let mods = ContentTab::Mods.downloadable().unwrap();
    assert_eq!(mods.directory, "mods");
    assert_eq!(mods.extension, ".jar");
    assert_eq!(ContentTab::Shaders.downloadable().unwrap().directory, "shaderpacks");
    assert!(ContentTab::Worlds.downloadable().is_none());
}

#[test]
fn dates_are_written_as_year_month_day() {
    assert_eq!(format_day(2024, 3, 5), "2024-03-05");
    assert_eq!(format_day(7, 1, 1), "0007-01-01");
    assert_eq!(format_day(-1, 12, 31), "-0001-12-31");
    assert_eq!(format_day(12345, 10, 9), "+12345-10-09");
    assert_eq!(confirmation_release_date("2026-01-02T23:30:00-05:00"), "2026-01-02");
    assert_eq!(confirmation_release_date("not a date"), "not a date");
}
