use rmcl::path::{join, strip_dir};
use rmcl::install::{install_destination, installed_file, InstalledFile};
use rmcl::model::ContentKind;

#[test]
fn content_goes_into_the_directory_of_its_kind() {
    assert_eq!(install_destination(ContentKind::Mod, "mc", None), Ok("mc/mods".to_owned()));
    assert_eq!(install_destination(ContentKind::ResourcePack, "mc", Some("mc/saves/w")), Ok("mc/resourcepacks".to_owned()));
    assert_eq!(install_destination(ContentKind::Shader, "/home/u/.minecraft", None), Ok("/home/u/.minecraft/shaderpacks".to_owned()));
}

#[test]
fn a_data_pack_goes_into_its_world_below_saves() {
    assert_eq!(install_destination(ContentKind::DataPack, "mc", Some("mc/saves/w")), Ok("mc/saves/w/datapacks".to_owned()));
    let refused = Err("Invalid datapack target world".to_owned());
    assert_eq!(install_destination(ContentKind::DataPack, "mc", Some("elsewhere/w")), refused);
    assert_eq!(install_destination(ContentKind::DataPack, "mc", Some("mc/savesx/w")), refused);
    assert_eq!(install_destination(ContentKind::DataPack, "mc", None), refused);
}

#[test]
fn a_first_install_records_the_file_below_the_game_directory() {
    let f = installed_file("mc", "mc/mods/sodium.jar", None, false);
    assert_eq!(f, Some(InstalledFile {
        relative_path: "mods/sodium.jar".to_owned(),
        enabled: true,
        replaced: false,
        forget: None,
        delete: None,
    }));
}

#[test]
fn a_disabled_file_is_recorded_disabled() {
    let f = installed_file("mc", "mc/mods/sodium.jar.disabled", None, true).unwrap();
    assert!(!f.enabled);
    assert!(!f.replaced);
}

#[test]
fn a_new_version_replaces_and_removes_the_old_file() {
    let f = installed_file("mc", "mc/mods/sodium-2.jar", Some("mc/mods/sodium-1.jar"), false).unwrap();
    assert_eq!(f.relative_path, "mods/sodium-2.jar");
    assert!(f.replaced);
    assert_eq!(f.forget, Some("mods/sodium-1.jar".to_owned()));
    assert_eq!(f.delete, Some("mc/mods/sodium-1.jar".to_owned()));
}

#[test]
fn a_skipped_download_keeps_the_old_file_on_disk() {
    let f = installed_file("mc", "mc/mods/sodium-2.jar", Some("mc/mods/sodium-1.jar"), true).unwrap();
    assert!(!f.replaced);
    assert_eq!(f.forget, Some("mods/sodium-1.jar".to_owned()));
    assert_eq!(f.delete, None);
}

#[test]
fn the_same_path_is_neither_forgotten_nor_deleted() {
    let f = installed_file("mc", "mc/mods/a.jar", Some("mc/mods/a.jar"), false).unwrap();
    assert!(f.replaced);
    assert_eq!(f.forget, None);
    assert_eq!(f.delete, None);
}

#[test]
fn a_file_outside_the_game_directory_is_refused() {
    assert_eq!(installed_file("mc", "other/mods/a.jar", None, false), None);
}

#[test]
fn joining_follows_path_pushing() {
    assert_eq!(join("mc", "mods"), "mc/mods");
    assert_eq!(join("mc/", "mods"), "mc/mods");
    assert_eq!(join("mc", "/abs/mods"), "/abs/mods");
    assert_eq!(join("", "mods"), "mods");
    assert_eq!(strip_dir("mc/mods/a.jar", "mc/"), Some("mods/a.jar".to_owned()));
    assert_eq!(strip_dir("mc/mods/a.jar", "mc"), Some("mods/a.jar".to_owned()));
    assert_eq!(strip_dir("mcx/mods", "mc"), None);
    assert_eq!(strip_dir("mc", "mc"), Some(String::new()));
}

#[test]
fn a_game_directory_with_a_trailing_slash_installs_alike() {
    assert_eq!(install_destination(ContentKind::Mod, "mc/", None), Ok("mc/mods".to_owned()));
    assert_eq!(installed_file("mc/", "mc/mods/a.jar", None, false).unwrap().relative_path, "mods/a.jar");
}
