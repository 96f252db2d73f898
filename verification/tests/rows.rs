use rmcl::list::Rect;
use rmcl::model::{ContentEntry, WorldDetails};
use rmcl::rows::{
    available_description_width, description_text_width, display_metadata, ellipsize, ellipsize_by_widths,
    pager_pages, pagination_layout, square_icon_columns, strip_mc_codes, world_descriptions,
};
use rmcl::mctext::{mc_color, parse_mc_text, McStyle};
use rmcl::model::Rgb;
use rmcl::watcher::{watcher_event_handling, WatchEventKind, WatcherEventHandling};

#[test]
fn pager_shows_the_first_pages_then_a_window() {
    assert!(pager_pages(0, 0).is_empty());
    assert_eq!(pager_pages(0, 2), vec![Some(0), Some(1)]);
    assert_eq!(pager_pages(2, 10), vec![Some(0), Some(1), Some(2), Some(3)]);
    assert_eq!(pager_pages(5, 10), vec![Some(0), None, Some(4), Some(5), Some(6)]);
    assert_eq!(pager_pages(3, 10), vec![Some(0), None, Some(2), Some(3), Some(4)]);
    assert_eq!(pager_pages(3, 4), vec![Some(0), Some(1), Some(2), Some(3)]);
    assert_eq!(pager_pages(99, 10), vec![Some(0), None, Some(7), Some(8), Some(9)]);
}

#[test]
fn pager_appears_only_for_lists_longer_than_the_area() {
    let area = Rect { x: 0, y: 0, width: 40, height: 12 };
    assert_eq!(pagination_layout(area, 4), (area, None));
    let (_, pager) = pagination_layout(area, 5);
    assert_eq!(pager, Some((Rect { x: 0, y: 11, width: 40, height: 1 }, 4)));
}

#[test]
fn formatting_codes_are_stripped() {
    assert_eq!(strip_mc_codes("§aGreen§r text§"), "Green text");
    assert_eq!(strip_mc_codes("plain"), "plain");
}

#[test]
fn display_metadata_trims_and_notes_a_description() {
    let mut entry = ContentEntry {
        file_stem: "x".to_owned(),
        name: "X".to_owned(),
        source_slug: None,
        installed_path: None,
        provider_project: None,
        world_details: None,
        title_suffix: None,
        footer_label: None,
        footer_change: None,
        description: "  §6Hello  ".to_owned(),
        enabled: true,
        icon_bytes: None,
        provider_icon: false,
        provider_description: false,
        path: "x".to_owned(),
        icon_lines: None,
    };
    let metadata = display_metadata(&entry);
    assert_eq!(metadata.description, "Hello");
    assert!(metadata.has_description);
    entry.description = " §l ".to_owned();
    assert!(!display_metadata(&entry).has_description);
}

#[test]
fn world_descriptions_list_three_datapacks_and_the_rest() {
    let details = WorldDetails {
        minecraft_version: Some("1.21.1".to_owned()),
        size: Some("12 MB".to_owned()),
        datapacks: vec!["a".to_owned(), "b".to_owned(), "c".to_owned(), "d".to_owned(), "e".to_owned()],
        game_mode: None,
    };
    assert_eq!(
        world_descriptions(&details),
        ["1.21.1  •  12 MB", "  • a", "  • b", "  • c", "  +2 more"]
    );
    let bare = WorldDetails { minecraft_version: None, size: None, datapacks: Vec::new(), game_mode: None };
    assert!(world_descriptions(&bare).is_empty());
}

#[test]
fn description_widths_leave_room_for_icons_and_footers() {
    assert_eq!(available_description_width(40, 6, true), 31);
    assert_eq!(available_description_width(40, 6, false), 38);
    assert_eq!(available_description_width(3, 6, true), 0);
    assert_eq!(description_text_width(31, 10, true), 20);
    assert_eq!(description_text_width(31, 10, false), 21);
    assert_eq!(description_text_width(31, 0, true), 31);
}

#[test]
fn image_icons_stay_square() {
    assert_eq!(square_icon_columns(3, (8, 16)), 6);
    assert_eq!(square_icon_columns(3, (0, 0)), 3);
    assert_eq!(square_icon_columns(0, (8, 16)), 1);
}

#[test]
fn watcher_events_are_sorted_by_kind() {
    assert_eq!(watcher_event_handling(WatchEventKind::Access), WatcherEventHandling::Ignore);
    assert_eq!(watcher_event_handling(WatchEventKind::Create), WatcherEventHandling::Paths);
    assert_eq!(watcher_event_handling(WatchEventKind::ModifyName), WatcherEventHandling::Rescan);
    assert_eq!(watcher_event_handling(WatchEventKind::Other), WatcherEventHandling::Rescan);
}

#[test]
fn long_titles_are_cut_before_three_dots() {
    assert_eq!(ellipsize("Hello world", 20), "Hello world");
    assert_eq!(ellipsize("Hello world", 11), "Hello world");
    assert_eq!(ellipsize("Hello world", 8), "Hello...");
    assert_eq!(ellipsize("abc   defg", 9), "abc...");
    assert_eq!(ellipsize("Hello world", 3), "...");
    assert_eq!(ellipsize("Hello world", 2), "..");
    assert_eq!(ellipsize("Hello world", 0), "");
    assert_eq!(ellipsize("\u{65e5}\u{672c}\u{8a9e}\u{30c6}\u{30ad}\u{30b9}\u{30c8}", 7), "\u{65e5}\u{672c}...");
}

#[test]
fn cutting_follows_the_given_prefix_widths() {
    assert_eq!(ellipsize_by_widths("abcd", 6, &vec![0, 3, 6, 9, 12]), "a...");
    assert_eq!(ellipsize_by_widths("abcd", 12, &vec![0, 3, 6, 9, 12]), "abcd");
    assert_eq!(ellipsize_by_widths("abcd", 5, &vec![0, 2, 2, 9, 12]), "ab...");
    assert_eq!(ellipsize_by_widths("abcd", 4, &vec![0, 2, 2, 9, 12]), "...");
}

fn style(color: Option<Rgb>, bold: bool) -> McStyle {
    McStyle { color, bold, crossed_out: false, underlined: false, italic: false }
}

#[test]
fn formatting_codes_split_text_into_styled_runs() {
    let green = Some(Rgb { r: 0x55, g: 0xFF, b: 0x55 });
    let runs = parse_mc_text("\u{a7}aGreen \u{a7}lbold\u{a7}r plain");
    assert_eq!(runs.len(), 3);
    assert_eq!(runs[0].text, "Green ");
    assert_eq!(runs[0].style, style(green, false));
    assert_eq!(runs[1].text, "bold");
    assert_eq!(runs[1].style, style(green, true));
    assert_eq!(runs[2].text, " plain");
    assert_eq!(runs[2].style, style(None, false));

    let runs = parse_mc_text("\u{a7}l\u{a7}cred");
    assert_eq!(runs.len(), 1);
    assert_eq!(runs[0].style, style(Some(Rgb { r: 0xFF, g: 0x55, b: 0x55 }), false));

    let runs = parse_mc_text("a\u{a7}");
    assert_eq!(runs.len(), 1);
    assert_eq!(runs[0].text, "a\u{a7}");
    assert!(parse_mc_text("\u{a7}\u{a7}").is_empty());
    let runs = parse_mc_text("\u{a7}zx\u{a7}oy");
    assert_eq!(runs[0].text, "x");
    assert_eq!(runs[0].style, style(None, false));
    assert!(runs[1].style.italic);
}

#[test]
fn colour_codes_name_the_sixteen_colours() {
    assert_eq!(mc_color('0'), Some(Rgb { r: 0, g: 0, b: 0 }));
    assert_eq!(mc_color('6'), Some(Rgb { r: 0xFF, g: 0xAA, b: 0x00 }));
    assert_eq!(mc_color('F'), Some(Rgb { r: 0xFF, g: 0xFF, b: 0xFF }));
    assert_eq!(mc_color('l'), None);
}

#[test]
fn whitespace_is_what_std_calls_whitespace() {
    for v in 0u32..=0x10FFFF {
        if let Some(c) = char::from_u32(v) {
            let text = c.to_string();
            assert_eq!(rmcl::text::trim(&text).is_empty(), c.is_whitespace(), "U+{v:04X}");
        }
    }
}
