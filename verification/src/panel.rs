//! What the content panel draws besides its rows: the keybind footer for the
//! focused area, the keybinds of the world picker, the height of the version
//! popup and the texts of the install confirmation.

use vstd::prelude::*;
use chrono::Datelike;
use crate::discovery::ContentMode;
use crate::navigation::FocusedArea;
use crate::tabs::ContentTab;
use crate::discovery::VersionPopupState;
use crate::model::{DependencyPlan, VersionInfo};
use crate::text::{contains_seq, contains_str, decimal, decimal_string, str_eq};

verus! {

/// What the footer depends on besides the focus, the mode and the tab.
#[derive(Clone, Copy, Debug)]
pub struct FooterFlags {
    /// Discovery is not offered for this instance and tab.
    pub discovery_unavailable: bool,
    /// A project page is open over the discovery list.
    pub discovery_page_open: bool,
    /// The selected discovery row is installed and can be deleted.
    pub discovery_can_delete: bool,
    /// The datapacks of a world are open on the worlds tab.
    pub world_datapacks_open: bool,
    /// Quick Play into a world is supported by the instance.
    pub world_quick_play_supported: bool,
    /// The log viewer (not the log list) has the focus.
    pub logs_viewer_focused: bool,
    /// Some row of the current list offers an update.
    pub has_updates: bool,
    /// The selected row names a provider project.
    pub can_change_version: bool,
    /// The selected instance was installed from a modpack.
    pub instance_has_modpack: bool,
    /// A newer version of the selected instance's modpack is known.
    pub has_modpack_update: bool,
}

/// The keybinds of the content area for a mode and tab, before any is dropped.
pub open spec fn content_table(mode: ContentMode, tab: ContentTab, f: FooterFlags) -> Seq<(&'static str, &'static str)> {
    match mode {
        ContentMode::Discover => if f.discovery_unavailable {
            seq![("h/l", " tabs"), ("Tab", " installed")]
        } else if f.discovery_page_open {
            seq![("j/k", " scroll"), ("g/G", " top/bottom"), ("v", " versions"), ("h", " back")]
        } else if f.discovery_can_delete {
            seq![
                ("j/k", " navigate"),
                (" [/] ", " pages"),
                ("Enter", " view"),
                ("v", " versions"),
                ("d", " delete"),
                ("h/l", " tabs"),
                ("/", " search"),
                ("Tab", " installed"),
            ]
        } else {
            seq![
                ("j/k", " navigate"),
                (" [/] ", " pages"),
                ("Enter", " view"),
                ("v", " versions"),
                ("h/l", " tabs"),
                ("/", " search"),
                ("Tab", " installed"),
            ]
        },
        ContentMode::Installed => match tab {
            ContentTab::Mods | ContentTab::ResourcePacks | ContentTab::Shaders => seq![
                ("j/k", " navigate"),
                ("⏎", " toggle"),
                ("v", " versions"),
                ("u", " update all"),
                ("d", " delete"),
                ("Shift+⏎", " open dir"),
                ("h/l", " tabs"),
                ("/", " search"),
                ("Tab", " discovery"),
            ],
            ContentTab::Worlds => if f.world_datapacks_open {
                seq![
                    ("j/k", " navigate"),
                    ("v", " versions"),
                    ("u", " update all"),
                    ("d", " delete"),
                    ("Shift+Enter", " open dir"),
                    ("h/Esc", " back"),
                    ("/", " search"),
                ]
            } else if f.world_quick_play_supported {
                seq![
                    ("j/k", " navigate"),
                    ("Enter", " datapacks"),
                    ("q", " quick launch"),
                    ("d", " delete"),
                    ("Shift+⏎", " open dir"),
                    ("h/l", " tabs"),
                    ("/", " search"),
                    ("Tab", " discovery"),
                ]
            } else {
                seq![
                    ("j/k", " navigate"),
                    ("Enter", " datapacks"),
                    ("d", " delete"),
                    ("Shift+⏎", " open dir"),
                    ("h/l", " tabs"),
                    ("/", " search"),
                    ("Tab", " discovery"),
                ]
            },
            ContentTab::DataPacks => seq![],
            ContentTab::Screenshots => seq![
                ("Shift+HJKL", " grid"),
                ("⏎", " open"),
                ("d", " delete"),
                ("Shift+⏎", " open dir"),
                ("h/l", " tabs"),
                ("/", " search"),
                ("Tab", " discovery"),
            ],
            ContentTab::Logs => if f.logs_viewer_focused {
                seq![
                    ("j/k", " scroll"),
                    ("g/G", " top/bottom"),
                    ("d", " delete"),
                    ("Esc", " back"),
                    ("/", " search"),
                    ("Tab", " discovery"),
                ]
            } else {
                seq![
                    ("j/k", " navigate"),
                    ("⏎", " view"),
                    ("d", " delete"),
                    ("h/l", " tabs"),
                    ("/", " search"),
                    ("Tab", " discovery"),
                ]
            },
        },
    }
}

/// The keybinds of the instance list, before any is dropped.
pub open spec fn instances_table() -> Seq<(&'static str, &'static str)> {
    seq![
        ("l", " launch"),
        ("⏎", " content"),
        ("v", " versions"),
        ("Shift+⏎", " open dir"),
        ("Esc", " kill"),
        ("a", " add"),
        ("m", " modpacks"),
        ("u", " update"),
        ("d", " delete"),
        ("r", " rename"),
        ("/", " search"),
    ]
}

/// The keybinds of the focused area before any is dropped; other areas show none.
pub open spec fn base_keybinds(focused: FocusedArea, mode: ContentMode, tab: ContentTab, f: FooterFlags)
    -> Seq<(&'static str, &'static str)>
{
    if focused == FocusedArea::Content {
        content_table(mode, tab, f)
    } else if focused == FocusedArea::Instances {
        instances_table()
    } else {
        seq![]
    }
}

/// A keybind with this key is left out: updates and versions are only offered
/// where there is something to update or a project to change.
pub open spec fn dropped_key(focused: FocusedArea, mode: ContentMode, f: FooterFlags, key: Seq<char>) -> bool {
    ||| focused == FocusedArea::Content && mode == ContentMode::Installed && !f.has_updates && key == "u"@
    ||| focused == FocusedArea::Content && mode == ContentMode::Installed && !f.can_change_version && key == "v"@
    ||| focused == FocusedArea::Instances && !f.instance_has_modpack && key == "v"@
    ||| focused == FocusedArea::Instances && !f.has_modpack_update && key == "u"@
}

/// The keybinds of `s` that are not dropped, in their order.
pub open spec fn kept_keybinds(s: Seq<(&'static str, &'static str)>, focused: FocusedArea, mode: ContentMode, f: FooterFlags)
    -> Seq<(&'static str, &'static str)>
    decreases s.len(),
{
    if s.len() == 0 {
        s
    } else {
        let rest = kept_keybinds(s.drop_last(), focused, mode, f);
        if dropped_key(focused, mode, f, s.last().0@) {
            rest
        } else {
            rest.push(s.last())
        }
    }
}

/// Some key of `s` mentions Esc.
pub open spec fn mentions_esc(s: Seq<(&'static str, &'static str)>) -> bool {
    exists|i: int| 0 <= i < s.len() && contains_seq(#[trigger] s[i].0@, "Esc"@)
}

/// The footer of the focused area: the kept keybinds, and in the content area a
/// way back with Esc when no key mentions it.
pub open spec fn footer_keybinds(focused: FocusedArea, mode: ContentMode, tab: ContentTab, f: FooterFlags)
    -> Seq<(&'static str, &'static str)>
{
    let kept = kept_keybinds(base_keybinds(focused, mode, tab, f), focused, mode, f);
    if focused == FocusedArea::Content && !mentions_esc(kept) {
        kept.push(("Esc", " back"))
    } else {
        kept
    }
}

fn content_table_exec(mode: ContentMode, tab: ContentTab, f: FooterFlags) -> (r: Vec<(&'static str, &'static str)>)
    ensures
        r@ == content_table(mode, tab, f),
{
    match mode {
        ContentMode::Discover => if f.discovery_unavailable {
            vec![("h/l", " tabs"), ("Tab", " installed")]
        } else if f.discovery_page_open {
            vec![("j/k", " scroll"), ("g/G", " top/bottom"), ("v", " versions"), ("h", " back")]
        } else if f.discovery_can_delete {
            vec![
                ("j/k", " navigate"),
                (" [/] ", " pages"),
                ("Enter", " view"),
                ("v", " versions"),
                ("d", " delete"),
                ("h/l", " tabs"),
                ("/", " search"),
                ("Tab", " installed"),
            ]
        } else {
            vec![
                ("j/k", " navigate"),
                (" [/] ", " pages"),
                ("Enter", " view"),
                ("v", " versions"),
                ("h/l", " tabs"),
                ("/", " search"),
                ("Tab", " installed"),
            ]
        },
        ContentMode::Installed => match tab {
            ContentTab::Mods | ContentTab::ResourcePacks | ContentTab::Shaders => vec![
                ("j/k", " navigate"),
                ("⏎", " toggle"),
                ("v", " versions"),
                ("u", " update all"),
                ("d", " delete"),
                ("Shift+⏎", " open dir"),
                ("h/l", " tabs"),
                ("/", " search"),
                ("Tab", " discovery"),
            ],
            ContentTab::Worlds => if f.world_datapacks_open {
                vec![
                    ("j/k", " navigate"),
                    ("v", " versions"),
                    ("u", " update all"),
                    ("d", " delete"),
                    ("Shift+Enter", " open dir"),
                    ("h/Esc", " back"),
                    ("/", " search"),
                ]
            } else if f.world_quick_play_supported {
                vec![
                    ("j/k", " navigate"),
                    ("Enter", " datapacks"),
                    ("q", " quick launch"),
                    ("d", " delete"),
                    ("Shift+⏎", " open dir"),
                    ("h/l", " tabs"),
                    ("/", " search"),
                    ("Tab", " discovery"),
                ]
            } else {
                vec![
                    ("j/k", " navigate"),
                    ("Enter", " datapacks"),
                    ("d", " delete"),
                    ("Shift+⏎", " open dir"),
                    ("h/l", " tabs"),
                    ("/", " search"),
                    ("Tab", " discovery"),
                ]
            },
            ContentTab::DataPacks => vec![],
            ContentTab::Screenshots => vec![
                ("Shift+HJKL", " grid"),
                ("⏎", " open"),
                ("d", " delete"),
                ("Shift+⏎", " open dir"),
                ("h/l", " tabs"),
                ("/", " search"),
                ("Tab", " discovery"),
            ],
            ContentTab::Logs => if f.logs_viewer_focused {
                vec![
                    ("j/k", " scroll"),
                    ("g/G", " top/bottom"),
                    ("d", " delete"),
                    ("Esc", " back"),
                    ("/", " search"),
                    ("Tab", " discovery"),
                ]
            } else {
                vec![
                    ("j/k", " navigate"),
                    ("⏎", " view"),
                    ("d", " delete"),
                    ("h/l", " tabs"),
                    ("/", " search"),
                    ("Tab", " discovery"),
                ]
            },
        },
    }
}

fn base_keybinds_exec(focused: FocusedArea, mode: ContentMode, tab: ContentTab, f: FooterFlags)
    -> (r: Vec<(&'static str, &'static str)>)
    ensures
        r@ == base_keybinds(focused, mode, tab, f),
{
    if focused == FocusedArea::Content {
        content_table_exec(mode, tab, f)
    } else if focused == FocusedArea::Instances {
        vec![
            ("l", " launch"),
            ("⏎", " content"),
            ("v", " versions"),
            ("Shift+⏎", " open dir"),
            ("Esc", " kill"),
            ("a", " add"),
            ("m", " modpacks"),
            ("u", " update"),
            ("d", " delete"),
            ("r", " rename"),
            ("/", " search"),
        ]
    } else {
        vec![]
    }
}

fn is_dropped(focused: FocusedArea, mode: ContentMode, f: FooterFlags, key: &str) -> (r: bool)
    ensures
        r == dropped_key(focused, mode, f, key@),
{
    let is_u = str_eq(key, "u");
    let is_v = str_eq(key, "v");
    let content_installed = focused == FocusedArea::Content && mode == ContentMode::Installed;
    let instances = focused == FocusedArea::Instances;
    (content_installed && !f.has_updates && is_u) || (content_installed && !f.can_change_version && is_v)
        || (instances && !f.instance_has_modpack && is_v) || (instances && !f.has_modpack_update && is_u)
}

/// The keybinds shown in the footer of the focused area, in order.
pub fn footer(focused: FocusedArea, mode: ContentMode, tab: ContentTab, f: FooterFlags)
    -> (r: Vec<(&'static str, &'static str)>)
    ensures
        r@ == footer_keybinds(focused, mode, tab, f),
{
    let base = base_keybinds_exec(focused, mode, tab, f);
    let mut kept: Vec<(&'static str, &'static str)> = Vec::new();
    let mut i: usize = 0;
    while i < base.len()
        invariant
            i <= base@.len(),
            kept@ == kept_keybinds(base@.take(i as int), focused, mode, f),
        decreases base@.len() - i,
    {
        let item = base[i];
        assert(base@.take(i as int + 1).drop_last() =~= base@.take(i as int));
        assert(base@.take(i as int + 1).last() == item);
        if !is_dropped(focused, mode, f, item.0) {
            kept.push(item);
        }
        i = i + 1;
    }
    assert(base@.take(base@.len() as int) =~= base@);
    if focused == FocusedArea::Content {
        let mut found = false;
        let mut j: usize = 0;
        while j < kept.len()
            invariant
                j <= kept@.len(),
                found <==> exists|k: int| 0 <= k < j && contains_seq(#[trigger] kept@[k].0@, "Esc"@),
            decreases kept@.len() - j,
        {
            if contains_str(kept[j].0, "Esc") {
                found = true;
            }
            j = j + 1;
        }
        if !found {
            kept.push(("Esc", " back"));
        }
    }
    kept
}

/// The keybinds of the world picker: moving and continuing need a world.
pub open spec fn world_picker_table(has_worlds: bool) -> Seq<(&'static str, &'static str)> {
    if has_worlds {
        seq![("j/k", " navigate"), ("Enter", " continue"), ("h", " back"), ("Esc", " close")]
    } else {
        seq![("h", " back"), ("Esc", " close")]
    }
}

/// The keybinds shown under the world picker.
pub fn world_picker_keybinds(has_worlds: bool) -> (r: Vec<(&'static str, &'static str)>)
    ensures
        r@ == world_picker_table(has_worlds),
{
    if has_worlds {
        vec![("j/k", " navigate"), ("Enter", " continue"), ("h", " back"), ("Esc", " close")]
    } else {
        vec![("h", " back"), ("Esc", " close")]
    }
}

/// The height of the version popup while choosing a version.
pub const VERSION_POPUP_HEIGHT: u16 = 18;

/// The height of the version popup: fixed while choosing, and while confirming
/// one row more for a target world and for each non-empty dependency section.
pub fn version_popup_height(confirming: bool, plan: Option<&crate::model::DependencyPlan>, has_world: bool) -> (r: u16)
    ensures
        r == (if !confirming {
            VERSION_POPUP_HEIGHT as int
        } else {
            6 + (if has_world { 1int } else { 0 }) + match plan {
                None => 0int,
                Some(p) => (if p.installs@.len() > 0 { 1int } else { 0 })
                    + (if p.replacements@.len() > 0 { 1int } else { 0 })
                    + (if p.optional_dependencies > 0 { 1int } else { 0 }),
            }
        }),
{
    if !confirming {
        return VERSION_POPUP_HEIGHT;
    }
    let world: u16 = if has_world { 1 } else { 0 };
    match plan {
        None => 6 + world,
        Some(p) => {
            let installs: u16 = if p.installs.len() > 0 { 1 } else { 0 };
            let replacements: u16 = if p.replacements.len() > 0 { 1 } else { 0 };
            let optional: u16 = if p.optional_dependencies > 0 { 1 } else { 0 };
            6 + world + installs + replacements + optional
        },
    }
}

/// `values` joined with `sep` between neighbours.
pub open spec fn join_with(values: Seq<Seq<char>>, sep: Seq<char>) -> Seq<char>
    decreases values.len(),
{
    if values.len() == 0 {
        seq![]
    } else if values.len() == 1 {
        values[0]
    } else {
        join_with(values.drop_last(), sep) + sep + values.last()
    }
}

/// The characters of each string.
pub open spec fn string_views(v: Seq<String>) -> Seq<Seq<char>> {
    v.map_values(|s: String| s@)
}

/// A list of values in the confirmation: comma separated, or "Unknown" when empty.
pub open spec fn values_text(values: Seq<Seq<char>>) -> Seq<char> {
    if values.len() == 0 {
        "Unknown"@
    } else {
        join_with(values, ", "@)
    }
}

/// Joins `values` with ", ", or gives "Unknown" for none.
pub fn confirmation_values(values: &Vec<String>) -> (r: String)
    ensures
        r@ == values_text(string_views(values@)),
{
    if values.len() == 0 {
        return String::from_str("Unknown");
    }
    let ghost views = string_views(values@);
    let mut s = String::new();
    let mut i: usize = 0;
    while i < values.len()
        invariant
            i <= values@.len(),
            views == string_views(values@),
            s@ == join_with(views.take(i as int), ", "@),
        decreases values@.len() - i,
    {
        assert(views.take(i as int + 1).drop_last() =~= views.take(i as int));
        assert(views.take(i as int + 1).last() == values@[i as int]@);
        if i > 0 {
            s.append(", ");
        } else {
            assert(views.take(1) =~= seq![values@[0]@]);
        }
        s.append(values[i].as_str());
        i = i + 1;
    }
    assert(views.take(values@.len() as int) =~= views);
    s
}

/// How a loader or platform name reads in the confirmation.
pub open spec fn loader_display(loader: Seq<char>) -> Seq<char> {
    if loader == "fabric"@ {
        "Fabric"@
    } else if loader == "forge"@ {
        "Forge"@
    } else if loader == "neoforge"@ {
        "NeoForge"@
    } else if loader == "quilt"@ {
        "Quilt"@
    } else if loader == "minecraft"@ {
        "Minecraft"@
    } else if loader == "datapack"@ {
        "Datapack"@
    } else {
        loader
    }
}

fn loader_display_exec(loader: &str) -> (r: String)
    ensures
        r@ == loader_display(loader@),
{
    if str_eq(loader, "fabric") {
        String::from_str("Fabric")
    } else if str_eq(loader, "forge") {
        String::from_str("Forge")
    } else if str_eq(loader, "neoforge") {
        String::from_str("NeoForge")
    } else if str_eq(loader, "quilt") {
        String::from_str("Quilt")
    } else if str_eq(loader, "minecraft") {
        String::from_str("Minecraft")
    } else if str_eq(loader, "datapack") {
        String::from_str("Datapack")
    } else {
        String::from_str(loader)
    }
}

/// The loaders of a version as the confirmation lists them.
pub fn confirmation_loaders(loaders: &Vec<String>) -> (r: String)
    ensures
        r@ == values_text(string_views(loaders@).map_values(|l: Seq<char>| loader_display(l))),
{
    let mut shown: Vec<String> = Vec::new();
    let mut i: usize = 0;
    while i < loaders.len()
        invariant
            i <= loaders@.len(),
            shown@.len() == i,
            forall|k: int| 0 <= k < i ==> #[trigger] shown@[k]@ == loader_display(loaders@[k]@),
        decreases loaders@.len() - i,
    {
        shown.push(loader_display_exec(loaders[i].as_str()));
        i = i + 1;
    }
    assert(string_views(shown@) =~= string_views(loaders@).map_values(|l: Seq<char>| loader_display(l)));
    confirmation_values(&shown)
}

/// The date (year, month, day, in the offset the text gives) of an RFC 3339
/// timestamp, or none when the text is not one.
pub uninterp spec fn rfc3339_date(value: Seq<char>) -> Option<(i32, u32, u32)>;

/// `chrono::DateTime::parse_from_rfc3339` and the date's `Datelike::year`,
/// `month` and `day`: the date of the timestamp, or `None` when chrono refuses
/// the text. What chrono accepts is named, not restated; an accepted text has a
/// four-digit year, and a month and day in their calendar ranges.
#[verifier::external_body]
fn parse_rfc3339_date(value: &str) -> (r: Option<(i32, u32, u32)>)
    ensures
        r == rfc3339_date(value@),
        r matches Some((y, m, d)) ==> 0 <= y <= 9999 && 1 <= m <= 12 && 1 <= d <= 31,
{
    chrono::DateTime::parse_from_rfc3339(value).ok().map(|date| (date.year(), date.month(), date.day()))
}

/// `n` in decimal, padded with leading zeros to at least `width` digits.
pub open spec fn padded(n: nat, width: nat) -> Seq<char> {
    let digits = decimal(n);
    Seq::new(if digits.len() < width { (width - digits.len()) as nat } else { 0 }, |i: int| '0') + digits
}

/// A year as `%Y` writes it: four digits, zero-padded, for years 0 to 9999, else
/// with its sign and at least four digits.
pub open spec fn year_text(y: i32) -> Seq<char> {
    if 0 <= y <= 9999 {
        padded(y as nat, 4)
    } else if y < 0 {
        seq!['-'] + padded((-y) as nat, 4)
    } else {
        seq!['+'] + padded(y as nat, 4)
    }
}

/// A date as `%Y-%m-%d` writes it.
pub open spec fn day_text(y: i32, m: u32, d: u32) -> Seq<char> {
    year_text(y) + seq!['-'] + padded(m as nat, 2) + seq!['-'] + padded(d as nat, 2)
}

/// The calendar day (`YYYY-MM-DD`) of an RFC 3339 timestamp, or none.
pub open spec fn rfc3339_day(value: Seq<char>) -> Option<Seq<char>> {
    match rfc3339_date(value) {
        Some((y, m, d)) => Some(day_text(y, m, d)),
        None => None,
    }
}

fn padded_string(n: u64, width: usize) -> (r: String)
    ensures
        r@ == padded(n as nat, width as nat),
{
    let digits = decimal_string(n);
    let len = digits.unicode_len();
    let zeros: usize = if len < width { width - len } else { 0 };
    let mut out = String::new();
    let mut i: usize = 0;
    while i < zeros
        invariant
            i <= zeros,
            out@ == Seq::new(i as nat, |k: int| '0'),
        decreases zeros - i,
    {
        crate::text::push_char(&mut out, '0');
        assert(out@ =~= Seq::new((i + 1) as nat, |k: int| '0'));
        i = i + 1;
    }
    out.append(digits.as_str());
    out
}

/// The date formatted as `%Y-%m-%d` does (see `day_text`).
pub fn format_day(year: i32, month: u32, day: u32) -> (r: String)
    ensures
        r@ == day_text(year, month, day),
{
    let mut out = if 0 <= year && year <= 9999 {
        padded_string(year as u64, 4)
    } else if year < 0 {
        let mut s = String::new();
        crate::text::push_char(&mut s, '-');
        let magnitude: u64 = (-(year as i64)) as u64;
        let p = padded_string(magnitude, 4);
        s.append(p.as_str());
        s
    } else {
        let mut s = String::new();
        crate::text::push_char(&mut s, '+');
        let p = padded_string(year as u64, 4);
        s.append(p.as_str());
        s
    };
    crate::text::push_char(&mut out, '-');
    let m = padded_string(month as u64, 2);
    out.append(m.as_str());
    crate::text::push_char(&mut out, '-');
    let d = padded_string(day as u64, 2);
    out.append(d.as_str());
    out
}

/// The day of an RFC 3339 timestamp, formatted as `%Y-%m-%d`, or none.
fn parse_rfc3339_day(value: &str) -> (r: Option<String>)
    ensures
        crate::text::opt_view(r) == rfc3339_day(value@),
{
    match parse_rfc3339_date(value) {
        Some((y, m, d)) => Some(format_day(y, m, d)),
        None => None,
    }
}

/// The release date as the confirmation shows it, given what parsing it gave:
/// "Unknown" for an empty date, the parsed day, or the text as it came.
pub open spec fn release_date_text(value: Seq<char>, day: Option<Seq<char>>) -> Seq<char> {
    if value.len() == 0 {
        "Unknown"@
    } else {
        match day {
            Some(d) => d,
            None => value,
        }
    }
}

/// The release date shown for `value` once `day` is what parsing it gave.
pub fn release_date_from(value: &str, day: Option<String>) -> (r: String)
    ensures
        r@ == release_date_text(value@, crate::text::opt_view(day)),
{
    if value.unicode_len() == 0 {
        return String::from_str("Unknown");
    }
    match day {
        Some(d) => d,
        None => String::from_str(value),
    }
}

/// The release date of a version in the confirmation: its day when it is an
/// RFC 3339 timestamp, "Unknown" when empty, else the text unchanged.
pub fn confirmation_release_date(value: &str) -> (r: String)
    ensures
        r@ == release_date_text(value@, rfc3339_day(value@)),
{
    if value.unicode_len() == 0 {
        return String::from_str("Unknown");
    }
    let day = parse_rfc3339_day(value);
    release_date_from(value, day)
}

/// The label of a version in the discovery version list: its version number.
pub fn discovery_version_label(version: &VersionInfo) -> (r: String)
    ensures
        r@ == version.version_number@,
{
    version.version_number.clone()
}

// ---------------------------------------------------------------- version popup

/// The selected version is the installed one; with neither, the popup counts as
/// reinstalling too.
pub open spec fn reinstalling(p: VersionPopupState) -> bool {
    match (p.current_version_id, p.selected_index()) {
        (None, None) => true,
        (Some(c), Some(i)) => p.versions@[i].id@ == c@,
        _ => false,
    }
}

/// The keybinds under the version popup: going back and confirming while
/// confirming; else moving, switching source when there are several, going back
/// to the Minecraft versions when one was chosen, continuing and closing.
pub open spec fn popup_keybinds_spec(p: VersionPopupState) -> Seq<(&'static str, &'static str)> {
    if p.confirming {
        seq![("h", " back"), ("Enter", if reinstalling(p) {
            " reinstall"
        } else if p.installed_path is Some {
            " change"
        } else {
            " install"
        })]
    } else {
        seq![("j/k", " navigate")]
            + (if p.sources@.len() > 1 { seq![("Tab", " source")] } else { seq![] })
            + (if p.selected_minecraft_version is Some { seq![("h", " back")] } else { seq![] })
            + seq![("Enter", " continue"), ("Esc", " close")]
    }
}

fn is_reinstalling(p: &VersionPopupState) -> (r: bool)
    ensures
        r == reinstalling(*p),
{
    match (&p.current_version_id, p.selected_version()) {
        (None, None) => true,
        (Some(c), Some(v)) => str_eq(v.id.as_str(), c.as_str()),
        _ => false,
    }
}

/// The keybinds shown under the version popup.
pub fn version_popup_keybinds(p: &VersionPopupState) -> (r: Vec<(&'static str, &'static str)>)
    ensures
        r@ == popup_keybinds_spec(*p),
{
    if p.confirming {
        let action = if is_reinstalling(p) {
            " reinstall"
        } else if p.installed_path.is_some() {
            " change"
        } else {
            " install"
        };
        return vec![("h", " back"), ("Enter", action)];
    }
    let mut r: Vec<(&'static str, &'static str)> = vec![("j/k", " navigate")];
    if p.sources.len() > 1 {
        r.push(("Tab", " source"));
    }
    if p.selected_minecraft_version.is_some() {
        r.push(("h", " back"));
    }
    r.push(("Enter", " continue"));
    r.push(("Esc", " close"));
    assert(r@ =~= popup_keybinds_spec(*p));
    r
}

/// What the body of the version popup shows.
#[derive(Debug)]
pub enum PopupBody {
    /// A dim note: installing, loading, or nothing compatible found.
    Note(&'static str),
    /// The error of the last request.
    Error(String),
    /// The confirmation: labelled values.
    Summary(Vec<(&'static str, String)>),
    /// The Minecraft versions to choose from.
    MinecraftVersions(Vec<String>),
    /// The versions to choose from: label, and whether it is the installed one.
    Versions(Vec<(String, bool)>),
}

/// The titles of the dependencies a plan newly installs, comma separated.
pub open spec fn installs_text(plan: Option<DependencyPlan>) -> Seq<char> {
    match plan {
        Some(p) => join_with(string_views(p.installs@), ", "@),
        None => seq![],
    }
}

/// "title -> version" for each dependency a plan changes.
pub open spec fn replacement_views(r: Seq<(String, String)>) -> Seq<Seq<char>> {
    r.map_values(|x: (String, String)| x.0@ + " -> "@ + x.1@)
}

/// The dependencies a plan changes, comma separated.
pub open spec fn replacements_text(plan: Option<DependencyPlan>) -> Seq<char> {
    match plan {
        Some(p) => join_with(replacement_views(p.replacements@), ", "@),
        None => seq![],
    }
}

/// The rows of the install confirmation: the version, its Minecraft versions,
/// loaders and release date, then the target world and what the dependencies
/// add, change and leave out, where there is any.
pub open spec fn summary_rows(p: VersionPopupState) -> Seq<(Seq<char>, Seq<char>)> {
    let v = match p.selected_index() { Some(i) => Some(p.versions@[i]), None => None };
    let installs = installs_text(p.dependency_plan);
    let replacements = replacements_text(p.dependency_plan);
    let optional: nat = match p.dependency_plan { Some(d) => d.optional_dependencies as nat, None => 0 };
    seq![
        ("Version"@, match v { Some(v) => v.version_number@, None => seq![] }),
        ("Minecraft"@, match v { Some(v) => values_text(string_views(v.game_versions@)), None => "Unknown"@ }),
        ("Loader"@, match v {
            Some(v) => values_text(string_views(v.loaders@).map_values(|l: Seq<char>| loader_display(l))),
            None => "Unknown"@,
        }),
        ("Released"@, match v {
            Some(v) => release_date_text(v.date_published@, rfc3339_day(v.date_published@)),
            None => "Unknown"@,
        }),
    ]
        + (match p.target_world { Some(w) => seq![("World"@, w.0@)], None => seq![] })
        + (if installs.len() > 0 { seq![("Also installs"@, installs)] } else { seq![] })
        + (if replacements.len() > 0 { seq![("Also changes"@, replacements)] } else { seq![] })
        + (if optional > 0 { seq![("Optional not installed"@, decimal(optional))] } else { seq![] })
}

/// The versions listed: label, and whether it is the installed one.
pub open spec fn version_items(p: VersionPopupState) -> Seq<(Seq<char>, bool)> {
    p.shown().map_values(|i: usize| (
        p.versions@[i as int].version_number@,
        p.current_version_id matches Some(c) && c@ == p.versions@[i as int].id@,
    ))
}

/// What the version popup's body shows, in this order of precedence: an install
/// in progress, a request being answered, an error, the confirmation, that
/// nothing compatible was found, or the list to choose from.
pub open spec fn popup_body_spec(p: VersionPopupState, b: PopupBody) -> bool {
    let empty = if p.selecting_minecraft_version { p.minecraft_versions@.len() == 0 } else { p.shown().len() == 0 };
    if p.installing {
        b == PopupBody::Note("Installing...")
    } else if p.loading {
        b == PopupBody::Note(if p.resolving_dependencies {
            "Resolving required dependencies..."
        } else {
            "Loading compatible versions..."
        })
    } else if p.error is Some {
        b matches PopupBody::Error(e) && e@ == p.error->0@
    } else if p.confirming {
        b matches PopupBody::Summary(rows) && rows@.map_values(|r: (&'static str, String)| (r.0@, r.1@)) == summary_rows(p)
    } else if empty {
        b == PopupBody::Note(if p.selecting_minecraft_version {
            "No compatible Minecraft versions found."
        } else {
            "No compatible versions found."
        })
    } else if p.selecting_minecraft_version {
        b matches PopupBody::MinecraftVersions(v) && string_views(v@) == string_views(p.minecraft_versions@)
    } else {
        b matches PopupBody::Versions(v) && v@.map_values(|x: (String, bool)| (x.0@, x.1)) == version_items(p)
    }
}

fn join_strings(values: &Vec<String>) -> (r: String)
    ensures
        r@ == join_with(string_views(values@), ", "@),
{
    if values.len() == 0 {
        return String::new();
    }
    let r = confirmation_values(values);
    r
}

fn summary(p: &VersionPopupState) -> (r: Vec<(&'static str, String)>)
    ensures
        r@.map_values(|x: (&'static str, String)| (x.0@, x.1@)) == summary_rows(*p),
{
    let v = p.selected_version();
    let version = match v { Some(v) => v.version_number.clone(), None => String::new() };
    let minecraft = match v { Some(v) => confirmation_values(&v.game_versions), None => String::from_str("Unknown") };
    let loaders = match v { Some(v) => confirmation_loaders(&v.loaders), None => String::from_str("Unknown") };
    let released = match v {
        Some(v) => confirmation_release_date(v.date_published.as_str()),
        None => String::from_str("Unknown"),
    };
    let mut rows: Vec<(&'static str, String)> = vec![
        ("Version", version),
        ("Minecraft", minecraft),
        ("Loader", loaders),
        ("Released", released),
    ];
    let ghost f = |x: (&'static str, String)| (x.0@, x.1@);
    let ghost base = rows@.map_values(f);
    match &p.target_world {
        Some(w) => rows.push(("World", w.0.clone())),
        None => {},
    }
    let ghost with_world = rows@.map_values(f);
    let (installs, replacements, optional) = match &p.dependency_plan {
        Some(plan) => {
            let installs = join_strings(&plan.installs);
            let mut parts: Vec<String> = Vec::new();
            let mut i: usize = 0;
            while i < plan.replacements.len()
                invariant
                    i <= plan.replacements@.len(),
                    string_views(parts@) == replacement_views(plan.replacements@.take(i as int)),
                decreases plan.replacements@.len() - i,
            {
                let mut t = plan.replacements[i].0.clone();
                t.append(" -> ");
                t.append(plan.replacements[i].1.as_str());
                let ghost before = parts@;
                let ghost tv = t@;
                assert(tv == plan.replacements@[i as int].0@ + " -> "@ + plan.replacements@[i as int].1@);
                parts.push(t);
                assert(string_views(parts@) =~= string_views(before).push(tv));
                assert(plan.replacements@.take(i as int + 1) =~= plan.replacements@.take(i as int).push(plan.replacements@[i as int]));
                assert(string_views(parts@) =~= replacement_views(plan.replacements@.take(i as int + 1)));
                i = i + 1;
            }
            assert(plan.replacements@.take(plan.replacements@.len() as int) =~= plan.replacements@);
            (installs, join_strings(&parts), plan.optional_dependencies)
        },
        None => (String::new(), String::new(), 0usize),
    };
    let ghost before_installs = rows@.map_values(f);
    if installs.as_str().unicode_len() > 0 {
        rows.push(("Also installs", installs));
    }
    let ghost after_installs = rows@.map_values(f);
    if replacements.as_str().unicode_len() > 0 {
        rows.push(("Also changes", replacements));
    }
    let ghost after_replacements = rows@.map_values(f);
    if optional > 0 {
        rows.push(("Optional not installed", decimal_string(optional as u64)));
    }
    proof {
        reveal_strlit("Version");
        assert(rows@.map_values(f) =~= summary_rows(*p));
    }
    rows
}

/// What the version popup's body shows.
pub fn version_popup_body(p: &VersionPopupState) -> (r: PopupBody)
    ensures
        popup_body_spec(*p, r),
{
    if p.installing {
        return PopupBody::Note("Installing...");
    }
    if p.loading {
        return PopupBody::Note(if p.resolving_dependencies {
            "Resolving required dependencies..."
        } else {
            "Loading compatible versions..."
        });
    }
    match &p.error {
        Some(e) => return PopupBody::Error(e.clone()),
        None => {},
    }
    if p.confirming {
        return PopupBody::Summary(summary(p));
    }
    if p.selecting_minecraft_version {
        if p.minecraft_versions.len() == 0 {
            return PopupBody::Note("No compatible Minecraft versions found.");
        }
        let mut v: Vec<String> = Vec::new();
        let mut i: usize = 0;
        while i < p.minecraft_versions.len()
            invariant
                i <= p.minecraft_versions@.len(),
                string_views(v@) == string_views(p.minecraft_versions@.take(i as int)),
            decreases p.minecraft_versions@.len() - i,
        {
            let ghost before = v@;
            let c = p.minecraft_versions[i].clone();
            let ghost cv = c@;
            v.push(c);
            assert(string_views(v@) =~= string_views(before).push(cv));
            assert(p.minecraft_versions@.take(i as int + 1) =~= p.minecraft_versions@.take(i as int).push(p.minecraft_versions@[i as int]));
            assert(string_views(v@) =~= string_views(p.minecraft_versions@.take(i as int + 1)));
            i = i + 1;
        }
        assert(p.minecraft_versions@.take(p.minecraft_versions@.len() as int) =~= p.minecraft_versions@);
        return PopupBody::MinecraftVersions(v);
    }
    let shown = p.visible_versions();
    if shown.len() == 0 {
        return PopupBody::Note("No compatible versions found.");
    }
    proof { p.lemma_shown_upto(p.versions@.len() as int); }
    let mut items: Vec<(String, bool)> = Vec::new();
    let mut i: usize = 0;
    while i < shown.len()
        invariant
            i <= shown@.len(),
            shown@ == p.shown(),
            forall|k: int| 0 <= k < shown@.len() ==> (#[trigger] shown@[k]) < p.versions@.len(),
            items@.map_values(|x: (String, bool)| (x.0@, x.1)) == version_items(*p).take(i as int),
        decreases shown@.len() - i,
    {
        let version = &p.versions[shown[i]];
        let label = discovery_version_label(version);
        let installed = match &p.current_version_id {
            Some(c) => str_eq(c.as_str(), version.id.as_str()),
            None => false,
        };
        let ghost before = items@;
        let ghost lv = label@;
        items.push((label, installed));
        assert(items@.map_values(|x: (String, bool)| (x.0@, x.1)) =~= before.map_values(|x: (String, bool)| (x.0@, x.1)).push((lv, installed)));
        assert(version_items(*p).take(i as int + 1) =~= version_items(*p).take(i as int).push(version_items(*p)[i as int]));
        assert(items@.map_values(|x: (String, bool)| (x.0@, x.1)) =~= version_items(*p).take(i as int + 1));
        i = i + 1;
    }
    assert(version_items(*p).take(shown@.len() as int) =~= version_items(*p));
    PopupBody::Versions(items)
}

} // verus!
