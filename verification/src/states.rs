//! The content lists of the launcher screen taken together: which discovery view
//! a tab shows and when it loads, what deleting a file does to every list, and
//! clicks on a discovery pager.

use vstd::prelude::*;
use crate::discovery::{ContentMode, DiscoveryState, installed_pos_from};
use crate::list::{ContentListState, path_is_not};
use crate::logs::{LogsState, files_without};
use crate::model::{ContentEntry, ContentKind, InstanceConfig};
use crate::tabs::ContentTab;
use crate::path::{file_name, file_name_spec, file_stem, file_stem_spec, parent_spec, join, join_spec, strip_dir, strip_dir_spec};
use crate::text::opt_view;

verus! {

/// The installed-content lists, the log viewer and the discovery views of the
/// selected instance.
pub struct ContentStates {
    pub mods: ContentListState,
    pub resource_packs: ContentListState,
    pub shaders: ContentListState,
    pub world_datapacks: ContentListState,
    pub worlds: ContentListState,
    pub screenshots: ContentListState,
    pub logs: LogsState,
    pub mods_discovery: DiscoveryState,
    pub resource_packs_discovery: DiscoveryState,
    pub shaders_discovery: DiscoveryState,
    pub datapacks_discovery: DiscoveryState,
}

/// What removing a deleted file leaves to the caller.
#[derive(Debug)]
pub struct RemovedContent {
    /// The log file the log viewer shows now, to be read.
    pub read_log: Option<String>,
    /// The world row (an index among the worlds) whose datapacks are to be
    /// listed again, when the file was a datapack of that world.
    pub world_to_refresh: Option<usize>,
}

/// The world directory a file lies in when it is one of the world's datapacks
/// (`<world>/datapacks/<file>`).
pub open spec fn datapack_world(path: Seq<char>) -> Option<Seq<char>> {
    match parent_spec(path) {
        Some(dir) => if file_name_spec(dir) == "datapacks"@ { parent_spec(dir) } else { None },
        None => None,
    }
}

/// The first entry at `path`.
pub open spec fn first_at(entries: Seq<ContentEntry>, path: Seq<char>, k: int) -> bool {
    &&& 0 <= k < entries.len()
    &&& entries[k].path@ == path
    &&& forall|j: int| 0 <= j < k ==> entries[j].path@ != path
}

/// The discovery rows after forgetting that the first row installed at `path` is installed.
pub open spec fn uninstalled(entries: Seq<ContentEntry>, path: Seq<char>) -> Seq<ContentEntry> {
    match installed_pos_from(entries, path, 0) {
        Some(k) => entries.update(k, ContentEntry { installed_path: None, title_suffix: None, ..entries[k] }),
        None => entries,
    }
}

/// The entries with the world details of row `index`, if it has some, listing `names` as datapacks.
pub open spec fn with_datapacks(entries: Seq<ContentEntry>, index: int, names: Vec<String>) -> Seq<ContentEntry> {
    if 0 <= index < entries.len() && entries[index].world_details is Some {
        entries.update(index, ContentEntry {
            world_details: Some(crate::model::WorldDetails { datapacks: names, ..entries[index].world_details->0 }),
            ..entries[index]
        })
    } else {
        entries
    }
}

/// The first row at `path` among `entries`, if any.
fn find_at(entries: &Vec<ContentEntry>, path: &str) -> (r: Option<usize>)
    ensures
        r matches Some(k) ==> first_at(entries@, path@, k as int),
        r is None ==> forall|j: int| 0 <= j < entries@.len() ==> entries@[j].path@ != path@,
{
    let mut i: usize = 0;
    while i < entries.len()
        invariant
            i <= entries@.len(),
            forall|j: int| 0 <= j < i ==> entries@[j].path@ != path@,
        decreases entries@.len() - i,
    {
        if crate::text::str_eq(entries[i].path.as_str(), path) {
            return Some(i);
        }
        i = i + 1;
    }
    None
}

/// Whether `path` is one of a world's datapacks; its world directory if so.
pub fn datapack_world_of(path: &str) -> (r: Option<String>)
    ensures
        crate::path::opt_view_path(r) == datapack_world(path@),
{
    match crate::path::parent(path) {
        Some(dir) => {
            let name = crate::path::file_name(dir.as_str());
            if crate::text::str_eq(name.as_str(), "datapacks") {
                crate::path::parent(dir.as_str())
            } else {
                None
            }
        },
        None => None,
    }
}

impl ContentStates {
    /// Forgets a deleted file everywhere: its rows leave every installed list and
    /// the log viewer, and the first discovery row installed there is no longer
    /// marked installed. When it was a datapack of a listed world that has
    /// details, that world's row is returned so its datapacks can be listed again.
    pub fn remove_content_path(&mut self, path: &str) -> (r: RemovedContent)
        ensures
            final(self).mods.entries@ == old(self).mods.entries@.filter(path_is_not(path@)),
            final(self).resource_packs.entries@ == old(self).resource_packs.entries@.filter(path_is_not(path@)),
            final(self).shaders.entries@ == old(self).shaders.entries@.filter(path_is_not(path@)),
            final(self).world_datapacks.entries@ == old(self).world_datapacks.entries@.filter(path_is_not(path@)),
            final(self).worlds.entries@ == old(self).worlds.entries@.filter(path_is_not(path@)),
            final(self).screenshots.entries@ == old(self).screenshots.entries@.filter(path_is_not(path@)),
            final(self).logs.entries@ == files_without(old(self).logs.entries@, path@),
            final(self).mods_discovery.list.entries@ == uninstalled(old(self).mods_discovery.list.entries@, path@),
            final(self).resource_packs_discovery.list.entries@
                == uninstalled(old(self).resource_packs_discovery.list.entries@, path@),
            final(self).shaders_discovery.list.entries@ == uninstalled(old(self).shaders_discovery.list.entries@, path@),
            final(self).datapacks_discovery.list.entries@
                == uninstalled(old(self).datapacks_discovery.list.entries@, path@),
            match datapack_world(path@) {
                Some(w) => match r.world_to_refresh {
                    Some(k) => first_at(final(self).worlds.entries@, w, k as int)
                        && final(self).worlds.entries@[k as int].world_details is Some,
                    None => forall|j: int| 0 <= j < final(self).worlds.entries@.len()
                        ==> (first_at(final(self).worlds.entries@, w, j) ==> final(self).worlds.entries@[j].world_details is None),
                },
                None => r.world_to_refresh is None,
            },
    {
        self.mods.remove_path(path);
        self.resource_packs.remove_path(path);
        self.shaders.remove_path(path);
        self.world_datapacks.remove_path(path);
        self.worlds.remove_path(path);
        self.screenshots.remove_path(path);
        let read_log = self.logs.remove_path(path);
        self.mods_discovery.clear_installed_path(path);
        self.resource_packs_discovery.clear_installed_path(path);
        self.shaders_discovery.clear_installed_path(path);
        self.datapacks_discovery.clear_installed_path(path);
        let world_to_refresh = match datapack_world_of(path) {
            Some(world) => match find_at(&self.worlds.entries, world.as_str()) {
                Some(k) => if self.worlds.entries[k].world_details.is_some() { Some(k) } else { None },
                None => None,
            },
            None => None,
        };
        RemovedContent { read_log, world_to_refresh }
    }

    /// Lists `names` as the datapacks of world row `index`, when that row has world details.
    pub fn set_world_datapacks(&mut self, index: usize, names: Vec<String>)
        ensures
            final(self).worlds.entries@ == with_datapacks(old(self).worlds.entries@, index as int, names),
            final(self).worlds.list_state == old(self).worlds.list_state,
    {
        if index < self.worlds.entries.len() && self.worlds.entries[index].world_details.is_some() {
            let ghost before = self.worlds.entries@;
            let mut e = self.worlds.entries.remove(index);
            let mut details = e.world_details.unwrap();
            details.datapacks = names;
            e.world_details = Some(details);
            self.worlds.entries.insert(index, e);
            assert(self.worlds.entries@ =~= with_datapacks(before, index as int, names));
        }
    }
}

/// Once a file is removed, no row of a list lies at its path, and every row of
/// the list that lay elsewhere is still there.
pub proof fn lemma_removed_file_leaves_the_list(entries: Seq<ContentEntry>, path: Seq<char>)
    ensures
        forall|j: int| 0 <= j < entries.filter(path_is_not(path)).len()
            ==> (#[trigger] entries.filter(path_is_not(path))[j]).path@ != path,
        forall|i: int| 0 <= i < entries.len() && entries[i].path@ != path
            ==> #[trigger] entries.filter(path_is_not(path)).contains(entries[i]),
{
    broadcast use vstd::seq_lib::group_filter_ensures;
    assert forall|j: int| 0 <= j < entries.filter(path_is_not(path)).len()
        implies (#[trigger] entries.filter(path_is_not(path))[j]).path@ != path by {
        assert(path_is_not(path)(entries.filter(path_is_not(path))[j]));
    }
    assert forall|i: int| 0 <= i < entries.len() && entries[i].path@ != path
        implies #[trigger] entries.filter(path_is_not(path)).contains(entries[i]) by {
        assert(path_is_not(path)(entries[i]));
    }
}

/// The kind of discovery view a content tab shows: the tab's own kind, and the
/// datapacks one on the worlds tab while a world's datapacks are open.
pub open spec fn active_discovery_kind(tab: ContentTab, world_datapacks_open: bool) -> Option<ContentKind> {
    match tab {
        ContentTab::Mods => Some(ContentKind::Mod),
        ContentTab::ResourcePacks => Some(ContentKind::ResourcePack),
        ContentTab::Shaders => Some(ContentKind::Shader),
        ContentTab::DataPacks => Some(ContentKind::DataPack),
        ContentTab::Worlds => if world_datapacks_open { Some(ContentKind::DataPack) } else { None },
        _ => None,
    }
}

/// The kind of discovery view a content tab shows (see `active_discovery_kind`).
pub fn active_discovery_kind_of(tab: ContentTab, world_datapacks_open: bool) -> (r: Option<ContentKind>)
    ensures
        r == active_discovery_kind(tab, world_datapacks_open),
{
    match tab {
        ContentTab::Mods => Some(ContentKind::Mod),
        ContentTab::ResourcePacks => Some(ContentKind::ResourcePack),
        ContentTab::Shaders => Some(ContentKind::Shader),
        ContentTab::DataPacks => Some(ContentKind::DataPack),
        ContentTab::Worlds => if world_datapacks_open { Some(ContentKind::DataPack) } else { None },
        _ => None,
    }
}

/// What bringing the shown discovery view up to date asks of the caller.
#[derive(Clone, Copy, Debug, PartialEq, Eq, Structural)]
pub enum DiscoveryLoad {
    /// No discovery view is shown, or no instance is selected.
    Nothing,
    /// Discovery is unavailable for the instance; the view was emptied.
    Unavailable,
    /// Start a new search.
    Search,
    /// Ask for the next page of the current search, if one is due.
    NextPage,
}

impl ContentStates {
    /// The discovery view of a content kind.
    pub open spec fn discovery_of(self, kind: ContentKind) -> DiscoveryState {
        match kind {
            ContentKind::Mod => self.mods_discovery,
            ContentKind::ResourcePack => self.resource_packs_discovery,
            ContentKind::Shader => self.shaders_discovery,
            ContentKind::DataPack => self.datapacks_discovery,
        }
    }

    /// The discovery view a content tab shows.
    pub fn active_discovery(&self, tab: ContentTab, world_datapacks_open: bool) -> (r: Option<&DiscoveryState>)
        ensures
            r == (match active_discovery_kind(tab, world_datapacks_open) {
                Some(kind) => Some(&self.discovery_of(kind)),
                None => None,
            }),
    {
        match active_discovery_kind_of(tab, world_datapacks_open) {
            Some(ContentKind::Mod) => Some(&self.mods_discovery),
            Some(ContentKind::ResourcePack) => Some(&self.resource_packs_discovery),
            Some(ContentKind::Shader) => Some(&self.shaders_discovery),
            Some(ContentKind::DataPack) => Some(&self.datapacks_discovery),
            None => None,
        }
    }

    /// A left click at `(x, y)` while the content area has the focus: in discovery,
    /// on a pager label of the shown list, with no search typed, no project page
    /// and no version popup open, it opens that page. Returns whether it did; the
    /// page is then to be loaded.
    pub fn click_discovery_page(
        &mut self,
        content_focused: bool,
        mode: ContentMode,
        tab: ContentTab,
        world_datapacks_open: bool,
        x: u16,
        y: u16,
    ) -> (r: bool)
        ensures
            ({
                let kind = active_discovery_kind(tab, world_datapacks_open);
                if content_focused && mode == ContentMode::Discover && kind is Some && {
                    let d = old(self).discovery_of(kind->0);
                    !d.search.active && d.project_page is None && d.version_popup is None
                } {
                    let d = old(self).discovery_of(kind->0);
                    let n = final(self).discovery_of(kind->0);
                    &&& n.list.page_clicked(d.list, x, y, r)
                    &&& n == (DiscoveryState { list: n.list, ..d })
                    &&& forall|k: ContentKind| k != kind->0 ==> #[trigger] final(self).discovery_of(k) == old(self).discovery_of(k)
                } else {
                    !r && *final(self) == *old(self)
                }
            }),
            final(self).mods == old(self).mods,
            final(self).worlds == old(self).worlds,
            final(self).logs == old(self).logs,
    {
        if !content_focused || mode != ContentMode::Discover {
            return false;
        }
        let kind = match active_discovery_kind_of(tab, world_datapacks_open) {
            Some(k) => k,
            None => return false,
        };
        let state = match kind {
            ContentKind::Mod => &mut self.mods_discovery,
            ContentKind::ResourcePack => &mut self.resource_packs_discovery,
            ContentKind::Shader => &mut self.shaders_discovery,
            ContentKind::DataPack => &mut self.datapacks_discovery,
        };
        if state.search.active || state.project_page.is_some() || state.version_popup.is_some() {
            return false;
        }
        state.list.click_page(x, y)
    }

    /// Fresh discovery views of each kind, as for a newly selected instance.
    pub fn reset_discovery_states(&mut self)
        ensures
            forall|kind: ContentKind| #[trigger] final(self).discovery_of(kind).kind == kind
                && final(self).discovery_of(kind).list.entries@.len() == 0
                && final(self).discovery_of(kind).context is None,
            final(self).mods == old(self).mods,
            final(self).resource_packs == old(self).resource_packs,
            final(self).shaders == old(self).shaders,
            final(self).world_datapacks == old(self).world_datapacks,
            final(self).worlds == old(self).worlds,
            final(self).screenshots == old(self).screenshots,
            final(self).logs == old(self).logs,
    {
        self.mods_discovery = DiscoveryState::new(ContentKind::Mod);
        self.resource_packs_discovery = DiscoveryState::new(ContentKind::ResourcePack);
        self.shaders_discovery = DiscoveryState::new(ContentKind::Shader);
        self.datapacks_discovery = DiscoveryState::new(ContentKind::DataPack);
    }

    /// Brings the discovery view the screen shows up to date for `instance`: with
    /// discovery unavailable for it (`unavailable`, from the content kind and the
    /// instance's loader) the view is emptied; otherwise a new search is due when
    /// the rows are for another search context or the typed query has rested, and
    /// else the next page.
    pub fn ensure_active_discovery_loaded(
        &mut self,
        mode: ContentMode,
        tab: ContentTab,
        world_datapacks_open: bool,
        instance: Option<&InstanceConfig>,
        unavailable: bool,
        now: u64,
    ) -> (r: DiscoveryLoad)
        ensures
            (mode != ContentMode::Discover || instance is None || active_discovery_kind(tab, world_datapacks_open) is None)
                ==> r == DiscoveryLoad::Nothing && *final(self) == *old(self),
            mode == ContentMode::Discover && instance is Some && active_discovery_kind(tab, world_datapacks_open) is Some ==> ({
                let kind = active_discovery_kind(tab, world_datapacks_open)->0;
                let d = old(self).discovery_of(kind);
                let inst = *instance->0;
                if unavailable {
                    &&& r == DiscoveryLoad::Unavailable
                    &&& final(self).discovery_of(kind).made_unavailable(d, inst)
                    &&& forall|k: ContentKind| k != kind ==> #[trigger] final(self).discovery_of(k) == old(self).discovery_of(k)
                    &&& final(self).mods == old(self).mods
                    &&& final(self).resource_packs == old(self).resource_packs
                    &&& final(self).shaders == old(self).shaders
                    &&& final(self).world_datapacks == old(self).world_datapacks
                    &&& final(self).worlds == old(self).worlds
                    &&& final(self).screenshots == old(self).screenshots
                    &&& final(self).logs == old(self).logs
                } else {
                    &&& r == (if opt_view(d.context) != Some(crate::discovery::context_text(inst.name@, inst.game_version@, inst.loader))
                        || (d.search_changed_at matches Some(t) && now >= t + crate::discovery::SEARCH_DEBOUNCE_MS) {
                        DiscoveryLoad::Search
                    } else {
                        DiscoveryLoad::NextPage
                    })
                    &&& *final(self) == *old(self)
                }
            }),
    {
        if mode != ContentMode::Discover {
            return DiscoveryLoad::Nothing;
        }
        let instance = match instance {
            Some(i) => i,
            None => return DiscoveryLoad::Nothing,
        };
        let kind = match active_discovery_kind_of(tab, world_datapacks_open) {
            Some(k) => k,
            None => return DiscoveryLoad::Nothing,
        };
        if unavailable {
            match kind {
                ContentKind::Mod => self.mods_discovery.set_unavailable(instance),
                ContentKind::ResourcePack => self.resource_packs_discovery.set_unavailable(instance),
                ContentKind::Shader => self.shaders_discovery.set_unavailable(instance),
                ContentKind::DataPack => self.datapacks_discovery.set_unavailable(instance),
            }
            return DiscoveryLoad::Unavailable;
        }
        let state = match kind {
            ContentKind::Mod => &self.mods_discovery,
            ContentKind::ResourcePack => &self.resource_packs_discovery,
            ContentKind::Shader => &self.shaders_discovery,
            ContentKind::DataPack => &self.datapacks_discovery,
        };
        if state.needs_search(instance) || state.search_due(now) {
            DiscoveryLoad::Search
        } else {
            DiscoveryLoad::NextPage
        }
    }
}

/// What updating all content of the shown tab covers: the kind of content and,
/// for data packs, the world whose data packs are open. Nothing while the update
/// popup is already open, on a tab without updatable content, or on the worlds
/// tab with no world's data packs open.
pub open spec fn bulk_update_target_spec(popup_open: bool, tab: ContentTab, open_world: Option<Seq<char>>)
    -> Option<(ContentKind, Option<Seq<char>>)>
{
    if popup_open {
        None
    } else {
        match tab {
            ContentTab::Mods => Some((ContentKind::Mod, None)),
            ContentTab::ResourcePacks => Some((ContentKind::ResourcePack, None)),
            ContentTab::Shaders => Some((ContentKind::Shader, None)),
            ContentTab::Worlds => match open_world {
                Some(w) => Some((ContentKind::DataPack, Some(w))),
                None => None,
            },
            _ => None,
        }
    }
}

/// What updating all content of the shown tab covers (see `bulk_update_target_spec`).
pub fn bulk_update_target(popup_open: bool, tab: ContentTab, open_world: Option<String>) -> (r: Option<(ContentKind, Option<String>)>)
    ensures
        bulk_update_target_spec(popup_open, tab, opt_view(open_world))
            == (match r { Some((k, w)) => Some((k, opt_view(w))), None => None }),
{
    if popup_open {
        return None;
    }
    match tab {
        ContentTab::Mods => Some((ContentKind::Mod, None)),
        ContentTab::ResourcePacks => Some((ContentKind::ResourcePack, None)),
        ContentTab::Shaders => Some((ContentKind::Shader, None)),
        ContentTab::Worlds => match open_world {
            Some(w) => Some((ContentKind::DataPack, Some(w))),
            None => None,
        },
        _ => None,
    }
}

/// Whether a manifest record of kind `record_kind` at `relative_path` (below the
/// game directory `minecraft_dir`) is covered by a bulk update of `kind`: it is of
/// that kind and, for a world's data packs, lies in that world's `datapacks`.
pub open spec fn bulk_update_covers(
    kind: ContentKind,
    minecraft_dir: Seq<char>,
    target_world: Option<Seq<char>>,
    record_kind: ContentKind,
    relative_path: Seq<char>,
) -> bool {
    &&& record_kind == kind
    &&& match target_world {
        Some(w) => strip_dir_spec(join_spec(minecraft_dir, relative_path), join_spec(w, "datapacks"@)) is Some,
        None => true,
    }
}

/// The positions, in order, of the manifest records (kind and path relative to
/// the game directory) that a bulk update of `kind` covers (see
/// `bulk_update_covers`).
pub fn bulk_update_records(
    records: &Vec<(ContentKind, String)>,
    kind: ContentKind,
    minecraft_dir: &str,
    target_world: Option<&str>,
) -> (r: Vec<usize>)
    ensures
        forall|a: int, b: int| 0 <= a < b < r.len() ==> r[a] < r[b],
        forall|a: int| 0 <= a < r.len() ==> r[a] < records.len(),
        forall|i: int| 0 <= i < records.len() ==>
            (r@.contains(i as usize) <==> bulk_update_covers(
                kind, minecraft_dir@, match target_world { Some(w) => Some(w@), None => None },
                records[i].0, records[i].1@)),
{
    proof { reveal_strlit("datapacks"); }
    let ghost world = match target_world { Some(w) => Some(w@), None => None };
    let directory: Option<String> = match target_world {
        Some(w) => Some(join(w, "datapacks")),
        None => None,
    };
    let mut r: Vec<usize> = Vec::new();
    let mut i: usize = 0;
    while i < records.len()
        invariant
            i <= records.len(),
            world == (match target_world { Some(w) => Some(w@), None => None }),
            match directory {
                Some(d) => world is Some && d@ == join_spec(world->0, "datapacks"@),
                None => world is None,
            },
            forall|a: int, b: int| 0 <= a < b < r.len() ==> r[a] < r[b],
            forall|a: int| 0 <= a < r.len() ==> r[a] < i,
            forall|j: int| 0 <= j < i ==>
                (r@.contains(j as usize) <==> bulk_update_covers(kind, minecraft_dir@, world, records[j].0, records[j].1@)),
        decreases records.len() - i,
    {
        let record_kind = records[i].0;
        let keep = if record_kind == kind {
            match &directory {
                Some(d) => {
                    let full = join(minecraft_dir, records[i].1.as_str());
                    strip_dir(full.as_str(), d.as_str()).is_some()
                },
                None => true,
            }
        } else {
            false
        };
        assert(keep == bulk_update_covers(kind, minecraft_dir@, world, records[i as int].0, records[i as int].1@));
        let ghost before = r@;
        if keep {
            r.push(i);
        }
        assert forall|j: int| 0 <= j < i + 1 implies
            (r@.contains(j as usize) <==> bulk_update_covers(kind, minecraft_dir@, world, records[j].0, records[j].1@)) by {
            if j < i {
                if before.contains(j as usize) {
                    let k = choose|k: int| 0 <= k < before.len() && before[k] == j as usize;
                    assert(r@[k] == j as usize);
                }
                if r@.contains(j as usize) {
                    let k = choose|k: int| 0 <= k < r@.len() && r@[k] == j as usize;
                    if k < before.len() {
                        assert(before[k] == j as usize);
                    }
                }
            } else {
                if keep {
                    assert(r@[r@.len() - 1] == i);
                } else {
                    if r@.contains(i) {
                        let k = choose|k: int| 0 <= k < r@.len() && r@[k] == i;
                        assert(false);
                    }
                }
            }
        }
        i += 1;
    }
    r
}

/// The title an update of the manifest record at `relative_path` is shown under:
/// the stem of its file name, `content` when the path names no file.
pub open spec fn update_title_spec(relative_path: Seq<char>) -> Seq<char> {
    let name = file_name_spec(relative_path);
    if name.len() == 0 || name == ".."@ { "content"@ } else { file_stem_spec(name) }
}

/// The title an update of the record at `relative_path` is shown under (see
/// `update_title_spec`).
pub fn update_title(relative_path: &str) -> (r: String)
    ensures
        r@ == update_title_spec(relative_path@),
{
    proof {
        reveal_strlit("..");
        reveal_strlit("content");
    }
    let name = file_name(relative_path);
    if name.unicode_len() == 0 || crate::text::str_eq(name.as_str(), "..") {
        String::from_str("content")
    } else {
        file_stem(name.as_str())
    }
}

impl ContentStates {
    /// The list whose rows a bulk update of the shown tab checks.
    pub fn bulk_update_rows(&self, tab: ContentTab) -> (r: Option<&ContentListState>)
        ensures
            r == (match tab {
                ContentTab::Mods => Some(&self.mods),
                ContentTab::ResourcePacks => Some(&self.resource_packs),
                ContentTab::Shaders => Some(&self.shaders),
                ContentTab::Worlds => Some(&self.world_datapacks),
                _ => None,
            }),
    {
        match tab {
            ContentTab::Mods => Some(&self.mods),
            ContentTab::ResourcePacks => Some(&self.resource_packs),
            ContentTab::Shaders => Some(&self.shaders),
            ContentTab::Worlds => Some(&self.world_datapacks),
            _ => None,
        }
    }
}

/// The list a tab's content is loaded into.
#[derive(Clone, Copy, Debug, PartialEq, Eq, Structural)]
pub enum LoadTarget {
    Mods,
    ResourcePacks,
    Shaders,
    Worlds,
    WorldDatapacks,
    Screenshots,
    Logs,
}

/// A load the shown tab needs before it is drawn: the list, the key its rows are
/// loaded (and cached) under, and the directory to scan and watch.
#[derive(Debug)]
pub struct TabLoad {
    pub target: LoadTarget,
    pub key: String,
    pub dir: String,
}

/// The directory of `kind`-like content inside an instance's game directory.
pub open spec fn game_subdir(instances_dir: Seq<char>, instance: Seq<char>, game_dir_name: Seq<char>, sub: Seq<char>) -> Seq<char> {
    crate::path::join_spec(crate::path::join_spec(crate::path::join_spec(instances_dir, instance), game_dir_name), sub)
}

/// Whether a list holding the rows of `loaded_for` must load `key` first.
pub open spec fn needs_load(loaded_for: Option<String>, key: Seq<char>) -> bool {
    opt_view(loaded_for) != Some(key)
}

impl ContentStates {
    /// What the shown `tab` needs loaded for the selected instance, if anything:
    /// nothing without an instance or when the list already holds its rows; mods,
    /// resource packs and shaders from their directory in the instance's game
    /// directory (named `game_dir_name`); the data-pack tab and the worlds tab from
    /// `saves`, or, on the worlds tab with a world's data packs open, that world's
    /// `datapacks` under the key `instance:world`; logs and screenshots from the
    /// instances directory.
    pub open spec fn tab_load_spec(
        self,
        tab: ContentTab,
        instance: Option<Seq<char>>,
        instances_dir: Seq<char>,
        game_dir_name: Seq<char>,
        open_world: Option<(Seq<char>, Seq<char>)>,
    ) -> Option<(LoadTarget, Seq<char>, Seq<char>)> {
        match instance {
            None => None,
            Some(name) => {
                let saves = game_subdir(instances_dir, name, game_dir_name, "saves"@);
                match tab {
                    ContentTab::Mods => if needs_load(self.mods.loaded_for, name) {
                        Some((LoadTarget::Mods, name, game_subdir(instances_dir, name, game_dir_name, "mods"@)))
                    } else { None },
                    ContentTab::ResourcePacks => if needs_load(self.resource_packs.loaded_for, name) {
                        Some((LoadTarget::ResourcePacks, name, game_subdir(instances_dir, name, game_dir_name, "resourcepacks"@)))
                    } else { None },
                    ContentTab::Shaders => if needs_load(self.shaders.loaded_for, name) {
                        Some((LoadTarget::Shaders, name, game_subdir(instances_dir, name, game_dir_name, "shaderpacks"@)))
                    } else { None },
                    ContentTab::DataPacks => if needs_load(self.worlds.loaded_for, name) {
                        Some((LoadTarget::Worlds, name, saves))
                    } else { None },
                    ContentTab::Logs => if needs_load(self.logs.loaded_for, name) {
                        Some((LoadTarget::Logs, name, instances_dir))
                    } else { None },
                    ContentTab::Screenshots => if needs_load(self.screenshots.loaded_for, name) {
                        Some((LoadTarget::Screenshots, name, instances_dir))
                    } else { None },
                    ContentTab::Worlds => match open_world {
                        Some((world, path)) => {
                            let key = name + seq![':'] + world;
                            if needs_load(self.world_datapacks.loaded_for, key) {
                                Some((LoadTarget::WorldDatapacks, key, crate::path::join_spec(path, "datapacks"@)))
                            } else { None }
                        },
                        None => if needs_load(self.worlds.loaded_for, name) {
                            Some((LoadTarget::Worlds, name, saves))
                        } else { None },
                    },
                }
            },
        }
    }

    /// What the shown `tab` needs loaded (see `tab_load_spec`).
    pub fn tab_load(
        &self,
        tab: ContentTab,
        instance: Option<&str>,
        instances_dir: &str,
        game_dir_name: &str,
        open_world: Option<(&str, &str)>,
    ) -> (r: Option<TabLoad>)
        ensures
            self.tab_load_spec(tab, match instance { Some(n) => Some(n@), None => None }, instances_dir@, game_dir_name@,
                match open_world { Some((w, p)) => Some((w@, p@)), None => None })
                == (match r { Some(l) => Some((l.target, l.key@, l.dir@)), None => None }),
    {
        proof {
            reveal_strlit("saves");
            reveal_strlit("mods");
            reveal_strlit("resourcepacks");
            reveal_strlit("shaderpacks");
            reveal_strlit("datapacks");
            reveal_strlit(":");
        }
        let name = match instance {
            Some(n) => n,
            None => return None,
        };
        let game_dir = crate::path::join(crate::path::join(instances_dir, name).as_str(), game_dir_name);
        match tab {
            ContentTab::Mods => load_if(&self.mods.loaded_for, LoadTarget::Mods, crate::text::owned(name),
                crate::path::join(game_dir.as_str(), "mods")),
            ContentTab::ResourcePacks => load_if(&self.resource_packs.loaded_for, LoadTarget::ResourcePacks,
                crate::text::owned(name), crate::path::join(game_dir.as_str(), "resourcepacks")),
            ContentTab::Shaders => load_if(&self.shaders.loaded_for, LoadTarget::Shaders, crate::text::owned(name),
                crate::path::join(game_dir.as_str(), "shaderpacks")),
            ContentTab::DataPacks => load_if(&self.worlds.loaded_for, LoadTarget::Worlds, crate::text::owned(name),
                crate::path::join(game_dir.as_str(), "saves")),
            ContentTab::Logs => load_if(&self.logs.loaded_for, LoadTarget::Logs, crate::text::owned(name),
                crate::text::owned(instances_dir)),
            ContentTab::Screenshots => load_if(&self.screenshots.loaded_for, LoadTarget::Screenshots,
                crate::text::owned(name), crate::text::owned(instances_dir)),
            ContentTab::Worlds => match open_world {
                Some((world, path)) => {
                    let key = crate::text::concat3(name, ":", world);
                    assert(key@ == name@ + seq![':'] + world@);
                    load_if(&self.world_datapacks.loaded_for, LoadTarget::WorldDatapacks, key,
                        crate::path::join(path, "datapacks"))
                },
                None => load_if(&self.worlds.loaded_for, LoadTarget::Worlds, crate::text::owned(name),
                    crate::path::join(game_dir.as_str(), "saves")),
            },
        }
    }
}

/// A load of `key` into `target` from `dir`, unless the list holds `key`'s rows already.
fn load_if(loaded_for: &Option<String>, target: LoadTarget, key: String, dir: String) -> (r: Option<TabLoad>)
    ensures
        (match r { Some(l) => Some((l.target, l.key@, l.dir@)), None => None })
            == (if needs_load(*loaded_for, key@) { Some((target, key@, dir@)) } else { None }),
{
    let loaded_already = match loaded_for {
        Some(l) => crate::text::str_eq(l.as_str(), key.as_str()),
        None => false,
    };
    if loaded_already {
        None
    } else {
        Some(TabLoad { target, key, dir })
    }
}

} // verus!
