//! Provider discovery: the content mode switch, paged provider search with
//! stale-result protection and retries, the version popup and the project page.

use vstd::prelude::*;
use crate::keys::{KeyCode, KeyEvent};
use crate::list::{ContentListState, ListKeyOutcome, ListState, PendingContentDelete, search_query_after};
use crate::merge::{KnownRow, find_key, identity_spec, key_set, known_view, project_identity_parts};
use crate::model::{ContentEntry, ContentFileRecord, ContentKind, ContentManifest, DependencyPlan, same_project, InstanceConfig, ModLoader, ProjectInfo, ProjectRef, ProviderProject, VersionInfo};
use crate::search::SearchState;
use crate::stream::ContentStream;
use crate::text::{concat, concat3, opt_view, owned, str_eq};

verus! {

/// Whether the content panel shows installed content or the provider catalogue.
#[derive(Clone, Copy, Debug, PartialEq, Eq, Structural)]
pub enum ContentMode {
    Installed,
    Discover,
}

pub open spec fn spec_toggle(mode: ContentMode) -> ContentMode {
    match mode {
        ContentMode::Installed => ContentMode::Discover,
        ContentMode::Discover => ContentMode::Installed,
    }
}

pub open spec fn mode_label_text(mode: ContentMode) -> Seq<char> {
    match mode {
        ContentMode::Installed => "Installed"@,
        ContentMode::Discover => "Discovery"@,
    }
}

impl ContentMode {
    /// The mode the content panel starts in.
    pub fn initial() -> (r: ContentMode)
        ensures
            r == ContentMode::Installed,
    {
        ContentMode::Installed
    }

    /// Switches between installed content and discovery.
    pub fn toggle(self) -> (r: ContentMode)
        ensures
            r == spec_toggle(self),
            r != self,
    {
        match self {
            ContentMode::Installed => ContentMode::Discover,
            ContentMode::Discover => ContentMode::Installed,
        }
    }

    pub fn label(self) -> (r: &'static str)
        ensures
            r@ == mode_label_text(self),
    {
        match self {
            ContentMode::Installed => "Installed",
            ContentMode::Discover => "Discovery",
        }
    }
}

/// Toggling the content mode twice gives back the mode one started from.
pub proof fn lemma_toggle_involution(mode: ContentMode)
    ensures
        spec_toggle(spec_toggle(mode)) == mode,
        spec_toggle(mode) != mode,
{
}


/// Rows asked for per page at most.
pub const PAGE_SIZE: usize = 100;
/// How many screens of rows are kept loaded ahead of the selection.
pub const PREFETCH_VIEWPORTS: usize = 2;
/// The least number of rows kept loaded ahead of the selection.
pub const MIN_PREFETCH_ITEMS: usize = 10;
/// Milliseconds after the last keystroke before the typed query is searched.
pub const SEARCH_DEBOUNCE_MS: u64 = 300;
/// Milliseconds before the first retry of a failed page.
pub const PAGE_RETRY_BASE_DELAY_MS: u64 = 500;
/// The longest wait between retries of a failed page, in milliseconds.
pub const PAGE_RETRY_MAX_DELAY_MS: u64 = 8000;

/// Why a page of search results could not be had.
#[derive(Debug)]
pub struct DiscoveryPageError {
    pub message: String,
    pub retryable: bool,
}

/// What a page of search results brought: rows received and the total on offer.
#[derive(Debug, Clone, Copy)]
pub struct DiscoveryPageResult {
    pub received: usize,
    pub total_hits: usize,
}

/// The outcome of a page request, tagged with the search it belongs to.
#[derive(Debug)]
pub struct PendingDiscoveryResult {
    pub generation: u64,
    pub offset: usize,
    pub result: Result<DiscoveryPageResult, DiscoveryPageError>,
    /// The provider projects behind each row stem of the page.
    pub sources: Vec<(String, ProviderProject)>,
}

/// A page request to be carried out by a background search.
pub struct DiscoveryRequest {
    pub generation: u64,
    pub offset: usize,
    pub limit: usize,
    pub stream: ContentStream,
    /// Whether the rows already shown are to be reconciled with the new results.
    pub reconcile: bool,
    /// Stems of rows whose icon is already loaded.
    pub loaded_icon_stems: Vec<String>,
    /// Identity, stem and provider of the rows already shown.
    pub known_projects: Vec<(String, (String, String))>,
}

/// The provider-side name of a mod loader.
pub open spec fn loader_slug_text(loader: ModLoader) -> Option<Seq<char>> {
    match loader {
        ModLoader::Vanilla => None,
        ModLoader::Fabric => Some("fabric"@),
        ModLoader::Forge => Some("forge"@),
        ModLoader::NeoForge => Some("neoforge"@),
        ModLoader::Quilt => Some("quilt"@),
    }
}

/// The provider-side name of a mod loader; vanilla has none.
pub fn loader_slug(loader: ModLoader) -> (r: Option<&'static str>)
    ensures
        match r {
            Some(s) => loader_slug_text(loader) == Some(s@),
            None => loader_slug_text(loader) is None,
        },
{
    match loader {
        ModLoader::Vanilla => None,
        ModLoader::Fabric => Some("fabric"),
        ModLoader::Forge => Some("forge"),
        ModLoader::NeoForge => Some("neoforge"),
        ModLoader::Quilt => Some("quilt"),
    }
}

/// The search context of an instance: name, game version and loader.
pub open spec fn context_text(name: Seq<char>, game_version: Seq<char>, loader: ModLoader) -> Seq<char> {
    name + seq![':'] + game_version + seq![':'] + match loader_slug_text(loader) {
        Some(s) => s,
        None => "vanilla"@,
    }
}

/// The search context of an instance; results of another context are stale.
pub fn discovery_context(instance: &InstanceConfig) -> (r: String)
    ensures
        r@ == context_text(instance.name@, instance.game_version@, instance.loader),
{
    let slug = match loader_slug(instance.loader) {
        Some(s) => s,
        None => "vanilla",
    };
    proof { reveal_strlit(":"); }
    let head = concat3(instance.name.as_str(), ":", instance.game_version.as_str());
    concat3(head.as_str(), ":", slug)
}

/// `[` asks for the previous page, `]` for the next.
pub fn page_key_direction(key: &KeyEvent) -> (r: Option<bool>)
    ensures
        r == (if key.code == KeyCode::Char('[') { Some(false) }
            else if key.code == KeyCode::Char(']') { Some(true) } else { None }),
{
    match key.code {
        KeyCode::Char('[') => Some(false),
        KeyCode::Char(']') => Some(true),
        _ => None,
    }
}

/// How many rows a page request asks for: four screens of rows, at most a full page.
pub open spec fn request_limit_spec(viewport_rows: u16) -> usize {
    let items = viewport_rows / 3;
    if items == 0 {
        PAGE_SIZE
    } else if items * 4 < PAGE_SIZE {
        (items * 4) as usize
    } else {
        PAGE_SIZE
    }
}

/// How many rows are kept loaded ahead of the selection.
pub open spec fn prefetch_items(viewport_rows: u16) -> int {
    let viewport = (viewport_rows as int + 2) / 3;
    if viewport * 2 > MIN_PREFETCH_ITEMS { viewport * 2 } else { MIN_PREFETCH_ITEMS as int }
}

/// The wait before retry number `attempt` (counting from zero): doubling from the
/// base delay, capped.
pub open spec fn retry_delay(attempt: u32) -> u64 {
    let doubled = PAGE_RETRY_BASE_DELAY_MS * pow2_capped(attempt);
    if doubled < PAGE_RETRY_MAX_DELAY_MS { doubled as u64 } else { PAGE_RETRY_MAX_DELAY_MS }
}

/// Two to the power of `attempt`, with the exponent capped at four.
pub open spec fn pow2_capped(attempt: u32) -> int {
    if attempt == 0 { 1 } else if attempt == 1 { 2 } else if attempt == 2 { 4 } else if attempt == 3 { 8 } else { 16 }
}

/// An optional time plus a delay, saturating.
pub open spec fn add_ms(now: u64, delay: u64) -> u64 {
    if now + delay > u64::MAX { u64::MAX } else { (now + delay) as u64 }
}


/// The version chooser of one project.
pub struct VersionPopupState {
    pub request_id: u64,
    pub project_id: String,
    pub provider: String,
    pub project_title: String,
    /// The same project at each provider that offers it; the one shown is at `source_index`.
    pub sources: Vec<ProviderProject>,
    pub source_index: usize,
    pub installed_path: Option<String>,
    pub current_version_id: Option<String>,
    pub minecraft_versions: Vec<String>,
    pub selected_minecraft_version: Option<String>,
    pub selecting_minecraft_version: bool,
    pub selecting_world: bool,
    pub worlds: ContentListState,
    /// The world a datapack goes into: its name and directory.
    pub target_world: Option<(String, String)>,
    pub versions: Vec<VersionInfo>,
    pub selected: usize,
    pub loading: bool,
    pub resolving_dependencies: bool,
    pub confirming: bool,
    pub installing: bool,
    pub dependency_plan: Option<DependencyPlan>,
    pub error: Option<String>,
}

/// Whether `s` holds a string with the characters `x`.
pub open spec fn seq_has(s: Seq<String>, x: Seq<char>) -> bool {
    exists|k: int| 0 <= k < s.len() && s[k]@ == x
}

fn vec_has(v: &Vec<String>, x: &str) -> (r: bool)
    ensures
        r == seq_has(v@, x@),
{
    let mut i: usize = 0;
    while i < v.len()
        invariant
            i <= v@.len(),
            forall|k: int| 0 <= k < i ==> v@[k]@ != x@,
        decreases v@.len() - i,
    {
        if str_eq(v[i].as_str(), x) {
            return true;
        }
        i = i + 1;
    }
    false
}

impl VersionPopupState {
    /// Whether version `i` is offered for the chosen Minecraft version (all are
    /// while none is chosen).
    pub open spec fn version_shown(&self, i: int) -> bool {
        match self.selected_minecraft_version {
            Some(mc) => seq_has(self.versions@[i].game_versions@, mc@),
            None => true,
        }
    }

    /// The indices of the offered versions among the first `n`, in order.
    pub open spec fn shown_upto(&self, n: int) -> Seq<usize>
        decreases n,
    {
        if n <= 0 {
            Seq::empty()
        } else if self.version_shown(n - 1) {
            self.shown_upto(n - 1).push((n - 1) as usize)
        } else {
            self.shown_upto(n - 1)
        }
    }

    pub open spec fn shown(&self) -> Seq<usize> {
        self.shown_upto(self.versions@.len() as int)
    }

    /// The index of the selected version among all versions.
    pub open spec fn selected_index(&self) -> Option<int> {
        if self.selected < self.shown().len() { Some(self.shown()[self.selected as int] as int) } else { None }
    }

    pub proof fn lemma_shown_upto(&self, n: int)
        requires
            0 <= n <= self.versions@.len(),
        ensures
            self.shown_upto(n).len() <= n,
            forall|k: int| 0 <= k < self.shown_upto(n).len() ==> (#[trigger] self.shown_upto(n)[k]) < n,
        decreases n,
    {
        if n > 0 {
            self.lemma_shown_upto(n - 1);
            let p = self.shown_upto(n - 1);
            if self.version_shown(n - 1) {
                assert forall|k: int| 0 <= k < self.shown_upto(n).len() implies (#[trigger] self.shown_upto(n)[k]) < n by {
                    if k < p.len() {
                        assert(self.shown_upto(n)[k] == p[k]);
                    }
                }
            }
        }
    }

    /// The indices of the versions offered for the chosen Minecraft version.
    pub fn visible_versions(&self) -> (r: Vec<usize>)
        ensures
            r@ == self.shown(),
    {
        let mut r: Vec<usize> = Vec::new();
        let mut i: usize = 0;
        while i < self.versions.len()
            invariant
                i <= self.versions@.len(),
                r@ == self.shown_upto(i as int),
            decreases self.versions@.len() - i,
        {
            let shown = match &self.selected_minecraft_version {
                Some(mc) => vec_has(&self.versions[i].game_versions, mc.as_str()),
                None => true,
            };
            if shown {
                r.push(i);
            }
            i = i + 1;
        }
        r
    }

    /// The selected version.
    pub fn selected_version(&self) -> (r: Option<&VersionInfo>)
        ensures
            match r {
                Some(v) => self.selected_index() matches Some(i) && 0 <= i < self.versions@.len() && *v == self.versions@[i],
                None => self.selected_index() is None,
            },
    {
        let shown = self.visible_versions();
        proof { self.lemma_shown_upto(self.versions@.len() as int); }
        if self.selected < shown.len() {
            Some(&self.versions[shown[self.selected]])
        } else {
            None
        }
    }

    /// How many rows the popup lists: Minecraft versions, worlds or versions.
    pub fn item_count(&self) -> (r: usize)
        ensures
            r == (if self.selecting_minecraft_version { self.minecraft_versions@.len() }
                else if self.selecting_world { self.worlds.filtered().len() }
                else { self.shown().len() }),
    {
        if self.selecting_minecraft_version {
            self.minecraft_versions.len()
        } else if self.selecting_world {
            self.worlds.filtered_indices().len()
        } else {
            self.visible_versions().len()
        }
    }

    /// The popup's title: installing, changing the installed version, or
    /// reinstalling the installed version.
    pub open spec fn title_text(&self) -> Seq<char> {
        let installed = self.installed_path is Some || self.current_version_id is Some;
        if installed && (self.current_version_id matches Some(c)
            && self.selected_index() matches Some(i) && self.versions@[i].id@ == c@) {
            "Reinstall "@ + self.project_title@
        } else if installed {
            "Change "@ + self.project_title@ + " version"@
        } else {
            "Install "@ + self.project_title@
        }
    }

    pub fn title(&self) -> (r: String)
        ensures
            r@ == self.title_text(),
    {
        let installed = self.installed_path.is_some() || self.current_version_id.is_some();
        let reinstall = match (&self.current_version_id, self.selected_version()) {
            (Some(c), Some(v)) => str_eq(v.id.as_str(), c.as_str()),
            _ => false,
        };
        if installed && reinstall {
            concat("Reinstall ", self.project_title.as_str())
        } else if installed {
            concat3("Change ", self.project_title.as_str(), " version")
        } else {
            concat("Install ", self.project_title.as_str())
        }
    }

    /// The display name of the provider shown.
    pub fn provider_label(&self) -> (r: &'static str)
        ensures
            r@ == (if self.provider@ == "curseforge"@ { "CurseForge"@ } else { "Modrinth"@ }),
    {
        if str_eq(self.provider.as_str(), "curseforge") { "CurseForge" } else { "Modrinth" }
    }
}

/// The request for the versions of a project.
#[derive(Debug)]
pub struct VersionsRequest {
    pub request_id: u64,
    pub project_id: String,
    pub provider: String,
    pub current_version_id: Option<String>,
}

/// The request for a project's page.
#[derive(Debug)]
pub struct ProjectPageRequest {
    pub request_id: u64,
    pub project_id: String,
    pub project_title: String,
    pub provider: String,
}

/// The open project page.
#[derive(Debug)]
pub struct ProjectPageState {
    pub request_id: u64,
    pub project_id: String,
    pub title: String,
    /// The page's text once loaded.
    pub body: Option<String>,
    pub error: Option<String>,
    pub scroll: usize,
    pub max_scroll: usize,
}

/// What installing a version sets out from.
#[derive(Debug)]
pub struct InstallRoot {
    pub provider: String,
    pub project_id: String,
    pub title: String,
    pub version: VersionInfo,
    pub installed_path: Option<String>,
    pub kind: ContentKind,
    pub target_world: Option<String>,
    pub force_reinstall: bool,
}

/// The request to work out what installing a version brings along.
#[derive(Debug)]
pub struct DependencyRequest {
    pub request_id: u64,
    pub project_id: String,
    pub root: InstallRoot,
}

/// The request to install a version.
#[derive(Debug)]
pub struct InstallRequest {
    pub request_id: u64,
    pub generation: u64,
    pub project_id: String,
    pub project_title: String,
    pub provider: String,
    pub version: VersionInfo,
    pub installed_path: Option<String>,
    pub dependency_plan: Option<DependencyPlan>,
    pub target_world: Option<(String, String)>,
}

/// How an install ended.
#[derive(Debug)]
pub struct InstallCompletion {
    pub path: String,
    pub replaced: bool,
    pub skipped: bool,
    pub orphaned_dependencies: Vec<String>,
}

/// The answer to a request of the version popup or project page.
#[derive(Debug)]
pub enum DiscoveryActionResult {
    ProjectPage { request_id: u64, project_id: String, result: Result<ProjectInfo, String> },
    Versions { request_id: u64, project_id: String, result: Result<Vec<VersionInfo>, String> },
    Dependencies { request_id: u64, project_id: String, result: Result<DependencyPlan, String> },
    Install { request_id: u64, generation: u64, project_id: String, project_title: String, result: Result<InstallCompletion, String> },
}

/// A message for the user about a finished install.
#[derive(Debug)]
pub struct InstallNotice {
    pub id: u64,
    pub error: bool,
    pub message: String,
}


/// The discovery view of one content kind (or of modpacks).
pub struct DiscoveryState {
    pub kind: ContentKind,
    pub modpacks: bool,
    pub list: ContentListState,
    pub search: SearchState,
    pub total_hits: usize,
    pub error: Option<String>,
    /// The search context the rows belong to.
    pub context: Option<String>,
    /// Counts searches; a result of an earlier search is stale.
    pub generation: u64,
    /// Project pages loaded so far.
    pub project_pages: Vec<ProjectInfo>,
    /// For each row stem, the provider projects behind it.
    pub sources: Vec<(String, Vec<ProviderProject>)>,
    pub project_page: Option<ProjectPageState>,
    pub version_popup: Option<VersionPopupState>,
    pub pending_orphan_cleanup: Option<Vec<String>>,
    pub next_action_request_id: u64,
    pub stream: Option<ContentStream>,
    pub next_offset: usize,
    pub page_loading: bool,
    pub exhausted: bool,
    pub viewport_rows: u16,
    /// When the query was last typed into (ms).
    pub search_changed_at: Option<u64>,
    /// When the failed page may be asked for again (ms).
    pub retry_page_at: Option<u64>,
    pub page_retry_attempt: u32,
}

/// `n + 1`, wrapping to zero.
pub open spec fn next_id(n: u64) -> u64 {
    if n == u64::MAX { 0 } else { (n + 1) as u64 }
}

fn next_id_exec(n: u64) -> (r: u64)
    ensures
        r == next_id(n),
{
    if n == u64::MAX { 0 } else { n + 1 }
}

/// The stems of the rows whose icon is loaded, in order.
pub open spec fn icon_stems(entries: Seq<ContentEntry>) -> Seq<Seq<char>>
    decreases entries.len(),
{
    if entries.len() == 0 {
        Seq::empty()
    } else if entries.last().icon_bytes is Some {
        icon_stems(entries.drop_last()).push(entries.last().file_stem@)
    } else {
        icon_stems(entries.drop_last())
    }
}

/// Identity, stem and provider of each provider row with a slug; a later row
/// replaces an earlier one with the same identity.
pub open spec fn known_of(entries: Seq<ContentEntry>) -> Seq<KnownRow>
    decreases entries.len(),
{
    if entries.len() == 0 {
        Seq::empty()
    } else {
        let e = entries.last();
        let rest = known_of(entries.drop_last());
        match (e.provider_project, e.source_slug) {
            (Some(p), Some(slug)) => key_set(rest, identity_spec(e.name@, slug@), e.file_stem@, p.provider@),
            _ => rest,
        }
    }
}

fn collect_icon_stems(entries: &Vec<ContentEntry>) -> (r: Vec<String>)
    ensures
        r@.map_values(|s: String| s@) == icon_stems(entries@),
{
    let mut r: Vec<String> = Vec::new();
    let mut i: usize = 0;
    while i < entries.len()
        invariant
            i <= entries@.len(),
            r@.map_values(|s: String| s@) == icon_stems(entries@.take(i as int)),
        decreases entries@.len() - i,
    {
        assert(entries@.take(i + 1).drop_last() =~= entries@.take(i as int));
        assert(entries@.take(i + 1).last() == entries@[i as int]);
        if entries[i].icon_bytes.is_some() {
            let ghost before = r@;
            r.push(entries[i].file_stem.clone());
            assert(r@.map_values(|s: String| s@) =~= before.map_values(|s: String| s@).push(entries@[i as int].file_stem@));
        }
        i = i + 1;
    }
    assert(entries@.take(entries@.len() as int) =~= entries@);
    r
}

fn collect_known_projects(entries: &Vec<ContentEntry>) -> (r: Vec<(String, (String, String))>)
    ensures
        known_view(r@) == known_of(entries@),
{
    let mut r: Vec<(String, (String, String))> = Vec::new();
    let mut i: usize = 0;
    assert(known_view(r@) =~= Seq::<KnownRow>::empty());
    while i < entries.len()
        invariant
            i <= entries@.len(),
            known_view(r@) == known_of(entries@.take(i as int)),
        decreases entries@.len() - i,
    {
        assert(entries@.take(i + 1).drop_last() =~= entries@.take(i as int));
        assert(entries@.take(i + 1).last() == entries@[i as int]);
        let e = &entries[i];
        match (&e.provider_project, &e.source_slug) {
            (Some(p), Some(slug)) => {
                let identity = project_identity_parts(e.name.as_str(), slug.as_str());
                let value = (e.file_stem.clone(), p.provider.clone());
                let ghost before = r@;
                let ghost row = (identity@, e.file_stem@, p.provider@);
                match find_key(&r, identity.as_str()) {
                    Some(k) => {
                        r.set(k, (identity, value));
                        assert(known_view(r@) =~= known_view(before).update(k as int, row));
                    },
                    None => {
                        r.push((identity, value));
                        assert(known_view(r@) =~= known_view(before).push(row));
                    },
                }
            },
            _ => {},
        }
        i = i + 1;
    }
    assert(entries@.take(entries@.len() as int) =~= entries@);
    r
}

impl DiscoveryState {
    /// Whether more rows should be asked for at time `now`: nothing is loading, the
    /// results go on, and fewer rows than needed are loaded ahead of the selection.
    pub open spec fn should_load_more_spec(&self, now: u64) -> bool {
        if self.page_loading || self.exhausted || self.error is Some || self.stream is None
            || self.search_changed_at is Some || (self.retry_page_at matches Some(t) && now < t) {
            false
        } else {
            let viewport = (self.viewport_rows as int + 2) / 3;
            let ahead = prefetch_items(self.viewport_rows);
            let len = self.list.entries@.len();
            let selected = match self.list.list_state.selected { Some(k) => k as int, None => 0 };
            len < viewport + ahead || selected + ahead >= len
        }
    }

    /// A discovery view of `kind` as created: nothing loaded, nothing open, no
    /// search typed, no paging state.
    pub open spec fn is_fresh(self, kind: ContentKind) -> bool {
        &&& self.kind == kind
        &&& self.list.entries@.len() == 0
        &&& self.context is None
        &&& self.generation == 0
        &&& self.total_hits == 0
        &&& self.error is None
        &&& self.project_page is None
        &&& self.version_popup is None
        &&& self.stream is None
        &&& self.sources@.len() == 0
        &&& !self.page_loading
        &&& !self.exhausted
        &&& self.viewport_rows == 0
        &&& self.search.query@.len() == 0
        &&& !self.search.active
        &&& self.search_changed_at is None
        &&& self.retry_page_at is None
        &&& self.page_retry_attempt == 0
        &&& self.next_action_request_id == 0
        &&& self.pending_orphan_cleanup is None
        &&& self.project_pages@.len() == 0
        &&& self.next_offset == 0
        &&& self.list.list_state.selected is None
        &&& self.list.hidden_stems() == Set::<Seq<char>>::empty()
        &&& self.list.filters_search()
        &&& self.list.page_layout() is None
        &&& self.list.search.query@.len() == 0
        &&& !self.list.search.active
    }

    /// A fresh discovery view of `kind`.
    pub fn new(kind: ContentKind) -> (r: DiscoveryState)
        ensures
            r.is_fresh(kind),
            !r.modpacks,
    {
        DiscoveryState {
            kind,
            modpacks: false,
            list: ContentListState::new(),
            search: SearchState::new(),
            total_hits: 0,
            error: None,
            context: None,
            generation: 0,
            project_pages: Vec::new(),
            sources: Vec::new(),
            project_page: None,
            version_popup: None,
            pending_orphan_cleanup: None,
            next_action_request_id: 0,
            stream: None,
            next_offset: 0,
            page_loading: false,
            exhausted: false,
            viewport_rows: 0,
            search_changed_at: None,
            retry_page_at: None,
            page_retry_attempt: 0,
        }
    }

    /// A fresh discovery view of modpacks.
    pub fn new_modpacks() -> (r: DiscoveryState)
        ensures
            r.modpacks,
            r.is_fresh(ContentKind::ResourcePack),
    {
        let mut state = DiscoveryState::new(ContentKind::ResourcePack);
        state.modpacks = true;
        state
    }

    /// Whether the rows shown are not for `instance`'s search context.
    pub fn needs_search(&self, instance: &InstanceConfig) -> (r: bool)
        ensures
            r == (opt_view(self.context) != Some(context_text(instance.name@, instance.game_version@, instance.loader))),
    {
        let context = discovery_context(instance);
        match &self.context {
            Some(c) => !str_eq(c.as_str(), context.as_str()),
            None => true,
        }
    }

    pub fn set_viewport_rows(&mut self, rows: u16)
        ensures
            *final(self) == (DiscoveryState { viewport_rows: rows, ..*old(self) }),
    {
        self.viewport_rows = rows;
    }

    /// How many rows a page request asks for.
    pub fn request_limit(&self) -> (r: usize)
        ensures
            r == request_limit_spec(self.viewport_rows),
    {
        let items = (self.viewport_rows / 3) as usize;
        if items == 0 {
            PAGE_SIZE
        } else if items * 4 < PAGE_SIZE {
            items * 4
        } else {
            PAGE_SIZE
        }
    }

    /// Whether another page should be asked for at time `now` (ms).
    pub fn should_load_more(&self, now: u64) -> (r: bool)
        ensures
            r == self.should_load_more_spec(now),
    {
        let retry_pending = match self.retry_page_at {
            Some(t) => now < t,
            None => false,
        };
        if self.page_loading || self.exhausted || self.error.is_some() || self.stream.is_none()
            || self.search_changed_at.is_some() || retry_pending {
            return false;
        }
        let viewport = ((self.viewport_rows as usize) + 2) / 3;
        let ahead = if viewport * PREFETCH_VIEWPORTS > MIN_PREFETCH_ITEMS { viewport * PREFETCH_VIEWPORTS } else { MIN_PREFETCH_ITEMS };
        let len = self.list.entries.len();
        let selected = match self.list.list_state.selected { Some(k) => k, None => 0 };
        len < viewport + ahead || selected >= len || len - selected <= ahead
    }

    /// Whether the typed query has rested long enough at time `now` to be searched.
    pub fn search_due(&self, now: u64) -> (r: bool)
        ensures
            r == (self.search_changed_at matches Some(t) && now >= t + SEARCH_DEBOUNCE_MS),
    {
        match self.search_changed_at {
            Some(t) => now >= t && now - t >= SEARCH_DEBOUNCE_MS,
            None => false,
        }
    }

    /// Records a change of the typed query at time `now`: the rows are filtered by
    /// nothing until the new search runs.
    pub fn search_changed(&mut self, now: u64)
        ensures
            final(self).list.search.query@ == old(self).search.query@,
            final(self).list.search.active == old(self).list.search.active,
            !final(self).list.filters_search(),
            final(self).list.entries == old(self).list.entries,
            final(self).search_changed_at == Some(now),
            *final(self) == (DiscoveryState { list: final(self).list, search_changed_at: Some(now), ..*old(self) }),
    {
        self.list.set_query(self.search.query.clone());
        self.list.set_search_filtering(false);
        self.search_changed_at = Some(now);
    }

    pub fn project_page_open(&self) -> (r: bool)
        ensures
            r == self.project_page is Some,
    {
        self.project_page.is_some()
    }

    /// The text shown when there are no rows: the error, else what was not found.
    pub fn empty_text(&self) -> (r: String)
        ensures
            r@ == match self.error {
                Some(e) => e@,
                None => if self.modpacks { "No modpacks found."@ }
                    else if self.kind == ContentKind::DataPack { "No datapacks found."@ }
                    else { "No projects found."@ },
            },
    {
        match &self.error {
            Some(e) => e.clone(),
            None => if self.modpacks {
                owned("No modpacks found.")
            } else if self.kind == ContentKind::DataPack {
                owned("No datapacks found.")
            } else {
                owned("No projects found.")
            },
        }
    }

    /// Hands out the dependencies an install left without a dependent, once.
    pub fn take_orphan_cleanup(&mut self) -> (r: Option<Vec<String>>)
        ensures
            r == old(self).pending_orphan_cleanup,
            *final(self) == (DiscoveryState { pending_orphan_cleanup: None, ..*old(self) }),
    {
        self.pending_orphan_cleanup.take()
    }
}


impl DiscoveryState {
    /// What starting a search in `context` leaves, beside the request it returns.
    pub open spec fn search_started(self, before: Self, context: Seq<char>, r: DiscoveryRequest) -> bool {
        let reconcile = opt_view(before.context) == Some(context) && before.list.entries@.len() > 0;
        &&& self.generation == next_id(before.generation)
        &&& self.project_page is None
        &&& self.version_popup is None
        &&& self.sources@.len() == 0
        &&& opt_view(self.context) == Some(context)
        &&& self.total_hits == 0
        &&& self.error is None
        &&& self.next_offset == 0
        &&& self.page_loading
        &&& !self.exhausted
        &&& self.search_changed_at is None
        &&& self.retry_page_at is None
        &&& self.page_retry_attempt == 0
        &&& self.stream is Some
        &&& self.search == before.search
        &&& self.kind == before.kind
        &&& self.modpacks == before.modpacks
        &&& self.viewport_rows == before.viewport_rows
        &&& self.next_action_request_id == before.next_action_request_id
        &&& self.list.search.query@ == before.search.query@
        &&& !self.list.filters_search()
        &&& self.list.streaming()
        &&& opt_view(self.list.loaded_for) == Some(context)
        &&& (reconcile ==> self.list.entries == before.list.entries
            && self.list.loading == before.list.loading)
        &&& (!reconcile ==> self.list.entries@.len() == 0 && self.list.loading)
        &&& r.generation == self.generation
        &&& r.offset == 0
        &&& r.limit == request_limit_spec(before.viewport_rows)
        &&& r.reconcile == reconcile
        &&& r.loaded_icon_stems@.map_values(|x: String| x@) == (if reconcile { icon_stems(before.list.entries@) } else { Seq::empty() })
        &&& r.known_projects@.len() == 0
    }

    fn begin_search_context(&mut self, context: String) -> (r: DiscoveryRequest)
        ensures
            final(self).search_started(*old(self), context@, r),
    {
        self.generation = next_id_exec(self.generation);
        self.project_page = None;
        self.version_popup = None;
        self.sources = Vec::new();
        let reconcile = match &self.context {
            Some(c) => str_eq(c.as_str(), context.as_str()) && self.list.entries.len() > 0,
            None => false,
        };
        self.context = Some(context.clone());
        self.total_hits = 0;
        self.error = None;
        self.next_offset = 0;
        self.page_loading = true;
        self.exhausted = false;
        self.search_changed_at = None;
        self.retry_page_at = None;
        self.page_retry_attempt = 0;
        let loaded_icon_stems = if reconcile { collect_icon_stems(&self.list.entries) } else { Vec::new() };
        proof {
            if !reconcile {
                assert(loaded_icon_stems@.map_values(|x: String| x@) =~= Seq::<Seq<char>>::empty());
            }
        }
        let stream = if reconcile {
            self.list.refresh_source_stream(context)
        } else {
            self.list.start_source_stream(context)
        };
        self.list.set_query(self.search.query.clone());
        self.list.set_search_filtering(false);
        let limit = self.request_limit();
        let handed = stream.clone();
        self.stream = Some(stream);
        let r = DiscoveryRequest {
            generation: self.generation,
            offset: 0,
            limit,
            stream: handed,
            reconcile,
            loaded_icon_stems,
            known_projects: Vec::new(),
        };
        r
    }

    /// Starts a search for `instance`'s content; an earlier search's results become stale.
    pub fn begin_search(&mut self, instance: &InstanceConfig) -> (r: DiscoveryRequest)
        ensures
            final(self).search_started(*old(self), context_text(instance.name@, instance.game_version@, instance.loader), r),
    {
        let context = discovery_context(instance);
        self.begin_search_context(context)
    }

    /// Starts a search for modpacks.
    pub fn begin_modpack_search(&mut self) -> (r: DiscoveryRequest)
        ensures
            final(self).search_started(*old(self), "modpacks"@, r),
    {
        self.begin_search_context(owned("modpacks"))
    }

    /// What showing no results for `instance` leaves of `before` (see `set_unavailable`).
    pub open spec fn made_unavailable(self, before: DiscoveryState, instance: InstanceConfig) -> bool {
        let context = context_text(instance.name@, instance.game_version@, instance.loader);
        if opt_view(before.context) == Some(context) && before.list.entries@.len() == 0 {
            self == before
        } else {
            &&& self.list.entries@.len() == 0
            &&& opt_view(self.context) == Some(context)
            &&& self.stream is None
            &&& !self.page_loading
            &&& self.exhausted
            &&& self.generation == next_id(before.generation)
            &&& self.version_popup is None
            &&& self.project_page is None
        }
    }

    /// Shows no results for `instance`, for which discovery is unavailable. Nothing
    /// changes when the rows are already empty for this context.
    pub fn set_unavailable(&mut self, instance: &InstanceConfig)
        ensures
            final(self).made_unavailable(*old(self), *instance),
    {
        let context = discovery_context(instance);
        let same = match &self.context {
            Some(c) => str_eq(c.as_str(), context.as_str()),
            None => false,
        };
        if same && self.list.entries.len() == 0 {
            return;
        }
        self.context = None;
        let _request = self.begin_search_context(context);
        self.stream = None;
        self.page_loading = false;
        self.exhausted = true;
    }

    /// Asks for the next page when `should_load_more` holds at time `now`.
    pub fn begin_next_page(&mut self, now: u64) -> (r: Option<DiscoveryRequest>)
        ensures
            r is Some <==> old(self).should_load_more_spec(now),
            r is None ==> *final(self) == *old(self),
            r matches Some(req) ==> ({
                &&& *final(self) == (DiscoveryState { page_loading: true, retry_page_at: None, ..*old(self) })
                &&& req.generation == old(self).generation
                &&& req.offset == old(self).next_offset
                &&& req.limit == request_limit_spec(old(self).viewport_rows)
                &&& !req.reconcile
                &&& req.loaded_icon_stems@.map_values(|x: String| x@) == icon_stems(old(self).list.entries@)
                &&& known_view(req.known_projects@) == known_of(old(self).list.entries@)
            }),
    {
        if !self.should_load_more(now) {
            return None;
        }
        let stream = match &self.stream {
            Some(s) => s.clone(),
            None => return None,
        };
        self.page_loading = true;
        self.retry_page_at = None;
        let loaded_icon_stems = collect_icon_stems(&self.list.entries);
        let known_projects = collect_known_projects(&self.list.entries);
        Some(DiscoveryRequest {
            generation: self.generation,
            offset: self.next_offset,
            limit: self.request_limit(),
            stream,
            reconcile: false,
            loaded_icon_stems,
            known_projects,
        })
    }
}


/// The characters of a list of provider projects.
pub open spec fn refs(s: Seq<ProviderProject>) -> Seq<ProjectRef> {
    s.map_values(|p: ProviderProject| p@)
}

/// The sources of the preferred provider first, each group in its given order.
pub open spec fn preferred_sources(s: Seq<ProjectRef>, preferred: Seq<char>) -> Seq<ProjectRef> {
    s.filter(|p: ProjectRef| p.provider == preferred) + s.filter(|p: ProjectRef| p.provider != preferred)
}

/// A pinned version id, if the reference has one.
pub open spec fn pinned_version(p: ProjectRef) -> Option<Seq<char>> {
    if p.version_id.len() > 0 { Some(p.version_id) } else { None }
}

pub open spec fn opt_pair_view(o: Option<(String, String)>) -> Option<(Seq<char>, Seq<char>)> {
    match o {
        Some(p) => Some((p.0@, p.1@)),
        None => None,
    }
}

/// The provider projects recorded for a row stem.
pub open spec fn stem_sources(s: Seq<(String, Vec<ProviderProject>)>, stem: Seq<char>) -> Option<Seq<ProjectRef>>
    decreases s.len(),
{
    if s.len() == 0 {
        None
    } else if s[0].0@ == stem {
        Some(refs(s[0].1@))
    } else {
        stem_sources(s.drop_first(), stem)
    }
}

fn order_sources(sources: Vec<ProviderProject>, preferred: &str) -> (r: Vec<ProviderProject>)
    ensures
        refs(r@) == preferred_sources(refs(sources@), preferred@),
{
    let ghost views = refs(sources@);
    let ghost is_pref = |p: ProjectRef| p.provider == preferred@;
    let ghost not_pref = |p: ProjectRef| p.provider != preferred@;
    let ghost orig = sources@;
    assert(orig.len() == sources.len());
    assert(orig.subrange(0, orig.len() as int) =~= orig);
    let mut rest = sources;
    let mut first: Vec<ProviderProject> = Vec::new();
    let mut others: Vec<ProviderProject> = Vec::new();
    let mut done: usize = 0;
    while rest.len() > 0
        invariant
            done + rest@.len() == orig.len(),
            orig.len() <= usize::MAX,
            views == refs(orig),
            rest@ == orig.subrange(done as int, orig.len() as int),
            refs(first@) == views.take(done as int).filter(is_pref),
            refs(others@) == views.take(done as int).filter(not_pref),
            is_pref == (|p: ProjectRef| p.provider == preferred@),
            not_pref == (|p: ProjectRef| p.provider != preferred@),
        decreases rest@.len(),
    {
        let item = rest.remove(0);
        assert(item == orig[done as int]);
        let ghost v = item@;
        assert(views.take(done + 1).drop_last() =~= views.take(done as int));
        assert(views.take(done + 1).last() == v);
        reveal_with_fuel(Seq::filter, 1);
        let ghost f0 = first@;
        let ghost o0 = others@;
        if str_eq(item.provider.as_str(), preferred) {
            first.push(item);
            assert(refs(first@) =~= refs(f0).push(v));
        } else {
            others.push(item);
            assert(refs(others@) =~= refs(o0).push(v));
        }
        done = done + 1;
        assert(rest@ =~= orig.subrange(done as int, orig.len() as int));
    }
    assert(views.take(views.len() as int) =~= views);
    let ghost fv = refs(first@);
    let ghost ov = refs(others@);
    let mut out = first;
    let mut others = others;
    out.append(&mut others);
    assert(refs(out@) =~= fv + ov);
    out
}

fn clone_sources(v: &Vec<ProviderProject>) -> (r: Vec<ProviderProject>)
    ensures
        refs(r@) == refs(v@),
{
    let mut r: Vec<ProviderProject> = Vec::new();
    let mut i: usize = 0;
    while i < v.len()
        invariant
            i <= v@.len(),
            refs(r@) == refs(v@.take(i as int)),
        decreases v@.len() - i,
    {
        let c = v[i].clone();
        let ghost before = r@;
        r.push(c);
        assert(v@.take(i + 1) =~= v@.take(i as int).push(v@[i as int]));
        assert(refs(r@) =~= refs(before).push(v@[i as int]@));
        assert(refs(v@.take(i + 1)) =~= refs(v@.take(i as int)).push(v@[i as int]@));
        i = i + 1;
    }
    assert(v@.take(v@.len() as int) =~= v@);
    r
}

fn find_stem_sources(s: &Vec<(String, Vec<ProviderProject>)>, stem: &str) -> (r: Option<Vec<ProviderProject>>)
    ensures
        match r {
            Some(v) => stem_sources(s@, stem@) == Some(refs(v@)),
            None => stem_sources(s@, stem@) is None,
        },
{
    let mut i: usize = 0;
    assert(s@.subrange(0, s@.len() as int) =~= s@);
    while i < s.len()
        invariant
            i <= s@.len(),
            stem_sources(s@, stem@) == stem_sources(s@.subrange(i as int, s@.len() as int), stem@),
        decreases s@.len() - i,
    {
        assert(s@.subrange(i as int, s@.len() as int).drop_first() =~= s@.subrange(i + 1, s@.len() as int));
        assert(s@.subrange(i as int, s@.len() as int)[0] == s@[i as int]);
        if str_eq(s[i].0.as_str(), stem) {
            return Some(clone_sources(&s[i].1));
        }
        i = i + 1;
    }
    None
}

impl DiscoveryState {
    /// What opening the version popup leaves: the popup for the first of the
    /// ordered sources under a new request id, and its request; nothing when
    /// there is no source.
    pub open spec fn popup_opened(
        self,
        before: Self,
        title: Seq<char>,
        sources: Seq<ProjectRef>,
        installed_path: Option<Seq<char>>,
        target_world: Option<(Seq<char>, Seq<char>)>,
        preferred: Seq<char>,
        choose_minecraft: bool,
        r: Option<VersionsRequest>,
    ) -> bool {
        let ordered = preferred_sources(sources, preferred);
        if ordered.len() == 0 {
            r is None && self == before
        } else {
            let first = ordered[0];
            let id = next_id(before.next_action_request_id);
            &&& self == (DiscoveryState { version_popup: self.version_popup, next_action_request_id: id, ..before })
            &&& self.version_popup matches Some(p) && {
                &&& p.request_id == id
                &&& p.project_id@ == first.project_id
                &&& p.provider@ == first.provider
                &&& p.project_title@ == title
                &&& refs(p.sources@) == ordered
                &&& p.source_index == 0
                &&& opt_view(p.installed_path) == installed_path
                &&& opt_view(p.current_version_id) == pinned_version(first)
                &&& p.minecraft_versions@.len() == 0
                &&& p.selected_minecraft_version is None
                &&& p.selecting_minecraft_version == choose_minecraft
                &&& !p.selecting_world
                &&& p.worlds.entries@.len() == 0
                &&& opt_pair_view(p.target_world) == target_world
                &&& p.versions@.len() == 0
                &&& p.selected == 0
                &&& p.loading
                &&& !p.resolving_dependencies
                &&& !p.confirming
                &&& !p.installing
                &&& p.dependency_plan is None
                &&& p.error is None
            }
            &&& r matches Some(q) && q.request_id == id && q.project_id@ == first.project_id
                && q.provider@ == first.provider && opt_view(q.current_version_id) == pinned_version(first)
        }
    }

    fn open_version_popup(
        &mut self,
        project_title: &str,
        sources: Vec<ProviderProject>,
        installed_path: Option<String>,
        target_world: Option<(String, String)>,
        preferred: &str,
        choose_minecraft: bool,
    ) -> (r: Option<VersionsRequest>)
        ensures
            final(self).popup_opened(*old(self), project_title@, refs(sources@), opt_view(installed_path),
                opt_pair_view(target_world), preferred@, choose_minecraft, r),
    {
        let sources = order_sources(sources, preferred);
        if sources.len() == 0 {
            return None;
        }
        let source = sources[0].clone();
        self.next_action_request_id = next_id_exec(self.next_action_request_id);
        let request_id = self.next_action_request_id;
        let current_version_id = if source.version_id.unicode_len() > 0 { Some(source.version_id.clone()) } else { None };
        let current_copy = crate::text::opt_clone(&current_version_id);
        self.version_popup = Some(VersionPopupState {
            request_id,
            project_id: source.project_id.clone(),
            provider: source.provider.clone(),
            project_title: owned(project_title),
            sources,
            source_index: 0,
            installed_path,
            current_version_id: current_copy,
            minecraft_versions: Vec::new(),
            selected_minecraft_version: None,
            selecting_minecraft_version: choose_minecraft,
            selecting_world: false,
            worlds: ContentListState::new(),
            target_world,
            versions: Vec::new(),
            selected: 0,
            loading: true,
            resolving_dependencies: false,
            confirming: false,
            installing: false,
            dependency_plan: None,
            error: None,
        });
        Some(VersionsRequest { request_id, project_id: source.project_id, provider: source.provider, current_version_id })
    }

    /// The sources recorded for a row: those found by the search, else the row's own project.
    pub open spec fn row_sources(self, e: ContentEntry) -> Seq<ProjectRef> {
        match stem_sources(self.sources@, e.file_stem@) {
            Some(l) => l,
            None => match e.provider_project {
                Some(p) => seq![p@],
                None => Seq::empty(),
            },
        }
    }

    /// Opens the version popup for the selected row. Datapacks are installed per
    /// world, so their popup starts without an installed path.
    pub fn begin_versions(&mut self, preferred: &str) -> (r: Option<VersionsRequest>)
        ensures
            match old(self).list.selected_row() {
                None => r is None && *final(self) == *old(self),
                Some(i) => {
                    let e = old(self).list.entries@[i];
                    final(self).popup_opened(*old(self), e.name@, old(self).row_sources(e),
                        if old(self).kind != ContentKind::DataPack { opt_view(e.installed_path) } else { None },
                        None, preferred@, old(self).modpacks, r)
                },
            },
    {
        let index = match self.list.selected_index() {
            Some(i) => i,
            None => return None,
        };
        let entry = &self.list.entries[index];
        let name = entry.name.clone();
        let installed_path = if self.kind != ContentKind::DataPack { crate::text::opt_clone(&entry.installed_path) } else { None };
        let sources = match find_stem_sources(&self.sources, entry.file_stem.as_str()) {
            Some(v) => v,
            None => match &entry.provider_project {
                Some(p) => {
                    let v = vec![p.clone()];
                    assert(refs(v@) =~= seq![p@]);
                    v
                },
                None => {
                    let v: Vec<ProviderProject> = Vec::new();
                    assert(refs(v@) =~= Seq::<ProjectRef>::empty());
                    v
                },
            },
        };
        let choose_minecraft = self.modpacks;
        self.open_version_popup(name.as_str(), sources, installed_path, None, preferred, choose_minecraft)
    }

    /// Opens the version popup of a managed modpack's own project, straight at its versions.
    pub fn begin_managed_modpack_versions(&mut self, project_title: &str, source: ProviderProject, preferred: &str)
        -> (r: Option<VersionsRequest>)
        ensures
            r is Some,
            final(self).popup_opened(*old(self), project_title@, seq![source@], None, None, preferred@, false, r),
    {
        let ghost sv = source@;
        let v = vec![source];
        assert(refs(v@) =~= seq![sv]);
        proof {
            reveal_with_fuel(Seq::filter, 2);
            assert(preferred_sources(seq![sv], preferred@).len() == 1);
        }
        self.open_version_popup(project_title, v, None, None, preferred, false)
    }
}


/// Whether `l` holds the same project as `p`.
pub open spec fn has_same(l: Seq<ProjectRef>, p: ProjectRef) -> bool {
    exists|i: int| 0 <= i < l.len() && same_project(l[i], p)
}

/// `l` followed by those of `extra` whose project is not in it yet, in order.
pub open spec fn append_new(l: Seq<ProjectRef>, extra: Seq<ProjectRef>) -> Seq<ProjectRef>
    decreases extra.len(),
{
    if extra.len() == 0 {
        l
    } else {
        let r = append_new(l, extra.drop_last());
        if has_same(r, extra.last()) { r } else { r.push(extra.last()) }
    }
}

/// Whether some project of `a` is one of `b`.
pub open spec fn overlaps(a: Seq<ProjectRef>, b: Seq<ProjectRef>) -> bool {
    exists|i: int| 0 <= i < a.len() && has_same(b, a[i])
}

/// The first recorded row (from `k` on) whose sources share a project with `installed`.
pub open spec fn first_overlap_from(s: Seq<(String, Vec<ProviderProject>)>, installed: Seq<ProjectRef>, k: int) -> Option<int>
    decreases s.len() - k,
{
    if k < 0 || k >= s.len() {
        None
    } else if overlaps(refs(s[k].1@), installed) {
        Some(k)
    } else {
        first_overlap_from(s, installed, k + 1)
    }
}

fn has_same_exec(l: &Vec<ProviderProject>, p: &ProviderProject) -> (r: bool)
    ensures
        r == has_same(refs(l@), p@),
{
    let mut i: usize = 0;
    while i < l.len()
        invariant
            i <= l@.len(),
            forall|j: int| 0 <= j < i ==> !same_project(refs(l@)[j], p@),
        decreases l@.len() - i,
    {
        if l[i].same_project_as(p) {
            assert(same_project(refs(l@)[i as int], p@));
            return true;
        }
        i = i + 1;
    }
    false
}

fn append_new_exec(l: &mut Vec<ProviderProject>, extra: &Vec<ProviderProject>)
    ensures
        refs(final(l)@) == append_new(refs(old(l)@), refs(extra@)),
{
    let ghost base = refs(l@);
    let mut i: usize = 0;
    assert(refs(extra@.take(0)) =~= Seq::<ProjectRef>::empty());
    while i < extra.len()
        invariant
            i <= extra@.len(),
            refs(l@) == append_new(base, refs(extra@.take(i as int))),
        decreases extra@.len() - i,
    {
        assert(refs(extra@.take(i + 1)).drop_last() =~= refs(extra@.take(i as int)));
        assert(refs(extra@.take(i + 1)).last() == extra@[i as int]@);
        if !has_same_exec(l, &extra[i]) {
            let ghost before = refs(l@);
            l.push(extra[i].clone());
            assert(refs(l@) =~= before.push(extra@[i as int]@));
        }
        i = i + 1;
    }
    assert(extra@.take(extra@.len() as int) =~= extra@);
}

fn overlaps_exec(a: &Vec<ProviderProject>, b: &Vec<ProviderProject>) -> (r: bool)
    ensures
        r == overlaps(refs(a@), refs(b@)),
{
    let mut i: usize = 0;
    while i < a.len()
        invariant
            i <= a@.len(),
            forall|j: int| 0 <= j < i ==> !has_same(refs(b@), refs(a@)[j]),
        decreases a@.len() - i,
    {
        if has_same_exec(b, &a[i]) {
            assert(has_same(refs(b@), refs(a@)[i as int]));
            return true;
        }
        i = i + 1;
    }
    false
}

impl DiscoveryState {
    /// The sources offered for an installed file: the project it was identified as,
    /// its aliases, and the sources of the first search row that shares one of them.
    pub open spec fn installed_sources(self, current: ProjectRef, aliases: Seq<ProjectRef>) -> Seq<ProjectRef> {
        let base = append_new(seq![current], aliases);
        match first_overlap_from(self.sources@, base, 0) {
            Some(k) => append_new(base, refs(self.sources@[k].1@)),
            None => base,
        }
    }

    /// Opens the version popup for an installed file from its manifest record.
    /// Nothing opens for a file that was not identified.
    pub fn begin_installed_versions(
        &mut self,
        entry: &ContentEntry,
        record: &ContentFileRecord,
        target_world: Option<(String, String)>,
        preferred: &str,
    ) -> (r: Option<VersionsRequest>)
        ensures
            match record.project {
                None => r is None && *final(self) == *old(self),
                Some(cur) => final(self).popup_opened(*old(self), entry.name@,
                    old(self).installed_sources(cur@, refs(record.provider_aliases@)),
                    Some(entry.path@), opt_pair_view(target_world), preferred@, old(self).modpacks, r),
            },
    {
        let current = match &record.project {
            Some(p) => p.clone(),
            None => return None,
        };
        let mut sources = vec![current];
        assert(refs(sources@) =~= seq![current@]);
        append_new_exec(&mut sources, &record.provider_aliases);
        let ghost base = refs(sources@);
        let mut k: usize = 0;
        let mut found: Option<usize> = None;
        while k < self.sources.len()
            invariant_except_break
                found is None,
            invariant
                k <= self.sources@.len(),
                refs(sources@) == base,
                first_overlap_from(self.sources@, base, 0) == first_overlap_from(self.sources@, base, k as int),
            ensures
                found matches Some(j) ==> j < self.sources@.len() && first_overlap_from(self.sources@, base, 0) == Some(j as int),
                found is None ==> first_overlap_from(self.sources@, base, 0) is None,
            decreases self.sources@.len() - k,
        {
            if overlaps_exec(&self.sources[k].1, &sources) {
                found = Some(k);
                break;
            }
            k = k + 1;
        }
        if let Some(k) = found {
            let extra = clone_sources(&self.sources[k].1);
            let ghost before = refs(sources@);
            append_new_exec(&mut sources, &extra);
            proof {
                assert(refs(extra@) == refs(self.sources@[k as int].1@));
            }
        }
        let name = entry.name.clone();
        let path = entry.path.clone();
        let choose_minecraft = self.modpacks;
        self.open_version_popup(name.as_str(), sources, Some(path), target_world, preferred, choose_minecraft)
    }
}


/// The path of the first record (from `i` on) holding `provider`'s project `id`
/// whose file lies under `dir`.
pub open spec fn path_under_from(files: Seq<ContentFileRecord>, provider: Seq<char>, id: Seq<char>,
    minecraft_dir: Seq<char>, dir: Seq<char>, i: int) -> Option<Seq<char>>
    decreases files.len() - i,
{
    if i < 0 || i >= files.len() {
        None
    } else if crate::model::record_project(files[i], provider, id) is Some
        && crate::text::is_prefix(dir + seq!['/'], crate::path::join_spec(minecraft_dir, files[i].relative_path@)) {
        Some(crate::path::join_spec(minecraft_dir, files[i].relative_path@))
    } else {
        path_under_from(files, provider, id, minecraft_dir, dir, i + 1)
    }
}

/// The installed path under `dir` of the first source that has one.
pub open spec fn sources_path_under(sources: Seq<ProjectRef>, files: Seq<ContentFileRecord>,
    minecraft_dir: Seq<char>, dir: Seq<char>, k: int) -> Option<Seq<char>>
    decreases sources.len() - k,
{
    if k < 0 || k >= sources.len() {
        None
    } else {
        match path_under_from(files, sources[k].provider, sources[k].project_id, minecraft_dir, dir, 0) {
            Some(p) => Some(p),
            None => sources_path_under(sources, files, minecraft_dir, dir, k + 1),
        }
    }
}

fn path_under(manifest: &ContentManifest, provider: &str, id: &str, minecraft_dir: &str, dir: &str) -> (r: Option<String>)
    ensures
        opt_view(r) == path_under_from(manifest.files@, provider@, id@, minecraft_dir@, dir@, 0),
{
    let prefix = concat(dir, "/");
    proof { reveal_strlit("/"); }
    let mut i: usize = 0;
    while i < manifest.files.len()
        invariant
            i <= manifest.files@.len(),
            prefix@ == dir@ + seq!['/'],
            path_under_from(manifest.files@, provider@, id@, minecraft_dir@, dir@, 0)
                == path_under_from(manifest.files@, provider@, id@, minecraft_dir@, dir@, i as int),
        decreases manifest.files@.len() - i,
    {
        let rec = &manifest.files[i];
        if rec.project_for_provider(provider, id).is_some() {
            let full = crate::path::join(minecraft_dir, rec.relative_path.as_str());
            if crate::text::starts_with(full.as_str(), prefix.as_str()) {
                return Some(full);
            }
        }
        i = i + 1;
    }
    None
}

impl DiscoveryState {
    /// Shows the same project at the next provider that offers it, asking for its versions.
    pub fn switch_version_source(&mut self) -> (r: Option<VersionsRequest>)
        ensures
            match old(self).version_popup {
                None => r is None && *final(self) == *old(self),
                Some(p) => if p.loading || p.installing || p.selecting_world || p.sources@.len() < 2 {
                    r is None && *final(self) == *old(self)
                } else {
                    let idx = ((p.source_index as int + 1) % (p.sources@.len() as int)) as usize;
                    let src = p.sources@[idx as int]@;
                    let id = next_id(old(self).next_action_request_id);
                    &&& *final(self) == (DiscoveryState { version_popup: final(self).version_popup, next_action_request_id: id, ..*old(self) })
                    &&& final(self).version_popup matches Some(q) && {
                        &&& q.source_index == idx
                        &&& q.request_id == id
                        &&& q.project_id@ == src.project_id
                        &&& q.provider@ == src.provider
                        &&& q.minecraft_versions@.len() == 0
                        &&& q.selected_minecraft_version is None
                        &&& q.selecting_minecraft_version == old(self).modpacks
                        &&& !q.selecting_world
                        &&& q.worlds.entries@.len() == 0
                        &&& (if old(self).kind != ContentKind::DataPack || p.current_version_id is None {
                            q.target_world is None } else { q.target_world == p.target_world })
                        &&& opt_view(q.current_version_id) == pinned_version(src)
                        &&& q.versions@.len() == 0
                        &&& q.selected == 0
                        &&& q.loading
                        &&& !q.resolving_dependencies
                        &&& !q.confirming
                        &&& q.dependency_plan is None
                        &&& q.error is None
                        &&& q.sources == p.sources
                        &&& q.project_title == p.project_title
                        &&& q.installed_path == p.installed_path
                        &&& q.installing == p.installing
                    }
                    &&& r matches Some(req) && req.request_id == id && req.project_id@ == src.project_id
                        && req.provider@ == src.provider && opt_view(req.current_version_id) == pinned_version(src)
                },
            },
    {
        let choose_minecraft = self.modpacks;
        let kind = self.kind;
        let mut popup = match self.version_popup.take() {
            Some(p) => p,
            None => return None,
        };
        if popup.loading || popup.installing || popup.selecting_world || popup.sources.len() < 2 {
            self.version_popup = Some(popup);
            return None;
        }
        let len = popup.sources.len();
        let idx = (popup.source_index % len + 1) % len;
        assert(idx == ((popup.source_index as int + 1) % (len as int))) by {
            vstd::arithmetic::div_mod::lemma_add_mod_noop(popup.source_index as int, 1, len as int);
            vstd::arithmetic::div_mod::lemma_small_mod(1, len as nat);
        }
        let source = popup.sources[idx].clone();
        self.next_action_request_id = next_id_exec(self.next_action_request_id);
        popup.source_index = idx;
        popup.request_id = self.next_action_request_id;
        popup.project_id = source.project_id.clone();
        popup.provider = source.provider.clone();
        popup.minecraft_versions = Vec::new();
        popup.selected_minecraft_version = None;
        popup.selecting_minecraft_version = choose_minecraft;
        popup.selecting_world = false;
        popup.worlds = ContentListState::new();
        if kind != ContentKind::DataPack || popup.current_version_id.is_none() {
            popup.target_world = None;
        }
        popup.current_version_id = if source.version_id.unicode_len() > 0 { Some(source.version_id.clone()) } else { None };
        popup.versions = Vec::new();
        popup.selected = 0;
        popup.loading = true;
        popup.resolving_dependencies = false;
        popup.confirming = false;
        popup.dependency_plan = None;
        popup.error = None;
        let request = VersionsRequest {
            request_id: popup.request_id,
            project_id: source.project_id,
            provider: source.provider,
            current_version_id: crate::text::opt_clone(&popup.current_version_id),
        };
        self.version_popup = Some(popup);
        Some(request)
    }

    /// Moves the popup from choosing a version to confirming it.
    pub fn begin_confirmation(&mut self) -> (r: bool)
        ensures
            match old(self).version_popup {
                None => !r && *final(self) == *old(self),
                Some(p) => if p.loading || p.installing || p.selecting_minecraft_version || p.selecting_world
                    || p.selected_index() is None {
                    !r && *final(self) == *old(self)
                } else {
                    r && *final(self) == (DiscoveryState {
                        version_popup: Some(VersionPopupState { confirming: true, error: None, ..p }), ..*old(self) })
                },
            },
    {
        let mut popup = match self.version_popup.take() {
            Some(p) => p,
            None => return false,
        };
        if popup.loading || popup.installing || popup.selecting_minecraft_version || popup.selecting_world
            || popup.selected_version().is_none() {
            self.version_popup = Some(popup);
            return false;
        }
        popup.confirming = true;
        popup.error = None;
        self.version_popup = Some(popup);
        true
    }

    /// Lists the worlds a datapack can go into; a world without an icon gets the
    /// fallback icon.
    pub fn begin_world_selection(&mut self, worlds: Vec<ContentEntry>) -> (r: bool)
        ensures
            match old(self).version_popup {
                None => !r && *final(self) == *old(self),
                Some(p) => if old(self).kind != ContentKind::DataPack || p.loading || p.installing || p.confirming
                    || p.selected_index() is None {
                    !r && *final(self) == *old(self)
                } else {
                    &&& r
                    &&& *final(self) == (DiscoveryState { version_popup: final(self).version_popup, ..*old(self) })
                    &&& final(self).version_popup matches Some(q) && {
                        &&& q == (VersionPopupState { worlds: q.worlds, selecting_world: true, target_world: None,
                            installed_path: None, dependency_plan: None, error: None, ..p })
                        &&& q.worlds.entries@.len() == worlds@.len()
                        &&& forall|i: int| 0 <= i < worlds@.len() ==> {
                            let w = #[trigger] q.worlds.entries@[i];
                            &&& w == (ContentEntry { icon_lines: w.icon_lines, ..worlds@[i] })
                            &&& w.icon_lines is Some
                            &&& (worlds@[i].icon_lines is Some ==> w.icon_lines == worlds@[i].icon_lines)
                        }
                        &&& q.worlds.list_state.selected == (if worlds@.len() > 0 { Some(0usize) } else { None })
                    }
                },
            },
    {
        let mut popup = match self.version_popup.take() {
            Some(p) => p,
            None => return false,
        };
        if self.kind != ContentKind::DataPack || popup.loading || popup.installing || popup.confirming
            || popup.selected_version().is_none() {
            self.version_popup = Some(popup);
            return false;
        }
        let ghost given = worlds@;
        let mut worlds = worlds;
        let mut i: usize = 0;
        while i < worlds.len()
            invariant
                i <= worlds@.len(),
                worlds@.len() == given.len(),
                forall|j: int| 0 <= j < given.len() ==> {
                    let w = #[trigger] worlds@[j];
                    &&& w == (ContentEntry { icon_lines: w.icon_lines, ..given[j] })
                    &&& (given[j].icon_lines is Some ==> w.icon_lines == given[j].icon_lines)
                    &&& (j < i ==> w.icon_lines is Some)
                },
            decreases worlds@.len() - i,
        {
            if worlds[i].icon_lines.is_none() {
                let mut w = worlds.remove(i);
                w.icon_lines = Some(crate::model::fallback_icon());
                worlds.insert(i, w);
            }
            i = i + 1;
        }
        let mut list = ContentListState::new();
        let selected = if worlds.len() > 0 { Some(0) } else { None };
        list.entries = worlds;
        list.list_state = ListState { selected };
        popup.worlds = list;
        popup.selecting_world = true;
        popup.target_world = None;
        popup.installed_path = None;
        popup.dependency_plan = None;
        popup.error = None;
        self.version_popup = Some(popup);
        true
    }

    /// Takes the selected world as the datapack's target; the datapack counts as
    /// installed when the manifest has one of the popup's projects in that world.
    pub fn select_world(&mut self, manifest: Option<&ContentManifest>, minecraft_dir: &str) -> (r: bool)
        ensures
            match old(self).version_popup {
                None => !r && *final(self) == *old(self),
                Some(p) => if !p.selecting_world || p.loading || p.installing || p.worlds.selected_row() is None {
                    !r && *final(self) == *old(self)
                } else {
                    let w = p.worlds.entries@[p.worlds.selected_row()->0];
                    let installed = match manifest {
                        Some(m) => sources_path_under(refs(p.sources@), m.files@, minecraft_dir@,
                            crate::path::join_spec(w.path@, "datapacks"@), 0),
                        None => None,
                    };
                    &&& r
                    &&& *final(self) == (DiscoveryState { version_popup: final(self).version_popup, ..*old(self) })
                    &&& final(self).version_popup matches Some(q) && q == (VersionPopupState {
                        installed_path: q.installed_path, target_world: q.target_world, selecting_world: false, error: None, ..p })
                    &&& opt_view(final(self).version_popup->0.installed_path) == installed
                    &&& opt_pair_view(final(self).version_popup->0.target_world) == Some((w.name@, w.path@))
                },
            },
    {
        let mut popup = match self.version_popup.take() {
            Some(p) => p,
            None => return false,
        };
        if !popup.selecting_world || popup.loading || popup.installing {
            self.version_popup = Some(popup);
            return false;
        }
        let (world_name, world_path) = match popup.worlds.selected_entry() {
            Some(w) => (w.name.clone(), w.path.clone()),
            None => {
                self.version_popup = Some(popup);
                return false;
            },
        };
        let datapacks = crate::path::join(world_path.as_str(), "datapacks");
        let mut installed: Option<String> = None;
        if let Some(m) = manifest {
            let mut k: usize = 0;
            while k < popup.sources.len()
                invariant_except_break
                    installed is None,
                invariant
                    k <= popup.sources@.len(),
                    sources_path_under(refs(popup.sources@), m.files@, minecraft_dir@, datapacks@, 0)
                        == sources_path_under(refs(popup.sources@), m.files@, minecraft_dir@, datapacks@, k as int),
                ensures
                    opt_view(installed) == sources_path_under(refs(popup.sources@), m.files@, minecraft_dir@, datapacks@, 0),
                decreases popup.sources@.len() - k,
            {
                let found = path_under(m, popup.sources[k].provider.as_str(), popup.sources[k].project_id.as_str(),
                    minecraft_dir, datapacks.as_str());
                if found.is_some() {
                    installed = found;
                    break;
                }
                k = k + 1;
            }
        }
        popup.installed_path = installed;
        popup.target_world = Some((world_name, world_path));
        popup.selecting_world = false;
        popup.error = None;
        self.version_popup = Some(popup);
        true
    }

    /// Asks what installing the selected version brings along; a version that is
    /// already installed is reinstalled.
    pub fn begin_dependency_resolution(&mut self) -> (r: Option<DependencyRequest>)
        ensures
            match old(self).version_popup {
                None => r is None && *final(self) == *old(self),
                Some(p) => if p.loading || p.installing || p.selecting_minecraft_version || p.confirming
                    || p.selected_index() is None {
                    r is None && *final(self) == *old(self)
                } else {
                    let v = p.versions@[p.selected_index()->0];
                    &&& *final(self) == (DiscoveryState { version_popup: Some(VersionPopupState {
                        loading: true, resolving_dependencies: true, error: None, ..p }), ..*old(self) })
                    &&& r matches Some(req) && {
                        &&& req.request_id == p.request_id
                        &&& req.project_id@ == p.project_id@
                        &&& req.root.provider@ == p.provider@
                        &&& req.root.project_id@ == p.project_id@
                        &&& req.root.title@ == p.project_title@
                        &&& req.root.version.id@ == v.id@
                        &&& req.root.version.game_versions@ == v.game_versions@
                        &&& opt_view(req.root.installed_path) == opt_view(p.installed_path)
                        &&& req.root.kind == old(self).kind
                        &&& opt_view(req.root.target_world) == (match p.target_world { Some(t) => Some(t.1@), None => None })
                        &&& req.root.force_reinstall == (opt_view(p.current_version_id) == Some(v.id@))
                    }
                },
            },
    {
        let kind = self.kind;
        let mut popup = match self.version_popup.take() {
            Some(p) => p,
            None => return None,
        };
        if popup.loading || popup.installing || popup.selecting_minecraft_version || popup.confirming {
            self.version_popup = Some(popup);
            return None;
        }
        let version = match popup.selected_version() {
            Some(v) => v.clone(),
            None => {
                self.version_popup = Some(popup);
                return None;
            },
        };
        let force_reinstall = match &popup.current_version_id {
            Some(c) => str_eq(c.as_str(), version.id.as_str()),
            None => false,
        };
        popup.loading = true;
        popup.resolving_dependencies = true;
        popup.error = None;
        let request = DependencyRequest {
            request_id: popup.request_id,
            project_id: popup.project_id.clone(),
            root: InstallRoot {
                provider: popup.provider.clone(),
                project_id: popup.project_id.clone(),
                title: popup.project_title.clone(),
                version,
                installed_path: crate::text::opt_clone(&popup.installed_path),
                kind,
                target_world: match &popup.target_world { Some(t) => Some(t.1.clone()), None => None },
                force_reinstall,
            },
        };
        self.version_popup = Some(popup);
        Some(request)
    }

    /// Takes the highlighted Minecraft version and lists the versions for it.
    pub fn select_minecraft_version(&mut self) -> (r: bool)
        ensures
            match old(self).version_popup {
                None => !r && *final(self) == *old(self),
                Some(p) => if p.loading || p.installing || !p.selecting_minecraft_version
                    || p.selected >= p.minecraft_versions@.len() {
                    !r && *final(self) == *old(self)
                } else {
                    &&& r
                    &&& *final(self) == (DiscoveryState { version_popup: final(self).version_popup, ..*old(self) })
                    &&& final(self).version_popup matches Some(q) && q == (VersionPopupState {
                        selected_minecraft_version: q.selected_minecraft_version, selecting_minecraft_version: false,
                        selected: 0, error: None, ..p })
                    &&& opt_view(final(self).version_popup->0.selected_minecraft_version) == Some(p.minecraft_versions@[p.selected as int]@)
                },
            },
    {
        let mut popup = match self.version_popup.take() {
            Some(p) => p,
            None => return false,
        };
        if popup.loading || popup.installing || !popup.selecting_minecraft_version || popup.selected >= popup.minecraft_versions.len() {
            self.version_popup = Some(popup);
            return false;
        }
        let version = popup.minecraft_versions[popup.selected].clone();
        popup.selected_minecraft_version = Some(version);
        popup.selecting_minecraft_version = false;
        popup.selected = 0;
        popup.error = None;
        self.version_popup = Some(popup);
        true
    }

    /// Hands out the confirmed install and closes the popup.
    pub fn begin_install(&mut self) -> (r: Option<InstallRequest>)
        ensures
            match old(self).version_popup {
                None => r is None && *final(self) == *old(self),
                Some(p) => if p.loading || p.installing || !p.confirming || p.selected_index() is None {
                    r is None && *final(self) == *old(self)
                } else {
                    let v = p.versions@[p.selected_index()->0];
                    &&& *final(self) == (DiscoveryState { version_popup: None, ..*old(self) })
                    &&& r matches Some(req) && {
                        &&& req.request_id == p.request_id
                        &&& req.generation == old(self).generation
                        &&& req.project_id@ == p.project_id@
                        &&& req.project_title@ == p.project_title@
                        &&& req.provider@ == p.provider@
                        &&& req.version.id@ == v.id@
                        &&& opt_view(req.installed_path) == opt_view(p.installed_path)
                        &&& req.dependency_plan is Some == p.dependency_plan is Some
                        &&& opt_pair_view(req.target_world) == opt_pair_view(p.target_world)
                    }
                },
            },
    {
        let popup = match self.version_popup.take() {
            Some(p) => p,
            None => return None,
        };
        if popup.loading || popup.installing || !popup.confirming {
            self.version_popup = Some(popup);
            return None;
        }
        let version = match popup.selected_version() {
            Some(v) => v.clone(),
            None => {
                self.version_popup = Some(popup);
                return None;
            },
        };
        let VersionPopupState { request_id, project_id, project_title, provider, installed_path, dependency_plan, target_world, .. } = popup;
        Some(InstallRequest {
            request_id,
            generation: self.generation,
            project_id,
            project_title,
            provider,
            version,
            installed_path,
            dependency_plan,
            target_world,
        })
    }
}


/// The recorded sources by their characters.
pub open spec fn sources_view(s: Seq<(String, Vec<ProviderProject>)>) -> Seq<(Seq<char>, Seq<ProjectRef>)> {
    s.map_values(|e: (String, Vec<ProviderProject>)| (e.0@, refs(e.1@)))
}

/// The index of the first recorded row with `stem`, from `i` on.
pub open spec fn stem_pos_from(v: Seq<(Seq<char>, Seq<ProjectRef>)>, stem: Seq<char>, i: int) -> Option<int>
    decreases v.len() - i,
{
    if i < 0 || i >= v.len() {
        None
    } else if v[i].0 == stem {
        Some(i)
    } else {
        stem_pos_from(v, stem, i + 1)
    }
}

/// Records that `src` stands behind row `stem`, unless its project already does.
pub open spec fn add_source(v: Seq<(Seq<char>, Seq<ProjectRef>)>, stem: Seq<char>, src: ProjectRef) -> Seq<(Seq<char>, Seq<ProjectRef>)> {
    match stem_pos_from(v, stem, 0) {
        Some(i) => if has_same(v[i].1, src) { v } else { v.update(i, (stem, v[i].1.push(src))) },
        None => v.push((stem, seq![src])),
    }
}

pub open spec fn add_sources(v: Seq<(Seq<char>, Seq<ProjectRef>)>, items: Seq<(Seq<char>, ProjectRef)>) -> Seq<(Seq<char>, Seq<ProjectRef>)>
    decreases items.len(),
{
    if items.len() == 0 {
        v
    } else {
        add_source(add_sources(v, items.drop_last()), items.last().0, items.last().1)
    }
}

/// `a + b`, saturating.
pub open spec fn sat_add(a: usize, b: usize) -> usize {
    if a + b > usize::MAX { usize::MAX } else { (a + b) as usize }
}

/// `a + 1`, saturating.
pub open spec fn sat_inc(a: u32) -> u32 {
    if a == u32::MAX { a } else { (a + 1) as u32 }
}

fn add_source_exec(sources: &mut Vec<(String, Vec<ProviderProject>)>, stem: String, src: ProviderProject)
    ensures
        sources_view(final(sources)@) == add_source(sources_view(old(sources)@), stem@, src@),
{
    let ghost v = sources_view(sources@);
    let ghost sv = src@;
    let mut i: usize = 0;
    let mut found: Option<usize> = None;
    while i < sources.len()
        invariant_except_break
            found is None,
        invariant
            i <= sources@.len(),
            v == sources_view(sources@),
            stem_pos_from(v, stem@, 0) == stem_pos_from(v, stem@, i as int),
        ensures
            v == sources_view(sources@),
            match found {
                Some(k) => k < sources@.len() && stem_pos_from(v, stem@, 0) == Some(k as int) && v[k as int].0 == stem@,
                None => stem_pos_from(v, stem@, 0) is None,
            },
        decreases sources@.len() - i,
    {
        if str_eq(sources[i].0.as_str(), stem.as_str()) {
            found = Some(i);
            break;
        }
        i = i + 1;
    }
    match found {
        Some(k) => {
            assert(v[k as int].1 == refs(sources@[k as int].1@));
            if !has_same_exec(&sources[k].1, &src) {
                let mut entry = sources.remove(k);
                let ghost before = entry.1@;
                entry.1.push(src);
                assert(refs(entry.1@) =~= refs(before).push(sv));
                sources.insert(k, entry);
                assert(sources_view(sources@) =~= v.update(k as int, (stem@, v[k as int].1.push(sv))));
            }
        },
        None => {
            let list = vec![src];
            assert(refs(list@) =~= seq![sv]);
            sources.push((stem, list));
            assert(sources_view(sources@) =~= v.push((stem@, seq![sv])));
        },
    }
}

impl DiscoveryState {
    /// The selected row, when it is installed.
    pub open spec fn selected_installed(self) -> Option<int> {
        match self.list.selected_row() {
            Some(i) => if self.list.entries@[i].installed_path is Some { Some(i) } else { None },
            None => None,
        }
    }

    fn selected_installed_entry(&self) -> (r: Option<&ContentEntry>)
        ensures
            match r {
                Some(e) => self.selected_installed() matches Some(i) && *e == self.list.entries@[i],
                None => self.selected_installed() is None,
            },
    {
        match self.list.selected_entry() {
            Some(e) => if e.installed_path.is_some() { Some(e) } else { None },
            None => None,
        }
    }

    /// Whether the selected row is installed.
    pub fn selected_is_installed(&self) -> (r: bool)
        ensures
            r == self.selected_installed() is Some,
    {
        self.selected_installed_entry().is_some()
    }

    /// The installed file of the selected row, for the user to confirm its deletion.
    pub fn pending_installed_delete(&self) -> (r: Option<PendingContentDelete>)
        ensures
            match r {
                Some(d) => self.selected_installed() matches Some(i) && d.name@ == self.list.entries@[i].name@
                    && Some(d.path@) == opt_view(self.list.entries@[i].installed_path),
                None => self.selected_installed() is None,
            },
    {
        let e = match self.selected_installed_entry() {
            Some(e) => e,
            None => return None,
        };
        match &e.installed_path {
            Some(p) => Some(PendingContentDelete { name: e.name.clone(), path: p.clone() }),
            None => None,
        }
    }

    /// Forgets that the first row installed at `path` is installed; returns whether there was one.
    pub fn clear_installed_path(&mut self, path: &str) -> (r: bool)
        ensures
            r == installed_pos_from(old(self).list.entries@, path@, 0) is Some,
            match installed_pos_from(old(self).list.entries@, path@, 0) {
                Some(k) => final(self).list.entries@ == old(self).list.entries@.update(k,
                    ContentEntry { installed_path: None, title_suffix: None, ..old(self).list.entries@[k] }),
                None => final(self).list.entries == old(self).list.entries,
            },
            final(self).list.list_state == old(self).list.list_state,
            final(self).version_popup == old(self).version_popup,
    {
        let mut i: usize = 0;
        while i < self.list.entries.len()
            invariant
                i <= self.list.entries@.len(),
                self.list == old(self).list,
                self.version_popup == old(self).version_popup,
                installed_pos_from(self.list.entries@, path@, 0) == installed_pos_from(self.list.entries@, path@, i as int),
            decreases self.list.entries@.len() - i,
        {
            let hit = match &self.list.entries[i].installed_path {
                Some(p) => str_eq(p.as_str(), path),
                None => false,
            };
            if hit {
                let ghost before = self.list.entries@;
                let mut e = self.list.entries.remove(i);
                e.installed_path = None;
                e.title_suffix = None;
                self.list.entries.insert(i, e);
                assert(self.list.entries@ =~= before.update(i as int,
                    ContentEntry { installed_path: None, title_suffix: None, ..before[i as int] }));
                return true;
            }
            i = i + 1;
        }
        false
    }

    /// Opens the page of the selected row's project. A page loaded before is shown
    /// at once and nothing is asked for.
    pub fn begin_project_page(&mut self) -> (r: Option<ProjectPageRequest>)
        ensures
            match old(self).list.selected_row() {
                None => r is None && *final(self) == *old(self),
                Some(i) => match old(self).list.entries@[i].provider_project {
                    None => r is None && *final(self) == *old(self),
                    Some(src) => {
                        let e = old(self).list.entries@[i];
                        let id = next_id(old(self).next_action_request_id);
                        let cached = page_pos(old(self).project_pages@, src.project_id@);
                        &&& *final(self) == (DiscoveryState { project_page: final(self).project_page, next_action_request_id: id, ..*old(self) })
                        &&& final(self).project_page matches Some(pg) && {
                            &&& pg.request_id == id
                            &&& pg.project_id@ == src.project_id@
                            &&& pg.title@ == (match cached { Some(k) => old(self).project_pages@[k].title@, None => e.name@ })
                            &&& opt_view(pg.body) == (match cached { Some(k) => Some(old(self).project_pages@[k].body@), None => None })
                            &&& pg.error is None
                            &&& pg.scroll == 0
                            &&& pg.max_scroll == 0
                        }
                        &&& (cached is Some ==> r is None)
                        &&& (cached is None ==> (r matches Some(req) && req.request_id == id && req.project_id@ == src.project_id@
                            && req.project_title@ == e.name@ && req.provider@ == src.provider@))
                    },
                },
            },
    {
        let index = match self.list.selected_index() {
            Some(i) => i,
            None => return None,
        };
        let (project_id, provider) = match &self.list.entries[index].provider_project {
            Some(src) => (src.project_id.clone(), src.provider.clone()),
            None => return None,
        };
        let project_title = self.list.entries[index].name.clone();
        self.next_action_request_id = next_id_exec(self.next_action_request_id);
        let request_id = self.next_action_request_id;
        let cached = find_page(&self.project_pages, project_id.as_str());
        let (title, body) = match cached {
            Some(k) => (self.project_pages[k].title.clone(), Some(self.project_pages[k].body.clone())),
            None => (project_title.clone(), None),
        };
        self.project_page = Some(ProjectPageState {
            request_id,
            project_id: project_id.clone(),
            title,
            body,
            error: None,
            scroll: 0,
            max_scroll: 0,
        });
        if cached.is_some() {
            return None;
        }
        Some(ProjectPageRequest { request_id, project_id, project_title, provider })
    }
}

/// The index of the first row installed at `path`, from `i` on.
pub open spec fn installed_pos_from(entries: Seq<ContentEntry>, path: Seq<char>, i: int) -> Option<int>
    decreases entries.len() - i,
{
    if i < 0 || i >= entries.len() {
        None
    } else if opt_view(entries[i].installed_path) == Some(path) {
        Some(i)
    } else {
        installed_pos_from(entries, path, i + 1)
    }
}

/// The first loaded page with this project id.
pub open spec fn page_pos(pages: Seq<ProjectInfo>, id: Seq<char>) -> Option<int> {
    page_pos_from(pages, id, 0)
}

pub open spec fn page_pos_from(pages: Seq<ProjectInfo>, id: Seq<char>, i: int) -> Option<int>
    decreases pages.len() - i,
{
    if i < 0 || i >= pages.len() {
        None
    } else if pages[i].id@ == id {
        Some(i)
    } else {
        page_pos_from(pages, id, i + 1)
    }
}

fn find_page(pages: &Vec<ProjectInfo>, id: &str) -> (r: Option<usize>)
    ensures
        match r {
            Some(k) => page_pos(pages@, id@) == Some(k as int) && k < pages@.len(),
            None => page_pos(pages@, id@) is None,
        },
{
    let mut i: usize = 0;
    while i < pages.len()
        invariant
            i <= pages@.len(),
            page_pos(pages@, id@) == page_pos_from(pages@, id@, i as int),
        decreases pages@.len() - i,
    {
        if str_eq(pages[i].id.as_str(), id) {
            return Some(i);
        }
        i = i + 1;
    }
    None
}

/// The stems and projects of a page's sources by their characters.
pub open spec fn items_view(s: Seq<(String, ProviderProject)>) -> Seq<(Seq<char>, ProjectRef)> {
    s.map_values(|e: (String, ProviderProject)| (e.0@, e.1@))
}

impl DiscoveryState {
    /// What taking in one page result at time `now` leaves. A result of an earlier
    /// search changes nothing.
    pub open spec fn page_applied(self, before: Self, res: PendingDiscoveryResult, now: u64) -> bool {
        if res.generation != before.generation {
            self == before
        } else {
            let list = ContentListState { loading: false, ..before.list };
            match res.result {
                Ok(page) => {
                    let next = sat_add(res.offset, page.received);
                    &&& self == (DiscoveryState { page_loading: false, list, total_hits: page.total_hits, next_offset: next,
                        exhausted: page.received == 0 || next >= page.total_hits, error: None, retry_page_at: None,
                        page_retry_attempt: 0, sources: self.sources, ..before })
                    &&& sources_view(self.sources@) == add_sources(sources_view(before.sources@), items_view(res.sources@))
                },
                Err(e) => if e.retryable {
                    self == (DiscoveryState { page_loading: false, list, page_retry_attempt: sat_inc(before.page_retry_attempt),
                        retry_page_at: Some(add_ms(now, retry_delay(before.page_retry_attempt))), ..before })
                } else if res.offset == 0 {
                    self == (DiscoveryState { page_loading: false, list, total_hits: 0, error: Some(e.message),
                        exhausted: true, ..before })
                } else {
                    self == (DiscoveryState { page_loading: false, list, exhausted: true, ..before })
                },
            }
        }
    }

    /// Takes in one page result at time `now` (ms): a result of the current search
    /// ends the loading; a page moves the offset on, a retryable failure schedules
    /// a retry with a growing delay, another failure ends the results.
    pub fn apply_page_result(&mut self, res: PendingDiscoveryResult, now: u64)
        ensures
            final(self).page_applied(*old(self), res, now),
    {
        if res.generation != self.generation {
            return;
        }
        self.page_loading = false;
        self.list.loading = false;
        let PendingDiscoveryResult { generation, offset, result, sources } = res;
        match result {
            Ok(page) => {
                self.total_hits = page.total_hits;
                self.next_offset = offset.saturating_add(page.received);
                self.exhausted = page.received == 0 || self.next_offset >= self.total_hits;
                self.error = None;
                self.retry_page_at = None;
                self.page_retry_attempt = 0;
                let ghost start = sources_view(self.sources@);
                let ghost items = items_view(sources@);
                let ghost orig = sources@;
                assert(orig.len() == sources.len());
                assert(orig.subrange(0, orig.len() as int) =~= orig);
                let mut rest = sources;
                let mut done: usize = 0;
                assert(items.take(0) =~= Seq::<(Seq<char>, ProjectRef)>::empty());
                while rest.len() > 0
                    invariant
                        done + rest@.len() == orig.len(),
                        orig.len() <= usize::MAX,
                        rest@ == orig.subrange(done as int, orig.len() as int),
                        items == items_view(orig),
                        sources_view(self.sources@) == add_sources(start, items.take(done as int)),
                        *self == (DiscoveryState { sources: self.sources, ..*self }),
                        self.page_loading == false,
                        self.list == (ContentListState { loading: false, ..old(self).list }),
                        self.total_hits == page.total_hits,
                        self.next_offset == sat_add(offset, page.received),
                        self.exhausted == (page.received == 0 || self.next_offset >= page.total_hits),
                        self.error is None,
                        self.retry_page_at is None,
                        self.page_retry_attempt == 0,
                        *self == (DiscoveryState { page_loading: false, list: self.list, total_hits: self.total_hits,
                            next_offset: self.next_offset, exhausted: self.exhausted, error: None, retry_page_at: None,
                            page_retry_attempt: 0, sources: self.sources, ..*old(self) }),
                    decreases rest@.len(),
                {
                    let (stem, src) = rest.remove(0);
                    assert((stem, src) == orig[done as int]);
                    assert(items.take(done + 1).drop_last() =~= items.take(done as int));
                    assert(items.take(done + 1).last() == (stem@, src@));
                    add_source_exec(&mut self.sources, stem, src);
                    done = done + 1;
                    assert(rest@ =~= orig.subrange(done as int, orig.len() as int));
                }
                assert(items.take(orig.len() as int) =~= items);
            },
            Err(e) => {
                if e.retryable {
                    let attempt = if self.page_retry_attempt < 4 { self.page_retry_attempt } else { 4 };
                    let factor: u64 = if attempt == 0 { 1 } else if attempt == 1 { 2 } else if attempt == 2 { 4 } else if attempt == 3 { 8 } else { 16 };
                    let doubled = PAGE_RETRY_BASE_DELAY_MS * factor;
                    let delay = if doubled < PAGE_RETRY_MAX_DELAY_MS { doubled } else { PAGE_RETRY_MAX_DELAY_MS };
                    self.page_retry_attempt = self.page_retry_attempt.saturating_add(1);
                    self.retry_page_at = Some(now.saturating_add(delay));
                } else if offset == 0 {
                    self.total_hits = 0;
                    self.error = Some(e.message);
                    self.exhausted = true;
                } else {
                    self.exhausted = true;
                }
            },
        }
    }

    /// What taking in the page results `results` in order, at time `now`, leaves of `before`.
    pub open spec fn pages_drained(self, before: DiscoveryState, results: Seq<PendingDiscoveryResult>, now: u64) -> bool {
        exists|states: Seq<DiscoveryState>| {
            &&& states.len() == results.len() + 1
            &&& states[0] == before
            &&& states.last() == self
            &&& forall|i: int| 0 <= i < results.len() ==> #[trigger] states[i + 1].page_applied(states[i], results[i], now)
        }
    }

    /// What taking in the answers `results` in order leaves of `before`, with the
    /// messages `notices` collected for the user.
    pub open spec fn actions_drained(self, before: DiscoveryState, results: Seq<DiscoveryActionResult>, notices: Seq<InstallNotice>) -> bool {
        exists|states: Seq<DiscoveryState>, notes: Seq<Option<InstallNotice>>| #![trigger states.len(), notes.len()] {
            &&& states.len() == results.len() + 1
            &&& notes.len() == results.len()
            &&& states[0] == before
            &&& states.last() == self
            &&& (forall|i: int| 0 <= i < results.len() ==> #[trigger] states[i + 1].action_applied(states[i], results[i], notes[i]))
            &&& notices == notes.filter(|n: Option<InstallNotice>| n is Some).map_values(|n: Option<InstallNotice>| n->0)
        }
    }

    /// Takes in everything the background requests handed back: first the page
    /// results in the order they arrived, then the answers of the version popup
    /// and project page in theirs. Returns the messages for the user.
    pub fn drain_pending(&mut self, results: Vec<PendingDiscoveryResult>, actions: Vec<DiscoveryActionResult>, now: u64)
        -> (r: Vec<InstallNotice>)
        ensures
            exists|mid: DiscoveryState| #[trigger] mid.pages_drained(*old(self), results@, now)
                && final(self).actions_drained(mid, actions@, r@),
    {
        self.drain_page_results(results, now);
        let ghost mid = *self;
        let r = self.drain_action_results(actions);
        assert(mid.pages_drained(*old(self), results@, now));
        r
    }

    /// Takes in the page results in the order they arrived.
    pub fn drain_page_results(&mut self, results: Vec<PendingDiscoveryResult>, now: u64)
        ensures
            final(self).pages_drained(*old(self), results@, now),
    {
        let ghost orig = results@;
        let ghost mut states: Seq<DiscoveryState> = seq![*self];
        assert(orig.len() == results.len());
        assert(orig.subrange(0, orig.len() as int) =~= orig);
        let mut rest = results;
        let mut done: usize = 0;
        while rest.len() > 0
            invariant
                done + rest@.len() == orig.len(),
                orig.len() <= usize::MAX,
                rest@ == orig.subrange(done as int, orig.len() as int),
                states.len() == done + 1,
                states[0] == *old(self),
                states.last() == *self,
                forall|i: int| 0 <= i < done ==> #[trigger] states[i + 1].page_applied(states[i], orig[i], now),
            decreases rest@.len(),
        {
            let res = rest.remove(0);
            assert(res == orig[done as int]);
            let ghost before = *self;
            self.apply_page_result(res, now);
            proof {
                let old_states = states;
                states = states.push(*self);
                assert forall|i: int| 0 <= i < done + 1 implies #[trigger] states[i + 1].page_applied(states[i], orig[i], now) by {
                    if i < done {
                        assert(states[i + 1] == old_states[i + 1]);
                        assert(states[i] == old_states[i]);
                    } else {
                        assert(states[i] == before);
                    }
                }
            }
            done = done + 1;
            assert(rest@ =~= orig.subrange(done as int, orig.len() as int));
        }
    }
}


/// Whether `x` is a loader name of some version (compared ignoring ASCII case).
pub open spec fn is_loader_name(versions: Seq<VersionInfo>, x: Seq<char>) -> bool {
    exists|i: int, l: int| 0 <= i < versions.len() && 0 <= l < versions[i].loaders@.len()
        && crate::text::eq_ignore_ascii_case_spec(versions[i].loaders@[l]@, x)
}

/// Whether one of the first `i` versions supports game version `x`.
pub open spec fn game_upto(versions: Seq<VersionInfo>, i: int, x: Seq<char>) -> bool {
    exists|v: int, k: int| 0 <= v < i && 0 <= k < versions[v].game_versions@.len() && versions[v].game_versions@[k]@ == x
}

/// Whether `x` is a game version some version supports, and not a loader name.
pub open spec fn is_minecraft_version(versions: Seq<VersionInfo>, x: Seq<char>) -> bool {
    game_upto(versions, versions.len() as int, x) && !is_loader_name(versions, x)
}

fn loader_name(versions: &Vec<VersionInfo>, x: &str) -> (r: bool)
    ensures
        r == is_loader_name(versions@, x@),
{
    let mut i: usize = 0;
    while i < versions.len()
        invariant
            i <= versions@.len(),
            forall|a: int, l: int| 0 <= a < i && 0 <= l < versions@[a].loaders@.len()
                ==> !crate::text::eq_ignore_ascii_case_spec(versions@[a].loaders@[l]@, x@),
        decreases versions@.len() - i,
    {
        let loaders = &versions[i].loaders;
        let mut l: usize = 0;
        while l < loaders.len()
            invariant
                l <= loaders@.len(),
                loaders@ == versions@[i as int].loaders@,
                i < versions@.len(),
                forall|a: int, m: int| 0 <= a < i && 0 <= m < versions@[a].loaders@.len()
                    ==> !crate::text::eq_ignore_ascii_case_spec(versions@[a].loaders@[m]@, x@),
                forall|m: int| 0 <= m < l ==> !crate::text::eq_ignore_ascii_case_spec(loaders@[m]@, x@),
            decreases loaders@.len() - l,
        {
            if crate::text::eq_ignore_ascii_case(loaders[l].as_str(), x) {
                assert(0 <= i < versions@.len() && 0 <= l < versions@[i as int].loaders@.len()
                    && crate::text::eq_ignore_ascii_case_spec(versions@[i as int].loaders@[l as int]@, x@));
                return true;
            }
            l = l + 1;
        }
        i = i + 1;
    }
    false
}

/// The Minecraft versions the versions support, newest (greatest) first, each once.
pub fn minecraft_versions(versions: &Vec<VersionInfo>) -> (r: Vec<String>)
    ensures
        forall|a: int, b: int| 0 <= a < b < r@.len() ==> crate::order::seq_lt(r@[b]@, r@[a]@),
        forall|x: Seq<char>| is_minecraft_version(versions@, x) <==> #[trigger] seq_has(r@, x),
{
    let mut r: Vec<String> = Vec::new();
    let mut i: usize = 0;
    while i < versions.len()
        invariant
            i <= versions@.len(),
            forall|a: int, b: int| 0 <= a < b < r@.len() ==> crate::order::seq_lt(r@[b]@, r@[a]@),
            forall|x: Seq<char>| #[trigger] seq_has(r@, x) <==> (game_upto(versions@, i as int, x) && !is_loader_name(versions@, x)),
        decreases versions@.len() - i,
    {
        let games = &versions[i].game_versions;
        let mut k: usize = 0;
        while k < games.len()
            invariant
                k <= games@.len(),
                i < versions@.len(),
                games@ == versions@[i as int].game_versions@,
                forall|a: int, b: int| 0 <= a < b < r@.len() ==> crate::order::seq_lt(r@[b]@, r@[a]@),
                forall|x: Seq<char>| #[trigger] seq_has(r@, x) <==> ((game_upto(versions@, i as int, x)
                    || seq_has(games@.take(k as int), x)) && !is_loader_name(versions@, x)),
            decreases games@.len() - k,
        {
            let g = &games[k];
            let ghost before = r@;
            if !loader_name(versions, g.as_str()) {
                let mut j: usize = 0;
                let mut present = false;
                while j < r.len()
                    invariant_except_break
                        !present,
                    invariant
                        j <= r@.len(),
                        r@ == before,
                        forall|a: int| 0 <= a < j ==> crate::order::seq_lt(g@, r@[a]@),
                    ensures
                        r@ == before,
                        present ==> seq_has(r@, g@),
                        !present ==> j <= r@.len() && (forall|a: int| 0 <= a < j ==> crate::order::seq_lt(g@, r@[a]@))
                            && (j < r@.len() ==> crate::order::seq_lt(r@[j as int]@, g@)),
                    decreases r@.len() - j,
                {
                    let c = crate::order::compare_str(r[j].as_str(), g.as_str());
                    if c == 0 {
                        present = true;
                        assert(r@[j as int]@ == g@);
                        break;
                    }
                    if c == -1 {
                        break;
                    }
                    proof {
                        crate::order::lemma_lt_total(r@[j as int]@, g@);
                    }
                    j = j + 1;
                }
                if !present {
                    r.insert(j, g.clone());
                    proof {
                        assert forall|a: int, b: int| 0 <= a < b < r@.len() implies crate::order::seq_lt(r@[b]@, r@[a]@) by {
                            if b < j {
                                assert(r@[a] == before[a] && r@[b] == before[b]);
                            } else if b == j {
                                assert(r@[a] == before[a]);
                            } else if a < j {
                                assert(r@[a] == before[a] && r@[b] == before[b - 1]);
                                if b - 1 == j {
                                    crate::order::lemma_lt_trans(before[b - 1]@, g@, before[a]@);
                                } else {
                                    crate::order::lemma_lt_trans(before[b - 1]@, before[j as int]@, g@);
                                    crate::order::lemma_lt_trans(before[b - 1]@, g@, before[a]@);
                                }
                            } else if a == j {
                                assert(r@[b] == before[b - 1]);
                                if b - 1 > j {
                                    crate::order::lemma_lt_trans(before[b - 1]@, before[j as int]@, g@);
                                }
                            } else {
                                assert(r@[a] == before[a - 1] && r@[b] == before[b - 1]);
                            }
                        }
                        assert forall|x: Seq<char>| #[trigger] seq_has(r@, x) <==> seq_has(before, x) || x == g@ by {
                            if seq_has(r@, x) {
                                let a = choose|a: int| 0 <= a < r@.len() && r@[a]@ == x;
                                if a < j {
                                    assert(before[a] == r@[a]);
                                } else if a > j {
                                    assert(before[a - 1] == r@[a]);
                                }
                            }
                            if seq_has(before, x) {
                                let a = choose|a: int| 0 <= a < before.len() && before[a]@ == x;
                                if a < j {
                                    assert(r@[a] == before[a]);
                                } else {
                                    assert(r@[a + 1] == before[a]);
                                }
                            }
                            if x == g@ {
                                assert(r@[j as int]@ == g@);
                            }
                        }
                    }
                }
            }
            proof {
                assert forall|x: Seq<char>| #[trigger] seq_has(games@.take(k + 1), x) <==> seq_has(games@.take(k as int), x) || x == g@ by {
                    if seq_has(games@.take(k + 1), x) {
                        let m = choose|m: int| 0 <= m < games@.take(k + 1).len() && #[trigger] games@.take(k + 1)[m]@ == x;
                        if m < k {
                            assert(games@.take(k as int)[m] == games@[m]);
                        }
                    }
                    if seq_has(games@.take(k as int), x) {
                        let m = choose|m: int| 0 <= m < games@.take(k as int).len() && #[trigger] games@.take(k as int)[m]@ == x;
                        assert(games@.take(k + 1)[m] == games@[m]);
                    }
                    if x == g@ {
                        assert(games@.take(k + 1)[k as int]@ == x);
                    }
                }
                assert forall|x: Seq<char>| #[trigger] seq_has(r@, x) <==> ((game_upto(versions@, i as int, x)
                    || seq_has(games@.take(k + 1), x)) && !is_loader_name(versions@, x)) by {
                    if x == g@ {
                        if seq_has(before, x) {
                        }
                    }
                }
            }
            k = k + 1;
        }
        proof {
            assert(games@.take(games@.len() as int) =~= games@);
            assert forall|x: Seq<char>| #[trigger] seq_has(r@, x) <==> (game_upto(versions@, i + 1, x) && !is_loader_name(versions@, x)) by {
                if game_upto(versions@, i + 1, x) {
                    let (v, m) = choose|v: int, m: int| 0 <= v < i + 1 && 0 <= m < versions@[v].game_versions@.len()
                        && versions@[v].game_versions@[m]@ == x;
                    if v == i {
                        assert(games@[m]@ == x);
                        assert(seq_has(games@, x));
                    } else {
                        assert(game_upto(versions@, i as int, x));
                    }
                }
                if seq_has(games@, x) {
                    let m = choose|m: int| 0 <= m < games@.len() && games@[m]@ == x;
                    assert(0 <= i < i + 1 && 0 <= m < versions@[i as int].game_versions@.len()
                        && versions@[i as int].game_versions@[m]@ == x);
                }
                if game_upto(versions@, i as int, x) {
                    let (v, m) = choose|v: int, m: int| 0 <= v < i && 0 <= m < versions@[v].game_versions@.len()
                        && versions@[v].game_versions@[m]@ == x;
                    assert(0 <= v < i + 1);
                }
            }
        }
        i = i + 1;
    }
    r
}


/// Whether `r` lists the Minecraft versions of `versions`, greatest first, each once.
pub open spec fn lists_minecraft_versions(r: Seq<String>, versions: Seq<VersionInfo>) -> bool {
    &&& forall|a: int, b: int| 0 <= a < b < r.len() ==> crate::order::seq_lt(r[b]@, r[a]@)
    &&& forall|x: Seq<char>| is_minecraft_version(versions, x) <==> #[trigger] seq_has(r, x)
}

/// The row stem of an installed project: the first recorded row with a source of
/// that project id, else the id itself.
pub open spec fn install_stem_from(v: Seq<(Seq<char>, Seq<ProjectRef>)>, id: Seq<char>, k: int) -> Seq<char>
    decreases v.len() - k,
{
    if k < 0 || k >= v.len() {
        id
    } else if exists|j: int| 0 <= j < v[k].1.len() && v[k].1[j].project_id == id {
        v[k].0
    } else {
        install_stem_from(v, id, k + 1)
    }
}

/// Loaded pages with `info` recorded (replacing the page with its id).
pub open spec fn pages_with(pages: Seq<ProjectInfo>, info: ProjectInfo) -> Seq<ProjectInfo> {
    match page_pos(pages, info.id@) {
        Some(k) => pages.update(k, info),
        None => pages.push(info),
    }
}

/// What an install outcome is called in the message about it.
pub open spec fn install_action_text(c: InstallCompletion) -> Seq<char> {
    if c.skipped { "already installed"@ } else if c.replaced { "version changed"@ } else { "installed"@ }
}

fn install_stem(sources: &Vec<(String, Vec<ProviderProject>)>, id: &str) -> (r: String)
    ensures
        r@ == install_stem_from(sources_view(sources@), id@, 0),
{
    let ghost v = sources_view(sources@);
    let mut k: usize = 0;
    while k < sources.len()
        invariant
            k <= sources@.len(),
            v == sources_view(sources@),
            install_stem_from(v, id@, 0) == install_stem_from(v, id@, k as int),
        decreases sources@.len() - k,
    {
        let list = &sources[k].1;
        let mut j: usize = 0;
        while j < list.len()
            invariant
                j <= list@.len(),
                k < sources@.len(),
                list@ == sources@[k as int].1@,
                v == sources_view(sources@),
                forall|m: int| 0 <= m < j ==> list@[m].project_id@ != id@,
                install_stem_from(v, id@, 0) == install_stem_from(v, id@, k as int),
            decreases list@.len() - j,
        {
            if str_eq(list[j].project_id.as_str(), id) {
                assert(v[k as int].1[j as int].project_id == id@);
                return sources[k].0.clone();
            }
            j = j + 1;
        }
        assert(!exists|m: int| 0 <= m < v[k as int].1.len() && v[k as int].1[m].project_id == id@) by {
            if exists|m: int| 0 <= m < v[k as int].1.len() && v[k as int].1[m].project_id == id@ {
                let m = choose|m: int| 0 <= m < v[k as int].1.len() && v[k as int].1[m].project_id == id@;
                assert(list@[m].project_id@ == id@);
            }
        }
        k = k + 1;
    }
    owned(id)
}

fn record_page(pages: &mut Vec<ProjectInfo>, info: ProjectInfo)
    ensures
        final(pages)@ == pages_with(old(pages)@, info),
{
    match find_page(pages, info.id.as_str()) {
        Some(k) => { pages.set(k, info); },
        None => { pages.push(info); },
    }
}

impl DiscoveryState {
    /// What taking in a project page leaves; one for a page no longer shown changes nothing.
    pub open spec fn page_answer_applied(self, before: Self, request_id: u64, project_id: String, result: Result<ProjectInfo, String>) -> bool {
        match before.project_page {
            Some(pg) if pg.request_id == request_id && pg.project_id@ == project_id@ => match result {
                Ok(info) => {
                    &&& self == (DiscoveryState { project_page: self.project_page, project_pages: self.project_pages, ..before })
                    &&& self.project_pages@ == pages_with(before.project_pages@, info)
                    &&& self.project_page matches Some(q) && q.request_id == pg.request_id && q.project_id == pg.project_id
                        && q.title@ == info.title@ && opt_view(q.body) == Some(info.body@) && q.error is None
                        && q.scroll == 0 && q.max_scroll == 0
                },
                Err(e) => self == (DiscoveryState { project_page: Some(ProjectPageState { error: Some(e), ..pg }), ..before }),
            },
            _ => self == before,
        }
    }

    /// What taking in the versions of the popup's project leaves.
    pub open spec fn versions_answer_applied(self, before: Self, request_id: u64, project_id: String, result: Result<Vec<VersionInfo>, String>) -> bool {
        match before.version_popup {
            Some(p) if p.request_id == request_id && p.project_id@ == project_id@ => match result {
                Ok(versions) => {
                    &&& self == (DiscoveryState { version_popup: self.version_popup, ..before })
                    &&& self.version_popup matches Some(q) && q == (VersionPopupState { loading: false,
                        minecraft_versions: q.minecraft_versions, versions, selected: 0, error: None, ..p })
                        && lists_minecraft_versions(q.minecraft_versions@, versions@)
                },
                Err(e) => self == (DiscoveryState { version_popup: Some(VersionPopupState {
                    loading: false, error: Some(e), ..p }), ..before }),
            },
            _ => self == before,
        }
    }

    /// What taking in the dependencies of the chosen version leaves: on success the
    /// popup asks for confirmation.
    pub open spec fn dependencies_answer_applied(self, before: Self, request_id: u64, project_id: String, result: Result<DependencyPlan, String>) -> bool {
        match before.version_popup {
            Some(p) if p.request_id == request_id && p.project_id@ == project_id@ => match result {
                Ok(plan) => self == (DiscoveryState { version_popup: Some(VersionPopupState { loading: false,
                    resolving_dependencies: false, dependency_plan: Some(plan), confirming: true, error: None, ..p }), ..before }),
                Err(e) => self == (DiscoveryState { version_popup: Some(VersionPopupState { loading: false,
                    resolving_dependencies: false, error: Some(e), ..p }), ..before }),
            },
            _ => self == before,
        }
    }

    /// What an install outcome leaves: the installed project's row (of the current
    /// search) is marked installed, and dependencies left without a dependent are kept for cleanup.
    pub open spec fn install_answer_applied(self, before: Self, generation: u64, project_id: String, result: Result<InstallCompletion, String>) -> bool {
        match result {
            Ok(c) => {
                let stem = install_stem_from(sources_view(before.sources@), project_id@, 0);
                &&& self == (DiscoveryState { list: ContentListState { entries: self.list.entries, ..before.list },
                    pending_orphan_cleanup: if c.orphaned_dependencies@.len() > 0 { Some(c.orphaned_dependencies) }
                        else { before.pending_orphan_cleanup }, ..before })
                &&& if generation == before.generation && exists|k: int| crate::list::first_with_stem(before.list.entries@, stem, k) {
                    let k = choose|k: int| crate::list::first_with_stem(before.list.entries@, stem, k);
                    let e = self.list.entries@[k];
                    &&& self.list.entries@ == before.list.entries@.update(k, e)
                    &&& e == (ContentEntry { title_suffix: e.title_suffix, installed_path: e.installed_path, ..before.list.entries@[k] })
                    &&& opt_view(e.title_suffix) == Some("Installed"@)
                    &&& opt_view(e.installed_path) == Some(c.path@)
                } else {
                    self.list.entries == before.list.entries
                }
            },
            Err(_) => self == before,
        }
    }

    /// The message about an install outcome.
    pub open spec fn install_notice(n: InstallNotice, request_id: u64, project_title: String, result: Result<InstallCompletion, String>) -> bool {
        n.id == request_id && n.error == result is Err
            && n.message@ == project_title@ + ": "@ + match result { Ok(c) => install_action_text(c), Err(e) => e@ }
    }

    /// What taking in one answer to a popup or page request leaves, with the
    /// message about it. An answer to a request no longer shown changes nothing.
    pub open spec fn action_applied(self, before: Self, res: DiscoveryActionResult, r: Option<InstallNotice>) -> bool {
        match res {
            DiscoveryActionResult::ProjectPage { request_id, project_id, result } =>
                r is None && self.page_answer_applied(before, request_id, project_id, result),
            DiscoveryActionResult::Versions { request_id, project_id, result } =>
                r is None && self.versions_answer_applied(before, request_id, project_id, result),
            DiscoveryActionResult::Dependencies { request_id, project_id, result } =>
                r is None && self.dependencies_answer_applied(before, request_id, project_id, result),
            DiscoveryActionResult::Install { request_id, generation, project_id, project_title, result } =>
                (r matches Some(n) && Self::install_notice(n, request_id, project_title, result))
                    && self.install_answer_applied(before, generation, project_id, result),
        }
    }

    fn apply_project_page(&mut self, request_id: u64, project_id: String, result: Result<ProjectInfo, String>)
        ensures
            final(self).page_answer_applied(*old(self), request_id, project_id, result),
    {
        let matches = match &self.project_page {
            Some(pg) => pg.request_id == request_id && str_eq(pg.project_id.as_str(), project_id.as_str()),
            None => false,
        };
        if !matches {
            return;
        }
        let mut page = match self.project_page.take() {
            Some(pg) => pg,
            None => return,
        };
        match result {
            Ok(info) => {
                page.title = info.title.clone();
                page.body = Some(info.body.clone());
                page.error = None;
                page.scroll = 0;
                page.max_scroll = 0;
                record_page(&mut self.project_pages, info);
            },
            Err(e) => {
                page.error = Some(e);
            },
        }
        self.project_page = Some(page);
    }

    fn apply_versions(&mut self, request_id: u64, project_id: String, result: Result<Vec<VersionInfo>, String>)
        ensures
            final(self).versions_answer_applied(*old(self), request_id, project_id, result),
    {
        let matches = match &self.version_popup {
            Some(p) => p.request_id == request_id && str_eq(p.project_id.as_str(), project_id.as_str()),
            None => false,
        };
        if !matches {
            return;
        }
        let mut popup = match self.version_popup.take() {
            Some(p) => p,
            None => return,
        };
        popup.loading = false;
        match result {
            Ok(versions) => {
                popup.minecraft_versions = minecraft_versions(&versions);
                popup.versions = versions;
                popup.selected = 0;
                popup.error = None;
            },
            Err(e) => {
                popup.error = Some(e);
            },
        }
        self.version_popup = Some(popup);
    }

    fn apply_dependencies(&mut self, request_id: u64, project_id: String, result: Result<DependencyPlan, String>)
        ensures
            final(self).dependencies_answer_applied(*old(self), request_id, project_id, result),
    {
        let matches = match &self.version_popup {
            Some(p) => p.request_id == request_id && str_eq(p.project_id.as_str(), project_id.as_str()),
            None => false,
        };
        if !matches {
            return;
        }
        let mut popup = match self.version_popup.take() {
            Some(p) => p,
            None => return,
        };
        popup.loading = false;
        popup.resolving_dependencies = false;
        match result {
            Ok(plan) => {
                popup.dependency_plan = Some(plan);
                popup.confirming = true;
                popup.error = None;
            },
            Err(e) => {
                popup.error = Some(e);
            },
        }
        self.version_popup = Some(popup);
    }

    fn apply_install(&mut self, request_id: u64, generation: u64, project_id: String, project_title: String,
        result: Result<InstallCompletion, String>) -> (r: InstallNotice)
        ensures
            Self::install_notice(r, request_id, project_title, result),
            final(self).install_answer_applied(*old(self), generation, project_id, result),
    {
        proof { reveal_strlit(": "); }
        match result {
            Ok(c) => {
                if generation == self.generation {
                    let stem = install_stem(&self.sources, project_id.as_str());
                    match crate::list::find_stem(&self.list.entries, stem.as_str()) {
                        Some(k) => {
                            let ghost before = self.list.entries@;
                            let mut e = self.list.entries.remove(k);
                            e.title_suffix = Some(owned("Installed"));
                            e.installed_path = Some(c.path.clone());
                            self.list.entries.insert(k, e);
                            proof {
                                let kk = choose|kk: int| crate::list::first_with_stem(before, stem@, kk);
                                if kk < k {
                                    assert(before[kk].file_stem@ != stem@);
                                } else if k < kk {
                                    assert(before[k as int].file_stem@ != stem@);
                                }
                                assert(self.list.entries@ =~= before.update(k as int, self.list.entries@[k as int]));
                            }
                        },
                        None => {},
                    }
                }
                let action = if c.skipped { "already installed" } else if c.replaced { "version changed" } else { "installed" };
                let head = concat(project_title.as_str(), ": ");
                let message = concat(head.as_str(), action);
                if c.orphaned_dependencies.len() > 0 {
                    self.pending_orphan_cleanup = Some(c.orphaned_dependencies);
                }
                InstallNotice { id: request_id, error: false, message }
            },
            Err(e) => {
                let head = concat(project_title.as_str(), ": ");
                let message = concat(head.as_str(), e.as_str());
                InstallNotice { id: request_id, error: true, message }
            },
        }
    }

    /// Takes in one answer to a popup or page request; an install gives a message for the user.
    pub fn apply_action_result(&mut self, res: DiscoveryActionResult) -> (r: Option<InstallNotice>)
        ensures
            final(self).action_applied(*old(self), res, r),
    {
        match res {
            DiscoveryActionResult::ProjectPage { request_id, project_id, result } => {
                self.apply_project_page(request_id, project_id, result);
                None
            },
            DiscoveryActionResult::Versions { request_id, project_id, result } => {
                self.apply_versions(request_id, project_id, result);
                None
            },
            DiscoveryActionResult::Dependencies { request_id, project_id, result } => {
                self.apply_dependencies(request_id, project_id, result);
                None
            },
            DiscoveryActionResult::Install { request_id, generation, project_id, project_title, result } => {
                Some(self.apply_install(request_id, generation, project_id, project_title, result))
            },
        }
    }

    /// Takes in the answers in the order they arrived, collecting the messages for the user.
    pub fn drain_action_results(&mut self, results: Vec<DiscoveryActionResult>) -> (r: Vec<InstallNotice>)
        ensures
            final(self).actions_drained(*old(self), results@, r@),
    {
        let ghost orig = results@;
        let ghost mut states: Seq<DiscoveryState> = seq![*self];
        let ghost mut notes: Seq<Option<InstallNotice>> = Seq::empty();
        let ghost is_some = |n: Option<InstallNotice>| n is Some;
        let ghost unwrap = |n: Option<InstallNotice>| n->0;
        assert(orig.len() == results.len());
        assert(orig.subrange(0, orig.len() as int) =~= orig);
        let mut out: Vec<InstallNotice> = Vec::new();
        let mut rest = results;
        let mut done: usize = 0;
        assert(notes.filter(is_some).map_values(unwrap) =~= out@);
        while rest.len() > 0
            invariant
                done + rest@.len() == orig.len(),
                orig.len() <= usize::MAX,
                rest@ == orig.subrange(done as int, orig.len() as int),
                states.len() == done + 1,
                notes.len() == done,
                states[0] == *old(self),
                states.last() == *self,
                forall|i: int| 0 <= i < done ==> #[trigger] states[i + 1].action_applied(states[i], orig[i], notes[i]),
                is_some == (|n: Option<InstallNotice>| n is Some),
                unwrap == (|n: Option<InstallNotice>| n->0),
                out@ == notes.filter(is_some).map_values(unwrap),
            decreases rest@.len(),
        {
            let res = rest.remove(0);
            assert(res == orig[done as int]);
            let ghost before = *self;
            let note = self.apply_action_result(res);
            let ghost gnote = note;
            let ghost old_notes = notes;
            proof {
                let old_states = states;
                states = states.push(*self);
                notes = notes.push(gnote);
                assert forall|i: int| 0 <= i < done + 1 implies #[trigger] states[i + 1].action_applied(states[i], orig[i], notes[i]) by {
                    if i < done {
                        assert(states[i + 1] == old_states[i + 1]);
                        assert(states[i] == old_states[i]);
                        assert(notes[i] == old_notes[i]);
                    } else {
                        assert(states[i] == before);
                    }
                }
                reveal_with_fuel(Seq::filter, 1);
                assert(notes.drop_last() =~= old_notes);
            }
            match note {
                Some(n) => {
                    out.push(n);
                    proof {
                        assert(notes.filter(is_some) == old_notes.filter(is_some).push(gnote));
                        assert(out@ =~= notes.filter(is_some).map_values(unwrap));
                    }
                },
                None => {
                    proof {
                        assert(notes.filter(is_some) == old_notes.filter(is_some));
                    }
                },
            }
            done = done + 1;
            assert(rest@ =~= orig.subrange(done as int, orig.len() as int));
        }
        out
    }
}


impl VersionPopupState {
    /// How many rows the popup lists (see `item_count`).
    pub open spec fn item_count_spec(&self) -> int {
        if self.selecting_minecraft_version { self.minecraft_versions@.len() as int }
        else if self.selecting_world { self.worlds.filtered().len() as int }
        else { self.shown().len() as int }
    }
}

/// The position of the first of `l` equal to `x`, else zero.
pub open spec fn text_pos_or_zero(l: Seq<String>, x: Seq<char>, i: int) -> usize
    decreases l.len() - i,
{
    if i < 0 || i >= l.len() {
        0
    } else if l[i]@ == x {
        i as usize
    } else {
        text_pos_or_zero(l, x, i + 1)
    }
}

fn position_or_zero(l: &Vec<String>, x: &str) -> (r: usize)
    ensures
        r == text_pos_or_zero(l@, x@, 0),
{
    let mut i: usize = 0;
    while i < l.len()
        invariant
            i <= l@.len(),
            text_pos_or_zero(l@, x@, 0) == text_pos_or_zero(l@, x@, i as int),
        decreases l@.len() - i,
    {
        if str_eq(l[i].as_str(), x) {
            return i;
        }
        i = i + 1;
    }
    0
}

/// `h` or Left: a step back.
pub open spec fn is_back_key(key: KeyEvent) -> bool {
    key.code == KeyCode::Left || key.code == KeyCode::Char('h')
}

/// What a key does to the version popup. Everything but Esc keeps it open.
pub open spec fn popup_key_applied(p: VersionPopupState, after: Option<VersionPopupState>, key: KeyEvent, r: ListKeyOutcome) -> bool {
    let simple = r.handled && r.action is None;
    if p.confirming && is_back_key(key) && !p.installing {
        simple && after == Some(VersionPopupState { confirming: false,
            selecting_world: if p.target_world is Some && p.current_version_id is None { true } else { p.selecting_world },
            error: None, ..p })
    } else if p.selecting_world && is_back_key(key) && !p.loading && !p.installing {
        simple && after == Some(VersionPopupState { selecting_world: false, target_world: None, installed_path: None,
            dependency_plan: None, error: None, ..p })
    } else if !p.selecting_minecraft_version && p.selected_minecraft_version is Some && is_back_key(key) && !p.loading && !p.installing {
        simple && after == Some(VersionPopupState { selecting_minecraft_version: true,
            selected: text_pos_or_zero(p.minecraft_versions@, p.selected_minecraft_version->0@, 0), ..p })
    } else if key.code == KeyCode::Esc && !p.installing {
        simple && after is None
    } else if p.selecting_world {
        after matches Some(q) && q == (VersionPopupState { worlds: q.worlds, ..p }) && q.worlds.key_outcome(p.worlds, key, false, r)
    } else if (key.code == KeyCode::Char('j') || key.code == KeyCode::Down) && !p.loading && !p.installing && !p.confirming {
        simple && after == Some(VersionPopupState {
            selected: if p.selected + 1 < p.item_count_spec() { (p.selected + 1) as usize } else { p.selected }, ..p })
    } else if (key.code == KeyCode::Char('k') || key.code == KeyCode::Up) && !p.loading && !p.installing && !p.confirming {
        simple && after == Some(VersionPopupState { selected: if p.selected == 0 { 0 } else { (p.selected - 1) as usize }, ..p })
    } else {
        simple && after == Some(p)
    }
}

/// `a + b`, saturating, at most `max`.
pub open spec fn scroll_down(a: usize, b: usize, max: usize) -> usize {
    let s = sat_add(a, b);
    if s < max { s } else { max }
}

/// `a - b`, saturating at zero.
pub open spec fn scroll_up(a: usize, b: usize) -> usize {
    if a < b { 0 } else { (a - b) as usize }
}

/// What a key does to the project page: it scrolls within its bounds or closes.
pub open spec fn page_key_applied(pg: ProjectPageState, after: Option<ProjectPageState>, key: KeyEvent) -> bool {
    let c = key.code;
    if c == KeyCode::Esc || c == KeyCode::Left || c == KeyCode::Char('h') {
        after is None
    } else if c == KeyCode::Char('j') || c == KeyCode::Down {
        after == Some(ProjectPageState { scroll: scroll_down(pg.scroll, 1, pg.max_scroll), ..pg })
    } else if c == KeyCode::Char('k') || c == KeyCode::Up {
        after == Some(ProjectPageState { scroll: scroll_up(pg.scroll, 1), ..pg })
    } else if c == KeyCode::PageDown || c == KeyCode::Char('d') {
        after == Some(ProjectPageState { scroll: scroll_down(pg.scroll, 10, pg.max_scroll), ..pg })
    } else if c == KeyCode::PageUp || c == KeyCode::Char('u') {
        after == Some(ProjectPageState { scroll: scroll_up(pg.scroll, 10), ..pg })
    } else if c == KeyCode::Char('g') || c == KeyCode::Home {
        after == Some(ProjectPageState { scroll: 0, ..pg })
    } else if c == KeyCode::Char('G') || c == KeyCode::End {
        after == Some(ProjectPageState { scroll: pg.max_scroll, ..pg })
    } else {
        after == Some(pg)
    }
}

fn popup_key(p: &mut VersionPopupState, key: &KeyEvent) -> (r: (bool, ListKeyOutcome))
    ensures
        ({
            let (close, out) = r;
            popup_key_applied(*old(p), if close { None } else { Some(*final(p)) }, *key, out)
        }),
{
    let back = key.code == KeyCode::Left || key.code == KeyCode::Char('h');
    let simple = ListKeyOutcome { handled: true, action: None };
    if p.confirming && back && !p.installing {
        p.confirming = false;
        if p.target_world.is_some() && p.current_version_id.is_none() {
            p.selecting_world = true;
        }
        p.error = None;
        return (false, simple);
    }
    if p.selecting_world && back && !p.loading && !p.installing {
        p.selecting_world = false;
        p.target_world = None;
        p.installed_path = None;
        p.dependency_plan = None;
        p.error = None;
        return (false, simple);
    }
    if !p.selecting_minecraft_version && p.selected_minecraft_version.is_some() && back && !p.loading && !p.installing {
        let pos = match &p.selected_minecraft_version {
            Some(v) => position_or_zero(&p.minecraft_versions, v.as_str()),
            None => 0,
        };
        p.selecting_minecraft_version = true;
        p.selected = pos;
        return (false, simple);
    }
    if key.code == KeyCode::Esc && !p.installing {
        return (true, simple);
    }
    if p.selecting_world {
        let out = crate::list::handle_key_no_toggle(key, &mut p.worlds);
        return (false, out);
    }
    let down = key.code == KeyCode::Char('j') || key.code == KeyCode::Down;
    let up = key.code == KeyCode::Char('k') || key.code == KeyCode::Up;
    if down && !p.loading && !p.installing && !p.confirming {
        let count = p.item_count();
        if count > 0 && p.selected < count - 1 {
            p.selected = p.selected + 1;
        }
    } else if up && !p.loading && !p.installing && !p.confirming {
        p.selected = if p.selected == 0 { 0 } else { p.selected - 1 };
    }
    (false, simple)
}

fn page_key(pg: &mut ProjectPageState, key: &KeyEvent) -> (close: bool)
    ensures
        page_key_applied(*old(pg), if close { None } else { Some(*final(pg)) }, *key),
{
    let c = key.code;
    if c == KeyCode::Esc || c == KeyCode::Left || c == KeyCode::Char('h') {
        return true;
    }
    if c == KeyCode::Char('j') || c == KeyCode::Down {
        let s = pg.scroll.saturating_add(1);
        pg.scroll = if s < pg.max_scroll { s } else { pg.max_scroll };
    } else if c == KeyCode::Char('k') || c == KeyCode::Up {
        pg.scroll = pg.scroll.saturating_sub(1);
    } else if c == KeyCode::PageDown || c == KeyCode::Char('d') {
        let s = pg.scroll.saturating_add(10);
        pg.scroll = if s < pg.max_scroll { s } else { pg.max_scroll };
    } else if c == KeyCode::PageUp || c == KeyCode::Char('u') {
        pg.scroll = pg.scroll.saturating_sub(10);
    } else if c == KeyCode::Char('g') || c == KeyCode::Home {
        pg.scroll = 0;
    } else if c == KeyCode::Char('G') || c == KeyCode::End {
        pg.scroll = pg.max_scroll;
    }
    false
}

impl DiscoveryState {
    /// What a key typed into the search leaves.
    pub open spec fn search_key_applied(self, before: Self, key: KeyEvent, now: u64) -> bool {
        let query = search_query_after(before.search.query@, key);
        &&& self == (DiscoveryState { search: self.search, list: self.list, search_changed_at: self.search_changed_at, ..before })
        &&& self.search.query@ == query
        &&& self.search.active == (key.code != KeyCode::Enter && key.code != KeyCode::Esc)
        &&& if query != before.search.query@ {
            &&& self.list.search.query@ == query
            &&& !self.list.filters_search()
            &&& self.list.entries == before.list.entries
            &&& self.search_changed_at == Some(now)
        } else {
            self.list == before.list && self.search_changed_at == before.search_changed_at
        }
    }

    fn search_key(&mut self, key: &KeyEvent, now: u64)
        requires
            old(self).search.active,
        ensures
            final(self).search_key_applied(*old(self), *key, now),
    {
        let previous = self.search.query.clone();
        match key.code {
            KeyCode::Enter => self.search.confirm(),
            KeyCode::Esc => {
                self.search.deactivate();
                assert(self.search.query@ =~= Seq::<char>::empty());
            },
            KeyCode::Backspace => self.search.backspace(key.modifiers),
            KeyCode::Char(c) => self.search.push(c),
            _ => {},
        }
        assert(self.search.query@ == search_query_after(old(self).search.query@, *key));
        if !str_eq(self.search.query.as_str(), previous.as_str()) {
            self.search_changed(now);
        }
    }
}

/// Handles a key in the discovery view at time `now` (ms). The version popup takes
/// every key while open, then the project page, then the search while typing;
/// `[`/`]` change pages and the rest go to the list.
pub fn handle_key(key: &KeyEvent, state: &mut DiscoveryState, now: u64) -> (r: ListKeyOutcome)
    ensures
        match old(state).version_popup {
            Some(p) => *final(state) == (DiscoveryState { version_popup: final(state).version_popup, ..*old(state) })
                && popup_key_applied(p, final(state).version_popup, *key, r),
            None => match old(state).project_page {
                Some(pg) => r.handled && r.action is None
                    && *final(state) == (DiscoveryState { project_page: final(state).project_page, ..*old(state) })
                    && page_key_applied(pg, final(state).project_page, *key),
                None => if old(state).search.active {
                    r.handled && r.action is None && final(state).search_key_applied(*old(state), *key, now)
                } else if key.code == KeyCode::Char('/') {
                    &&& r.handled && r.action is None
                    &&& *final(state) == (DiscoveryState { search: final(state).search, ..*old(state) })
                    &&& final(state).search.active
                    &&& final(state).search.query@ == old(state).search.query@
                } else if key.code == KeyCode::Char('[') || key.code == KeyCode::Char(']') {
                    &&& r.action is None
                    &&& *final(state) == (DiscoveryState { list: final(state).list, ..*old(state) })
                    &&& final(state).list.paged(old(state).list, key.code == KeyCode::Char(']'), r.handled)
                } else {
                    &&& *final(state) == (DiscoveryState { list: final(state).list, ..*old(state) })
                    &&& final(state).list.key_outcome(old(state).list, *key, false, r)
                },
            },
        },
{
    if let Some(mut p) = state.version_popup.take() {
        let (close, out) = popup_key(&mut p, key);
        if !close {
            state.version_popup = Some(p);
        }
        return out;
    }
    if let Some(mut pg) = state.project_page.take() {
        let close = page_key(&mut pg, key);
        if !close {
            state.project_page = Some(pg);
        }
        return ListKeyOutcome { handled: true, action: None };
    }
    if state.search.active {
        state.search_key(key, now);
        return ListKeyOutcome { handled: true, action: None };
    }
    if key.code == KeyCode::Char('/') {
        state.search.activate();
        return ListKeyOutcome { handled: true, action: None };
    }
    match page_key_direction(key) {
        Some(next) => {
            let moved = if next { state.list.next_page() } else { state.list.previous_page() };
            ListKeyOutcome { handled: moved, action: None }
        },
        None => crate::list::handle_key_no_toggle(key, &mut state.list),
    }
}


/// The version of `provider`'s project `id` that the manifest records as installed,
/// empty when none is.
pub open spec fn installed_version(files: Seq<ContentFileRecord>, provider: Seq<char>, id: Seq<char>) -> Seq<char> {
    match crate::model::manifest_find_from(files, provider, id, 0) {
        Some(i) => match crate::model::record_project(files[i], provider, id) {
            Some(p) => p.version_id,
            None => Seq::empty(),
        },
        None => Seq::empty(),
    }
}

/// Where `provider`'s project `id` is installed, if the manifest has it.
pub open spec fn resolved_path(files: Seq<ContentFileRecord>, provider: Seq<char>, id: Seq<char>, dir: Seq<char>) -> Option<Seq<char>> {
    match crate::model::manifest_find_from(files, provider, id, 0) {
        Some(i) => Some(crate::path::join_spec(dir, files[i].relative_path@)),
        None => None,
    }
}

/// A reference with its version set to the installed one.
pub open spec fn with_installed_version(p: ProjectRef, files: Seq<ContentFileRecord>) -> ProjectRef {
    ProjectRef { version_id: installed_version(files, p.provider, p.project_id), ..p }
}

fn installed_version_of(manifest: &ContentManifest, provider: &str, id: &str) -> (r: String)
    ensures
        r@ == installed_version(manifest.files@, provider@, id@),
{
    match manifest.find_project(provider, id) {
        Some(i) => match manifest.files[i].project_for_provider(provider, id) {
            Some(p) => p.version_id,
            None => String::new(),
        },
        None => String::new(),
    }
}

pub(crate) fn resolved_path_of(manifest: &ContentManifest, provider: &str, id: &str, dir: &str) -> (r: Option<String>)
    ensures
        opt_view(r) == resolved_path(manifest.files@, provider@, id@, dir@),
{
    match manifest.find_project(provider, id) {
        Some(i) => Some(crate::path::join(dir, manifest.files[i].relative_path.as_str())),
        None => None,
    }
}

/// Sets each source's version to the one the manifest records as installed.
pub fn refresh_source_installed_versions(sources: &mut Vec<(String, ProviderProject)>, manifest: Option<&ContentManifest>)
    ensures
        match manifest {
            None => *final(sources) == *old(sources),
            Some(m) => final(sources)@.len() == old(sources)@.len() && forall|i: int| 0 <= i < old(sources)@.len() ==> {
                &&& (#[trigger] final(sources)@[i]).0 == old(sources)@[i].0
                &&& final(sources)@[i].1@ == with_installed_version(old(sources)@[i].1@, m.files@)
            },
        },
{
    let m = match manifest {
        Some(m) => m,
        None => return,
    };
    let mut i: usize = 0;
    while i < sources.len()
        invariant
            i <= sources@.len(),
            sources@.len() == old(sources)@.len(),
            forall|j: int| 0 <= j < old(sources)@.len() ==> {
                &&& (#[trigger] sources@[j]).0 == old(sources)@[j].0
                &&& (j < i ==> sources@[j].1@ == with_installed_version(old(sources)@[j].1@, m.files@))
                &&& (j >= i ==> sources@[j] == old(sources)@[j])
            },
        decreases sources@.len() - i,
    {
        let version = installed_version_of(m, sources[i].1.provider.as_str(), sources[i].1.project_id.as_str());
        let mut item = sources.remove(i);
        item.1.version_id = version;
        sources.insert(i, item);
        i = i + 1;
    }
}

/// The installed path of a row: that of its first recorded source the manifest
/// has, else that of its own project.
pub open spec fn first_resolved(cands: Seq<ProjectRef>, files: Seq<ContentFileRecord>, dir: Seq<char>, k: int) -> Option<Seq<char>>
    decreases cands.len() - k,
{
    if k < 0 || k >= cands.len() {
        None
    } else {
        match resolved_path(files, cands[k].provider, cands[k].project_id, dir) {
            Some(p) => Some(p),
            None => first_resolved(cands, files, dir, k + 1),
        }
    }
}

/// The candidates for a row's installed path: its recorded sources, then its own project.
pub open spec fn path_candidates(sources: Seq<(String, Vec<ProviderProject>)>, e: ContentEntry) -> Seq<ProjectRef> {
    let recorded = match stem_sources(sources, e.file_stem@) { Some(l) => l, None => Seq::empty() };
    recorded + match e.provider_project { Some(p) => seq![p@], None => Seq::empty() }
}

impl DiscoveryState {
    /// Follows a changed manifest: the recorded and shown projects get their
    /// installed version, and each row's installed path and "Installed" badge follow
    /// the manifest.
    pub fn refresh_installed_manifest(&mut self, manifest: &ContentManifest, minecraft_dir: &str)
        ensures
            final(self).sources@.len() == old(self).sources@.len(),
            forall|i: int| 0 <= i < old(self).sources@.len() ==> {
                &&& (#[trigger] final(self).sources@[i]).0 == old(self).sources@[i].0
                &&& refs(final(self).sources@[i].1@) == refs(old(self).sources@[i].1@).map_values(
                    |p: ProjectRef| with_installed_version(p, manifest.files@))
            },
            final(self).list.entries@.len() == old(self).list.entries@.len(),
            forall|i: int| 0 <= i < old(self).list.entries@.len() ==> {
                let e = old(self).list.entries@[i];
                let f = #[trigger] final(self).list.entries@[i];
                let path = first_resolved(path_candidates(old(self).sources@, e), manifest.files@, minecraft_dir@, 0);
                &&& f == (ContentEntry { provider_project: f.provider_project, installed_path: f.installed_path,
                    title_suffix: f.title_suffix, ..e })
                &&& crate::model::opt_project_view(f.provider_project) == match e.provider_project {
                    Some(p) => Some(with_installed_version(p@, manifest.files@)),
                    None => None,
                }
                &&& if opt_view(e.installed_path) != path {
                    opt_view(f.installed_path) == path
                        && opt_view(f.title_suffix) == (if path is Some { Some("Installed"@) } else { None })
                } else {
                    f.installed_path == e.installed_path && f.title_suffix == e.title_suffix
                }
            },
            *final(self) == (DiscoveryState { sources: final(self).sources, list: ContentListState {
                entries: final(self).list.entries, ..old(self).list }, ..*old(self) }),
    {
        let mut i: usize = 0;
        while i < self.list.entries.len()
            invariant
                i <= self.list.entries@.len(),
                self.list.entries@.len() == old(self).list.entries@.len(),
                *self == (DiscoveryState { list: ContentListState { entries: self.list.entries, ..old(self).list }, ..*old(self) }),
                forall|j: int| 0 <= j < old(self).list.entries@.len() ==> {
                    let e = old(self).list.entries@[j];
                    let f = #[trigger] self.list.entries@[j];
                    let path = first_resolved(path_candidates(old(self).sources@, e), manifest.files@, minecraft_dir@, 0);
                    &&& (j < i ==> {
                        &&& f == (ContentEntry { provider_project: f.provider_project, installed_path: f.installed_path,
                            title_suffix: f.title_suffix, ..e })
                        &&& crate::model::opt_project_view(f.provider_project) == match e.provider_project {
                            Some(p) => Some(with_installed_version(p@, manifest.files@)),
                            None => None,
                        }
                        &&& if opt_view(e.installed_path) != path {
                            opt_view(f.installed_path) == path
                                && opt_view(f.title_suffix) == (if path is Some { Some("Installed"@) } else { None })
                        } else {
                            f.installed_path == e.installed_path && f.title_suffix == e.title_suffix
                        }
                    })
                    &&& (j >= i ==> f == e)
                },
            decreases self.list.entries@.len() - i,
        {
            let path = entry_path(&self.sources, &self.list.entries[i], manifest, minecraft_dir);
            let mut e = self.list.entries.remove(i);
            let ghost e0 = e;
            if let Some(p) = &mut e.provider_project {
                let version = installed_version_of(manifest, p.provider.as_str(), p.project_id.as_str());
                p.version_id = version;
            }
            if !crate::text::opt_eq(&e.installed_path, &path) {
                e.title_suffix = if path.is_some() { Some(owned("Installed")) } else { None };
                e.installed_path = path;
            }
            self.list.entries.insert(i, e);
            i = i + 1;
        }
        let ghost old_sources = self.sources@;
        let ghost entries_now = self.list.entries;
        let mut k: usize = 0;
        while k < self.sources.len()
            invariant
                k <= self.sources@.len(),
                self.list.entries == entries_now,
                self.sources@.len() == old_sources.len(),
                old_sources == old(self).sources@,
                *self == (DiscoveryState { sources: self.sources, list: ContentListState { entries: self.list.entries, ..old(self).list }, ..*old(self) }),
                forall|i: int| 0 <= i < old_sources.len() ==> {
                    &&& (#[trigger] self.sources@[i]).0 == old_sources[i].0
                    &&& (i < k ==> refs(self.sources@[i].1@) == refs(old_sources[i].1@).map_values(
                        |p: ProjectRef| with_installed_version(p, manifest.files@)))
                    &&& (i >= k ==> self.sources@[i] == old_sources[i])
                },
            decreases self.sources@.len() - k,
        {
            let ghost prev = self.sources@;
            let mut item = self.sources.remove(k);
            assert(item == old_sources[k as int]);
            let ghost list0 = item.1@;
            let ghost name0 = item.0;
            let mut j: usize = 0;
            while j < item.1.len()
                invariant
                    j <= item.1@.len(),
                    item.0 == name0,
                    item.1@.len() == list0.len(),
                    forall|a: int| 0 <= a < list0.len() ==> {
                        &&& (a < j ==> (#[trigger] item.1@[a])@ == with_installed_version(list0[a]@, manifest.files@))
                        &&& (a >= j ==> item.1@[a] == list0[a])
                    },
                decreases item.1@.len() - j,
            {
                let version = installed_version_of(manifest, item.1[j].provider.as_str(), item.1[j].project_id.as_str());
                let mut p = item.1.remove(j);
                p.version_id = version;
                item.1.insert(j, p);
                j = j + 1;
            }
            assert(refs(item.1@) =~= refs(list0).map_values(|p: ProjectRef| with_installed_version(p, manifest.files@)));
            let ghost it = item;
            self.sources.insert(k, item);
            assert(self.sources@ =~= prev.update(k as int, it));
            k = k + 1;
        }
    }
}

fn entry_path(sources: &Vec<(String, Vec<ProviderProject>)>, e: &ContentEntry, manifest: &ContentManifest, dir: &str)
    -> (r: Option<String>)
    ensures
        opt_view(r) == first_resolved(path_candidates(sources@, *e), manifest.files@, dir@, 0),
{
    let mut cands = match find_stem_sources(sources, e.file_stem.as_str()) {
        Some(v) => v,
        None => Vec::new(),
    };
    let ghost recorded = refs(cands@);
    match &e.provider_project {
        Some(p) => {
            cands.push(p.clone());
            assert(refs(cands@) =~= recorded + seq![p@]);
        },
        None => {
            assert(refs(cands@) =~= recorded + Seq::<ProjectRef>::empty());
        },
    }
    let ghost c = refs(cands@);
    assert(c == path_candidates(sources@, *e));
    let mut k: usize = 0;
    while k < cands.len()
        invariant
            k <= cands@.len(),
            c == refs(cands@),
            c == path_candidates(sources@, *e),
            first_resolved(c, manifest.files@, dir@, 0) == first_resolved(c, manifest.files@, dir@, k as int),
        decreases cands@.len() - k,
    {
        let found = resolved_path_of(manifest, cands[k].provider.as_str(), cands[k].project_id.as_str(), dir);
        assert(c[k as int] == cands@[k as int]@);
        if found.is_some() {
            assert(first_resolved(c, manifest.files@, dir@, k as int) == opt_view(found));
            return found;
        }
        assert(first_resolved(c, manifest.files@, dir@, k as int) == first_resolved(c, manifest.files@, dir@, k + 1));
        k = k + 1;
    }
    None
}


/// Whether a project offers an icon: loaded bytes, or a non-blank icon address.
pub open spec fn offers_icon(p: crate::model::DiscoveryView) -> bool {
    p.icon_bytes is Some || (p.icon_url matches Some(u) && crate::text::trim_spec(u).len() > 0)
}

/// The row of a discovered project under `stem`. `downloads_label` is the
/// formatted download count; the row's footer reads it followed by " downloads".
pub fn provider_project_entry(
    project: crate::model::DiscoveryProject,
    provider: &str,
    stem: String,
    installed_path: Option<String>,
    downloads_label: &str,
) -> (r: ContentEntry)
    ensures
        r.file_stem@ == stem@,
        r.name@ == project.title@,
        opt_view(r.source_slug) == Some(project.slug@),
        opt_view(r.installed_path) == opt_view(installed_path),
        crate::model::opt_project_view(r.provider_project) == Some(ProjectRef {
            provider: provider@, project_id: project.id@, version_id: Seq::empty() }),
        r.world_details is None,
        opt_view(r.title_suffix) == (if installed_path is Some { Some("Installed"@) } else { None }),
        opt_view(r.footer_label) == Some(downloads_label@ + " downloads"@),
        r.footer_change is None,
        r.description@ == project.description@,
        r.enabled,
        crate::model::opt_bytes_view(r.icon_bytes) == crate::model::opt_bytes_view(project.icon_bytes),
        r.provider_icon == offers_icon(project@),
        !r.provider_description,
        r.path@ == stem@,
        r.icon_lines is Some,
{
    let provider_icon = project.icon_bytes.is_some() || match &project.icon_url {
        Some(u) => !crate::text::is_blank(u.as_str()),
        None => false,
    };
    let title_suffix = if installed_path.is_some() { Some(owned("Installed")) } else { None };
    let crate::model::DiscoveryProject { id, slug, title, description, icon_bytes, .. } = project;
    ContentEntry {
        file_stem: stem.clone(),
        name: title,
        source_slug: Some(slug),
        installed_path,
        provider_project: Some(ProviderProject { provider: owned(provider), project_id: id, version_id: String::new() }),
        world_details: None,
        title_suffix,
        footer_label: Some(concat(downloads_label, " downloads")),
        footer_change: None,
        description,
        enabled: true,
        icon_bytes,
        provider_icon,
        provider_description: false,
        path: stem,
        icon_lines: Some(crate::model::fallback_icon()),
    }
}


/// The row of a Modrinth project, keyed by its id.
pub fn project_entry(
    project: crate::model::DiscoveryProject,
    installed_path: Option<String>,
    downloads_label: &str,
) -> (r: ContentEntry)
    ensures
        r.file_stem@ == project.id@,
        r.name@ == project.title@,
        opt_view(r.source_slug) == Some(project.slug@),
        opt_view(r.installed_path) == opt_view(installed_path),
        crate::model::opt_project_view(r.provider_project) == Some(ProjectRef {
            provider: "modrinth"@, project_id: project.id@, version_id: Seq::empty() }),
        opt_view(r.title_suffix) == (if installed_path is Some { Some("Installed"@) } else { None }),
        opt_view(r.footer_label) == Some(downloads_label@ + " downloads"@),
        r.description@ == project.description@,
        r.path@ == project.id@,
{
    let stem = project.id.clone();
    provider_project_entry(project, "modrinth", stem, installed_path, downloads_label)
}

/// A page result of an earlier search changes nothing.
pub proof fn lemma_stale_result_ignored(before: DiscoveryState, after: DiscoveryState, res: PendingDiscoveryResult, now: u64)
    requires
        after.page_applied(before, res, now),
        res.generation != before.generation,
    ensures
        after == before,
{
}

/// Starting a search makes the results of every request made before it stale:
/// such a result, arriving afterwards, changes nothing.
pub proof fn lemma_new_search_makes_results_stale(
    s0: DiscoveryState,
    s1: DiscoveryState,
    context: Seq<char>,
    req: DiscoveryRequest,
    s2: DiscoveryState,
    res: PendingDiscoveryResult,
    now: u64,
)
    requires
        s1.search_started(s0, context, req),
        res.generation == s0.generation,
        s2.page_applied(s1, res, now),
    ensures
        s2 == s1,
        req.generation != s0.generation,
{
}

/// A page of the current search moves the offset past the rows received, and
/// the results end when nothing came or the total is reached.
pub proof fn lemma_page_advances_offset(before: DiscoveryState, after: DiscoveryState, res: PendingDiscoveryResult, now: u64)
    requires
        after.page_applied(before, res, now),
        res.generation == before.generation,
        res.result is Ok,
    ensures
        after.next_offset == sat_add(res.offset, res.result->Ok_0.received),
        after.exhausted == (res.result->Ok_0.received == 0 || after.next_offset >= res.result->Ok_0.total_hits),
        after.error is None,
        !after.page_loading,
        after.list.entries == before.list.entries,
{
}

/// A failure that can be retried keeps the rows and the offset, and no further
/// page is asked for before the retry time.
pub proof fn lemma_retry_waits(before: DiscoveryState, after: DiscoveryState, res: PendingDiscoveryResult, now: u64, t: u64)
    requires
        after.page_applied(before, res, now),
        res.generation == before.generation,
        res.result matches Err(e) && e.retryable,
        t < add_ms(now, retry_delay(before.page_retry_attempt)),
    ensures
        after.next_offset == before.next_offset,
        after.list.entries == before.list.entries,
        after.retry_page_at == Some(add_ms(now, retry_delay(before.page_retry_attempt))),
        !after.should_load_more_spec(t),
{
}

/// A failure that cannot be retried ends the results and keeps the rows loaded so far.
pub proof fn lemma_permanent_failure_stops(before: DiscoveryState, after: DiscoveryState, res: PendingDiscoveryResult, now: u64, t: u64)
    requires
        after.page_applied(before, res, now),
        res.generation == before.generation,
        res.result matches Err(e) && !e.retryable,
    ensures
        after.exhausted,
        after.list.entries == before.list.entries,
        !after.should_load_more_spec(t),
{
}

/// The retry delay starts at the base delay, doubles with each attempt and is capped.
pub proof fn lemma_retry_delay(attempt: u32)
    ensures
        PAGE_RETRY_BASE_DELAY_MS <= retry_delay(attempt) <= PAGE_RETRY_MAX_DELAY_MS,
        attempt == 0 ==> retry_delay(attempt) == PAGE_RETRY_BASE_DELAY_MS,
        attempt < 4 ==> retry_delay((attempt + 1) as u32) == 2 * retry_delay(attempt),
        attempt >= 4 ==> retry_delay(attempt) == PAGE_RETRY_MAX_DELAY_MS,
{
}

} // verus!
