//! The launcher's content data, as the widgets read and change it.

use vstd::prelude::*;
use crate::text::{opt_view, opt_clone};

verus! {

/// The kinds of content an instance can hold.
#[derive(Clone, Copy, Debug, PartialEq, Eq, Structural)]
pub enum ContentKind {
    Mod,
    ResourcePack,
    Shader,
    DataPack,
}

/// The mod loader an instance runs.
#[derive(Clone, Copy, Debug, PartialEq, Eq, Structural)]
pub enum ModLoader {
    Vanilla,
    Fabric,
    Forge,
    NeoForge,
    Quilt,
}

/// The game mode a saved world was last played in.
#[derive(Clone, Copy, Debug, PartialEq, Eq, Structural)]
pub enum WorldGameMode {
    Survival,
    Creative,
    Adventure,
    Spectator,
    Hardcore,
}

/// A project of a content provider (Modrinth, CurseForge), possibly pinned to a version.
#[derive(Debug)]
pub struct ProviderProject {
    pub provider: String,
    pub project_id: String,
    pub version_id: String,
}

/// The characters of a provider project reference.
pub ghost struct ProjectRef {
    pub provider: Seq<char>,
    pub project_id: Seq<char>,
    pub version_id: Seq<char>,
}

impl View for ProviderProject {
    type V = ProjectRef;

    open spec fn view(&self) -> ProjectRef {
        ProjectRef { provider: self.provider@, project_id: self.project_id@, version_id: self.version_id@ }
    }
}

/// Two references name the same project of the same provider (versions may differ).
pub open spec fn same_project(a: ProjectRef, b: ProjectRef) -> bool {
    a.provider == b.provider && a.project_id == b.project_id
}

impl Clone for ProviderProject {
    fn clone(&self) -> (r: Self)
        ensures
            r@ == self@,
    {
        ProviderProject {
            provider: self.provider.clone(),
            project_id: self.project_id.clone(),
            version_id: self.version_id.clone(),
        }
    }
}

impl ProviderProject {
    /// Whether both name the same project of the same provider.
    pub fn same_project_as(&self, other: &ProviderProject) -> (r: bool)
        ensures
            r == same_project(self@, other@),
    {
        self.provider == other.provider && self.project_id == other.project_id
    }

    /// Whether both are equal in provider, project and version.
    pub fn equals(&self, other: &ProviderProject) -> (r: bool)
        ensures
            r == (self@ == other@),
    {
        self.provider == other.provider && self.project_id == other.project_id
            && self.version_id == other.version_id
    }
}

pub open spec fn opt_project_view(p: Option<ProviderProject>) -> Option<ProjectRef> {
    match p {
        Some(p) => Some(p@),
        None => None,
    }
}

/// A copy of an optional provider project.
pub fn opt_project_clone(p: &Option<ProviderProject>) -> (r: Option<ProviderProject>)
    ensures
        opt_project_view(r) == opt_project_view(*p),
{
    match p {
        Some(p) => Some(p.clone()),
        None => None,
    }
}

/// Whether two optional provider projects are equal.
pub fn opt_project_eq(a: &Option<ProviderProject>, b: &Option<ProviderProject>) -> (r: bool)
    ensures
        r == (opt_project_view(*a) == opt_project_view(*b)),
{
    match (a, b) {
        (Some(x), Some(y)) => x.equals(y),
        (None, None) => true,
        _ => false,
    }
}

/// One cell of a small pixel icon drawn with block characters.
#[derive(Clone, Copy, Debug, PartialEq, Eq, Structural)]
pub struct IconCell {
    pub symbol: char,
    pub fg: Rgb,
    pub bg: Rgb,
}

/// An RGB colour.
#[derive(Clone, Copy, Debug, PartialEq, Eq, Structural)]
pub struct Rgb {
    pub r: u8,
    pub g: u8,
    pub b: u8,
}

pub open spec fn fallback_icon_rows() -> nat {
    3
}

/// The placeholder icon shown until (or instead of) a decoded image: three rows
/// of six cells with a question mark in the middle.
pub fn fallback_icon() -> (r: Vec<Vec<IconCell>>)
    ensures
        r@.len() == fallback_icon_rows(),
        forall|i: int| 0 <= i < 3 ==> (#[trigger] r@[i])@.len() == 6,
{
    let dim = Rgb { r: 88, g: 91, b: 112 };
    let surface = Rgb { r: 49, g: 50, b: 68 };
    let text = Rgb { r: 205, g: 214, b: 244 };
    let blank = IconCell { symbol: ' ', fg: dim, bg: surface };
    let mark = IconCell { symbol: '?', fg: text, bg: surface };
    let top = vec![blank, blank, blank, blank, blank, blank];
    let middle = vec![blank, blank, mark, mark, blank, blank];
    let bottom = vec![blank, blank, blank, blank, blank, blank];
    vec![top, middle, bottom]
}

/// Details shown for a saved world.
#[derive(Debug)]
pub struct WorldDetails {
    pub minecraft_version: Option<String>,
    pub size: Option<String>,
    pub datapacks: Vec<String>,
    pub game_mode: Option<WorldGameMode>,
}

/// One row of a content list: an installed file or a provider project.
#[derive(Debug)]
pub struct ContentEntry {
    pub file_stem: String,
    pub name: String,
    pub source_slug: Option<String>,
    pub installed_path: Option<String>,
    pub provider_project: Option<ProviderProject>,
    pub world_details: Option<WorldDetails>,
    pub title_suffix: Option<String>,
    pub footer_label: Option<String>,
    pub footer_change: Option<(String, String)>,
    pub description: String,
    pub enabled: bool,
    pub icon_bytes: Option<Vec<u8>>,
    pub provider_icon: bool,
    pub provider_description: bool,
    pub path: String,
    pub icon_lines: Option<Vec<Vec<IconCell>>>,
}

pub open spec fn opt_bytes_view(b: Option<Vec<u8>>) -> Option<Seq<u8>> {
    match b {
        Some(v) => Some(v@),
        None => None,
    }
}

/// A copy of optional icon bytes.
pub fn opt_bytes_clone(b: &Option<Vec<u8>>) -> (r: Option<Vec<u8>>)
    ensures
        opt_bytes_view(r) == opt_bytes_view(*b),
{
    match b {
        Some(v) => {
            let c = v.clone();
            assert(c@ =~= v@);
            Some(c)
        },
        None => None,
    }
}

/// Whether two optional byte buffers hold the same bytes.
pub fn opt_bytes_eq(a: &Option<Vec<u8>>, b: &Option<Vec<u8>>) -> (r: bool)
    ensures
        r == (opt_bytes_view(*a) == opt_bytes_view(*b)),
{
    match (a, b) {
        (Some(x), Some(y)) => {
            if x.len() != y.len() {
                return false;
            }
            let mut i: usize = 0;
            while i < x.len()
                invariant
                    opt_bytes_view(*a) == Some(x@),
                    opt_bytes_view(*b) == Some(y@),
                    x@.len() == y@.len(),
                    i <= x@.len(),
                    forall|j: int| 0 <= j < i ==> x@[j] == y@[j],
                decreases x@.len() - i,
            {
                if x[i] != y[i] {
                    assert(x@[i as int] != y@[i as int]);
                    assert(x@ != y@);
                    return false;
                }
                i = i + 1;
            }
            assert(x@ =~= y@);
            true
        },
        (None, None) => true,
        _ => false,
    }
}

impl ContentEntry {
    /// The provider project of this entry, if any.
    pub open spec fn project(&self) -> Option<ProjectRef> {
        opt_project_view(self.provider_project)
    }
}

/// A Minecraft instance, as far as the widgets read it.
#[derive(Debug)]
pub struct InstanceConfig {
    pub name: String,
    pub game_version: String,
    pub loader: ModLoader,
    pub loader_version: Option<String>,
    pub last_played: Option<i64>,
    pub modpack_source: Option<ProviderProject>,
}

impl Clone for InstanceConfig {
    fn clone(&self) -> (r: Self)
        ensures
            r.name@ == self.name@,
            r.game_version@ == self.game_version@,
            r.loader == self.loader,
            opt_view(r.loader_version) == opt_view(self.loader_version),
            r.last_played == self.last_played,
            opt_project_view(r.modpack_source) == opt_project_view(self.modpack_source),
    {
        InstanceConfig {
            name: self.name.clone(),
            game_version: self.game_version.clone(),
            loader: self.loader,
            loader_version: opt_clone(&self.loader_version),
            last_played: self.last_played,
            modpack_source: opt_project_clone(&self.modpack_source),
        }
    }
}

/// A version of a provider project.
#[derive(Debug)]
pub struct VersionInfo {
    pub id: String,
    pub project_id: String,
    pub name: String,
    pub version_number: String,
    pub game_versions: Vec<String>,
    pub loaders: Vec<String>,
    pub date_published: String,
}

impl Clone for VersionInfo {
    fn clone(&self) -> (r: Self)
        ensures
            r.id@ == self.id@,
            r.project_id@ == self.project_id@,
            r.name@ == self.name@,
            r.version_number@ == self.version_number@,
            r.game_versions@ == self.game_versions@,
            r.loaders@ == self.loaders@,
            r.date_published@ == self.date_published@,
    {
        let g = self.game_versions.clone();
        let l = self.loaders.clone();
        assert(g@ =~= self.game_versions@);
        assert(l@ =~= self.loaders@);
        VersionInfo {
            id: self.id.clone(),
            project_id: self.project_id.clone(),
            name: self.name.clone(),
            version_number: self.version_number.clone(),
            game_versions: g,
            loaders: l,
            date_published: self.date_published.clone(),
        }
    }
}

/// A project as a provider search returns it.
#[derive(Debug)]
pub struct DiscoveryProject {
    pub id: String,
    pub slug: String,
    pub title: String,
    pub description: String,
    pub downloads: u64,
    pub icon_url: Option<String>,
    pub icon_bytes: Option<Vec<u8>>,
}

/// The characters and numbers of a discovered project.
pub ghost struct DiscoveryView {
    pub id: Seq<char>,
    pub slug: Seq<char>,
    pub title: Seq<char>,
    pub description: Seq<char>,
    pub downloads: u64,
    pub icon_url: Option<Seq<char>>,
    pub icon_bytes: Option<Seq<u8>>,
}

impl View for DiscoveryProject {
    type V = DiscoveryView;

    open spec fn view(&self) -> DiscoveryView {
        DiscoveryView {
            id: self.id@,
            slug: self.slug@,
            title: self.title@,
            description: self.description@,
            downloads: self.downloads,
            icon_url: opt_view(self.icon_url),
            icon_bytes: opt_bytes_view(self.icon_bytes),
        }
    }
}

impl Clone for DiscoveryProject {
    fn clone(&self) -> (r: Self)
        ensures
            r@ == self@,
    {
        DiscoveryProject {
            id: self.id.clone(),
            slug: self.slug.clone(),
            title: self.title.clone(),
            description: self.description.clone(),
            downloads: self.downloads,
            icon_url: opt_clone(&self.icon_url),
            icon_bytes: opt_bytes_clone(&self.icon_bytes),
        }
    }
}

/// One page of provider search results.
#[derive(Debug)]
pub struct DiscoveryResults {
    pub projects: Vec<DiscoveryProject>,
    pub total_hits: usize,
}

/// A provider's full project description, shown on the project page.
#[derive(Debug)]
pub struct ProjectInfo {
    pub id: String,
    pub slug: String,
    pub title: String,
    pub description: String,
    pub body: String,
}

/// What the content manifest records of one installed file.
#[derive(Debug)]
pub struct ContentFileRecord {
    /// The file's path below the instance's Minecraft directory.
    pub relative_path: String,
    /// The kind of content the file is.
    pub kind: ContentKind,
    /// The provider project the file was identified as.
    pub project: Option<ProviderProject>,
    /// The same project at other providers.
    pub provider_aliases: Vec<ProviderProject>,
}

/// The installed files of an instance with the projects they belong to.
#[derive(Debug)]
pub struct ContentManifest {
    pub files: Vec<ContentFileRecord>,
}

/// The first of `a` that is `provider`'s project `project_id`.
pub open spec fn alias_find(a: Seq<ProviderProject>, provider: Seq<char>, project_id: Seq<char>) -> Option<ProjectRef>
    decreases a.len(),
{
    if a.len() == 0 {
        None
    } else if a[0].provider@ == provider && a[0].project_id@ == project_id {
        Some(a[0]@)
    } else {
        alias_find(a.drop_first(), provider, project_id)
    }
}

/// The record's entry for `provider`'s project `project_id`: its own project, else an alias.
pub open spec fn record_project(r: ContentFileRecord, provider: Seq<char>, project_id: Seq<char>) -> Option<ProjectRef> {
    match r.project {
        Some(p) => if p.provider@ == provider && p.project_id@ == project_id { Some(p@) }
            else { alias_find(r.provider_aliases@, provider, project_id) },
        None => alias_find(r.provider_aliases@, provider, project_id),
    }
}

/// The index of the first record that holds `provider`'s project `project_id`, from `i` on.
pub open spec fn manifest_find_from(files: Seq<ContentFileRecord>, provider: Seq<char>, project_id: Seq<char>, i: int) -> Option<int>
    decreases files.len() - i,
{
    if i < 0 || i >= files.len() {
        None
    } else if record_project(files[i], provider, project_id) is Some {
        Some(i)
    } else {
        manifest_find_from(files, provider, project_id, i + 1)
    }
}

impl ContentFileRecord {
    /// The record's entry for `provider`'s project `project_id`.
    pub fn project_for_provider(&self, provider: &str, project_id: &str) -> (r: Option<ProviderProject>)
        ensures
            opt_project_view(r) == record_project(*self, provider@, project_id@),
    {
        if let Some(p) = &self.project {
            if crate::text::str_eq(p.provider.as_str(), provider) && crate::text::str_eq(p.project_id.as_str(), project_id) {
                return Some(p.clone());
            }
        }
        let a = &self.provider_aliases;
        let mut i: usize = 0;
        assert(a@.subrange(0, a@.len() as int) =~= a@);
        while i < a.len()
            invariant
                i <= a@.len(),
                alias_find(a@, provider@, project_id@) == alias_find(a@.subrange(i as int, a@.len() as int), provider@, project_id@),
                record_project(*self, provider@, project_id@) == alias_find(a@, provider@, project_id@),
            decreases a@.len() - i,
        {
            assert(a@.subrange(i as int, a@.len() as int).drop_first() =~= a@.subrange(i + 1, a@.len() as int));
            assert(a@.subrange(i as int, a@.len() as int)[0] == a@[i as int]);
            if crate::text::str_eq(a[i].provider.as_str(), provider) && crate::text::str_eq(a[i].project_id.as_str(), project_id) {
                return Some(a[i].clone());
            }
            i = i + 1;
        }
        None
    }
}

impl ContentManifest {
    /// The first record that holds `provider`'s project `project_id`.
    pub fn find_project(&self, provider: &str, project_id: &str) -> (r: Option<usize>)
        ensures
            match r {
                Some(i) => manifest_find_from(self.files@, provider@, project_id@, 0) == Some(i as int) && i < self.files@.len(),
                None => manifest_find_from(self.files@, provider@, project_id@, 0) is None,
            },
    {
        let mut i: usize = 0;
        while i < self.files.len()
            invariant
                i <= self.files@.len(),
                manifest_find_from(self.files@, provider@, project_id@, 0) == manifest_find_from(self.files@, provider@, project_id@, i as int),
            decreases self.files@.len() - i,
        {
            if self.files[i].project_for_provider(provider, project_id).is_some() {
                return Some(i);
            }
            i = i + 1;
        }
        None
    }
}

/// The dependencies that installing a version brings along.
#[derive(Debug)]
pub struct DependencyPlan {
    /// Titles of dependencies that would be newly installed.
    pub installs: Vec<String>,
    /// Dependencies whose installed version would change: title and new version.
    pub replacements: Vec<(String, String)>,
    /// Optional dependencies that are not installed.
    pub optional_dependencies: usize,
}

/// The first record of the file at `path`, from position `i` on.
pub open spec fn record_at_from(files: Seq<ContentFileRecord>, path: Seq<char>, i: int) -> Option<int>
    decreases files.len() - i,
{
    if i < 0 || i >= files.len() {
        None
    } else if files[i].relative_path@ == path {
        Some(i)
    } else {
        record_at_from(files, path, i + 1)
    }
}

impl ContentManifest {
    /// The record of the file at `path` (below the Minecraft directory).
    pub fn record(&self, path: &str) -> (r: Option<usize>)
        ensures
            match r {
                Some(i) => record_at_from(self.files@, path@, 0) == Some(i as int) && i < self.files@.len(),
                None => record_at_from(self.files@, path@, 0) is None,
            },
    {
        let mut i: usize = 0;
        while i < self.files.len()
            invariant
                i <= self.files@.len(),
                record_at_from(self.files@, path@, 0) == record_at_from(self.files@, path@, i as int),
            decreases self.files@.len() - i,
        {
            if crate::text::str_eq(self.files[i].relative_path.as_str(), path) {
                return Some(i);
            }
            i = i + 1;
        }
        None
    }
}

} // verus!
