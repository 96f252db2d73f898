//! One page of a search over the content providers, once their answers are in:
//! when the page fails, which pages are merged, and the row each merged
//! project becomes, with the icon still to be fetched for it.

use vstd::prelude::*;
use crate::discovery::{provider_project_entry, resolved_path, resolved_path_of, offers_icon, refresh_source_installed_versions,
    with_installed_version, DiscoveryPageError, DiscoveryPageResult, PendingDiscoveryResult};
use crate::merge::{page_view, merge_provider_results, merged, max_received, max_total, preferred_first, MergedDiscoveryProject};
use crate::model::{ContentEntry, ContentManifest, ContentFileRecord, DiscoveryProject, DiscoveryResults, DiscoveryView, ProjectRef, ProviderProject, opt_bytes_view, opt_project_view};
use crate::stems::{has, has_exec};
use crate::text::{opt_view, str_eq};

verus! {

/// What one provider's search gave; none when the provider is turned off or
/// not configured.
pub type ProviderOutcome = Option<Result<DiscoveryResults, DiscoveryPageError>>;

/// Why the page fails, as message and whether trying again may help: a failed
/// Modrinth search counts unless CurseForge answered, a failed CurseForge search
/// counts when Modrinth is off, and no provider at all fails for good.
pub open spec fn outcome_failure(modrinth: ProviderOutcome, curseforge: ProviderOutcome) -> Option<(Seq<char>, bool)> {
    match (modrinth, curseforge) {
        (Some(Err(e)), Some(Err(_))) => Some((e.message@, e.retryable)),
        (Some(Err(e)), None) => Some((e.message@, e.retryable)),
        (None, Some(Err(e))) => Some((e.message@, e.retryable)),
        (None, None) => Some(("No discovery provider is available"@, false)),
        _ => None,
    }
}

/// Why the page of this search fails, if it does.
pub fn search_failure(modrinth: &ProviderOutcome, curseforge: &ProviderOutcome) -> (r: Option<DiscoveryPageError>)
    ensures
        match r {
            Some(e) => outcome_failure(*modrinth, *curseforge) == Some((e.message@, e.retryable)),
            None => outcome_failure(*modrinth, *curseforge) is None,
        },
{
    match (modrinth, curseforge) {
        (Some(Err(e)), Some(Err(_))) => Some(DiscoveryPageError { message: e.message.clone(), retryable: e.retryable }),
        (Some(Err(e)), None) => Some(DiscoveryPageError { message: e.message.clone(), retryable: e.retryable }),
        (None, Some(Err(e))) => Some(DiscoveryPageError { message: e.message.clone(), retryable: e.retryable }),
        (None, None) => Some(DiscoveryPageError {
            message: String::from_str("No discovery provider is available"),
            retryable: false,
        }),
        _ => None,
    }
}

/// The provider pages to merge: Modrinth's, then CurseForge's, those that came back.
pub open spec fn outcome_pages(modrinth: ProviderOutcome, curseforge: ProviderOutcome)
    -> Seq<(Seq<char>, Seq<DiscoveryView>, usize)>
{
    (match modrinth {
        Some(Ok(r)) => seq![("modrinth"@, r.projects@.map_values(|d: DiscoveryProject| d@), r.total_hits)],
        _ => seq![],
    }) + (match curseforge {
        Some(Ok(r)) => seq![("curseforge"@, r.projects@.map_values(|d: DiscoveryProject| d@), r.total_hits)],
        _ => seq![],
    })
}

/// The pages that came back, named by their provider, to be merged.
pub fn search_pages(modrinth: ProviderOutcome, curseforge: ProviderOutcome) -> (r: Vec<(String, DiscoveryResults)>)
    ensures
        r@.map_values(|p: (String, DiscoveryResults)| page_view(p)) == outcome_pages(modrinth, curseforge),
{
    let ghost m0 = modrinth;
    let ghost c0 = curseforge;
    let mut pages: Vec<(String, DiscoveryResults)> = Vec::new();
    match modrinth {
        Some(Ok(results)) => pages.push((String::from_str("modrinth"), results)),
        _ => {},
    }
    let ghost head = pages@;
    match curseforge {
        Some(Ok(results)) => pages.push((String::from_str("curseforge"), results)),
        _ => {},
    }
    assert(pages@.map_values(|p: (String, DiscoveryResults)| page_view(p)) =~= outcome_pages(m0, c0));
    pages
}

/// The installed path of the row `stem`: that of the first of its sources the
/// manifest has.
pub open spec fn first_source_path(
    sources: Seq<(String, ProviderProject)>,
    stem: Seq<char>,
    files: Seq<ContentFileRecord>,
    dir: Seq<char>,
    k: int,
) -> Option<Seq<char>>
    decreases sources.len() - k,
{
    if k < 0 || k >= sources.len() {
        None
    } else if sources[k].0@ == stem && resolved_path(files, sources[k].1.provider@, sources[k].1.project_id@, dir) is Some {
        resolved_path(files, sources[k].1.provider@, sources[k].1.project_id@, dir)
    } else {
        first_source_path(sources, stem, files, dir, k + 1)
    }
}

/// The installed path of the row `stem` under `dir`, by its sources.
fn source_path(sources: &Vec<(String, ProviderProject)>, stem: &str, manifest: &ContentManifest, dir: &str)
    -> (r: Option<String>)
    ensures
        opt_view(r) == first_source_path(sources@, stem@, manifest.files@, dir@, 0),
{
    let mut k: usize = 0;
    while k < sources.len()
        invariant
            k <= sources@.len(),
            first_source_path(sources@, stem@, manifest.files@, dir@, 0)
                == first_source_path(sources@, stem@, manifest.files@, dir@, k as int),
        decreases sources@.len() - k,
    {
        if str_eq(sources[k].0.as_str(), stem) {
            let found = resolved_path_of(
                manifest,
                sources[k].1.provider.as_str(),
                sources[k].1.project_id.as_str(),
                dir,
            );
            if found.is_some() {
                return found;
            }
        }
        k = k + 1;
    }
    None
}

/// The icon a search row starts with: an icon cached on disk when the row's
/// icon is not loaded yet, else what the provider sent.
pub open spec fn row_icon(project: MergedDiscoveryProject, loaded: bool, cached_icon: Option<Seq<u8>>) -> Option<Seq<u8>> {
    match cached_icon {
        Some(b) if !loaded && b.len() > 0 => Some(b),
        _ => opt_bytes_view(project.project.icon_bytes),
    }
}

/// Turns a merged project into its row, given whether the row's icon is already
/// loaded in the list, the icon cached on disk for it, the manifest of the
/// instance (none for modpacks) and the formatted download count. Returns the row
/// and the address of the icon still to fetch: the provider's icon address while
/// the row has no icon.
pub fn search_row(
    project: MergedDiscoveryProject,
    sources: &Vec<(String, ProviderProject)>,
    manifest: Option<&ContentManifest>,
    minecraft_dir: &str,
    loaded_icon_stems: &Vec<String>,
    cached_icon: Option<Vec<u8>>,
    downloads_label: &str,
) -> (r: (ContentEntry, Option<String>))
    ensures
        ({
            let loaded = has(loaded_icon_stems@, project.stem@);
            let icon = row_icon(project, loaded, opt_bytes_view(cached_icon));
            let installed = match manifest {
                Some(m) => first_source_path(sources@, project.stem@, m.files@, minecraft_dir@, 0),
                None => None,
            };
            &&& r.0.file_stem@ == project.stem@
            &&& r.0.path@ == project.stem@
            &&& r.0.name@ == project.project.title@
            &&& opt_view(r.0.source_slug) == Some(project.project.slug@)
            &&& opt_view(r.0.installed_path) == installed
            &&& opt_view(r.0.title_suffix) == (if installed is Some { Some("Installed"@) } else { None })
            &&& opt_view(r.0.footer_label) == Some(downloads_label@ + " downloads"@)
            &&& opt_project_view(r.0.provider_project) == Some(ProjectRef {
                provider: project.provider@,
                project_id: project.project.id@,
                version_id: Seq::empty(),
            })
            &&& r.0.description@ == project.project.description@
            &&& opt_bytes_view(r.0.icon_bytes) == icon
            &&& r.0.provider_icon == offers_icon(DiscoveryView { icon_bytes: icon, ..project.project@ })
            &&& opt_view(r.1) == (if !loaded && icon is None { opt_view(project.project.icon_url) } else { None })
        }),
{
    let MergedDiscoveryProject { stem, provider, project: mut p } = project;
    let loaded = has_exec(loaded_icon_stems, stem.as_str());
    if !loaded {
        match cached_icon {
            Some(bytes) => if bytes.len() > 0 {
                p.icon_bytes = Some(bytes);
            },
            None => {},
        }
    }
    let icon_url = if !loaded && p.icon_bytes.is_none() {
        crate::text::opt_clone(&p.icon_url)
    } else {
        None
    };
    let installed = match manifest {
        Some(m) => source_path(sources, stem.as_str(), m, minecraft_dir),
        None => None,
    };
    let entry = provider_project_entry(p, provider.as_str(), stem, installed, downloads_label);
    (entry, icon_url)
}

/// Each row as the update that puts it in the list in place of the row with its stem.
pub open spec fn upserts(rows: Seq<ContentEntry>) -> Seq<crate::stream::ContentStreamUpdate> {
    rows.map_values(|e: ContentEntry| crate::stream::ContentStreamUpdate::Upsert(e))
}

/// Hands the rows of a page to the list in order, each as an `Upsert`, stopping
/// after the first one the list no longer takes (its receiver is gone); with
/// `reconcile`, a `Retain` of the stems handed follows. Returns the stems of the
/// rows handed, the refused one included: every row when all were taken, else
/// the rows up to and including the refused one.
pub fn stream_search_rows(stream: &mut crate::stream::ContentStream, rows: Vec<ContentEntry>, reconcile: bool) -> (r: Vec<String>)
    ensures
        r@.len() <= rows@.len(),
        rows@.len() > 0 ==> r@.len() > 0,
        forall|i: int| 0 <= i < r@.len() ==> (#[trigger] r@[i])@ == rows@[i].file_stem@,
        final(stream).channel() == old(stream).channel(),
        !reconcile ==> final(stream).sent() == old(stream).sent() + upserts(rows@.take(r@.len() as int)),
        reconcile ==> final(stream).sent().len() == old(stream).sent().len() + r@.len() + 1
            && final(stream).sent().drop_last() == old(stream).sent() + upserts(rows@.take(r@.len() as int))
            && (final(stream).sent().last() matches crate::stream::ContentStreamUpdate::Retain(v)
                && v@.map_values(|s: String| s@) == r@.map_values(|s: String| s@)),
{
    let ghost all = rows@;
    let ghost start = stream.sent();
    let total = rows.len();
    let mut rest = rows;
    let mut handed: Vec<String> = Vec::new();
    while rest.len() > 0
        invariant
            handed@.len() + rest@.len() == all.len(),
            total == all.len(),
            rest@ == all.subrange(handed@.len() as int, all.len() as int),
            forall|i: int| 0 <= i < handed@.len() ==> (#[trigger] handed@[i])@ == all[i].file_stem@,
            handed@.len() > 0 || rest@.len() == all.len(),
            stream.channel() == old(stream).channel(),
            stream.sent() == start + upserts(all.take(handed@.len() as int)),
        ensures
            handed@.len() <= all.len(),
            handed@.len() > 0 || all.len() == 0,
            forall|i: int| 0 <= i < handed@.len() ==> (#[trigger] handed@[i])@ == all[i].file_stem@,
            stream.channel() == old(stream).channel(),
            stream.sent() == start + upserts(all.take(handed@.len() as int)),
        decreases rest@.len(),
    {
        let row = rest.remove(0);
        assert(row == all[handed@.len() as int]);
        let ghost n = handed@.len() as int;
        let stem = row.file_stem.clone();
        handed.push(stem);
        assert(rest@ =~= all.subrange(handed@.len() as int, all.len() as int));
        assert(upserts(all.take(n + 1)) =~= upserts(all.take(n)).push(crate::stream::ContentStreamUpdate::Upsert(row)));
        assert(start + upserts(all.take(n)).push(crate::stream::ContentStreamUpdate::Upsert(row))
            =~= (start + upserts(all.take(n))).push(crate::stream::ContentStreamUpdate::Upsert(row)));
        if !stream.upsert(row) {
            break;
        }
    }
    if reconcile {
        let mut stems: Vec<String> = Vec::new();
        let mut i: usize = 0;
        while i < handed.len()
            invariant
                i <= handed@.len(),
                stems@.len() == i,
                forall|k: int| 0 <= k < i ==> (#[trigger] stems@[k])@ == handed@[k]@,
            decreases handed@.len() - i,
        {
            stems.push(handed[i].clone());
            i = i + 1;
        }
        let ghost sv = stems@;
        assert(sv.map_values(|s: String| s@) =~= handed@.map_values(|s: String| s@));
        let ghost before = stream.sent();
        stream.retain(stems);
        assert(stream.sent().drop_last() =~= before);
    }
    handed
}

/// A page of a provider search: the result handed back to the discovery view and
/// the merged projects to turn into rows, in order.
#[derive(Debug)]
pub struct SearchPage {
    pub result: PendingDiscoveryResult,
    /// Empty when the page failed.
    pub projects: Vec<MergedDiscoveryProject>,
}

pub open spec fn projects_view(ps: Seq<MergedDiscoveryProject>) -> Seq<(Seq<char>, Seq<char>, DiscoveryView)> {
    ps.map_values(|m: MergedDiscoveryProject| (m.stem@, m.provider@, m.project@))
}

pub open spec fn sources_view(ss: Seq<(String, ProviderProject)>) -> Seq<(Seq<char>, ProjectRef)> {
    ss.map_values(|s: (String, ProviderProject)| (s.0@, s.1@))
}

/// Sources with the versions `files` records as installed, when there is a manifest.
pub open spec fn refreshed(sources: Seq<(Seq<char>, ProjectRef)>, files: Option<Seq<ContentFileRecord>>) -> Seq<(Seq<char>, ProjectRef)> {
    match files {
        Some(f) => sources.map_values(|s: (Seq<char>, ProjectRef)| (s.0, with_installed_version(s.1, f))),
        None => sources,
    }
}

/// The page of search `generation` at `offset`, given what the two providers
/// answered (none for a provider that is off): a failure when `search_failure`
/// finds one, with no sources and no rows; else the merge of the pages that came
/// back (the preferred provider first), its largest page length and total, and
/// its sources with the versions the instance's manifest records as installed.
pub fn search_page(
    generation: u64,
    offset: usize,
    modrinth: ProviderOutcome,
    curseforge: ProviderOutcome,
    preferred: &str,
    known_projects: Vec<(String, (String, String))>,
    manifest: Option<&ContentManifest>,
) -> (r: SearchPage)
    ensures
        r.result.generation == generation,
        r.result.offset == offset,
        match outcome_failure(modrinth, curseforge) {
            Some((message, retryable)) => {
                &&& r.result.result matches Err(e) && e.message@ == message && e.retryable == retryable
                &&& r.result.sources@.len() == 0
                &&& r.projects@.len() == 0
            },
            None => {
                let pages = outcome_pages(modrinth, curseforge);
                let m = merged(pages, preferred@, known_projects@);
                &&& r.result.result matches Ok(p) && p.received == max_received(preferred_first(pages, preferred@))
                    && p.total_hits == max_total(preferred_first(pages, preferred@))
                &&& projects_view(r.projects@) == m.projects
                &&& sources_view(r.result.sources@) == refreshed(m.sources, match manifest {
                    Some(mm) => Some(mm.files@),
                    None => None,
                })
            },
        },
{
    match search_failure(&modrinth, &curseforge) {
        Some(e) => SearchPage {
            result: PendingDiscoveryResult { generation, offset, result: Err(e), sources: Vec::new() },
            projects: Vec::new(),
        },
        None => {
            let pages = search_pages(modrinth, curseforge);
            let m = merge_provider_results(pages, preferred, known_projects);
            let received = m.received;
            let total_hits = m.total_hits;
            let mut sources = m.sources;
            let ghost before = sources@;
            refresh_source_installed_versions(&mut sources, manifest);
            proof {
                match manifest {
                    Some(mm) => {
                        assert(sources_view(sources@) =~= refreshed(sources_view(before), Some(mm.files@)));
                    },
                    None => {},
                }
            }
            SearchPage {
                result: PendingDiscoveryResult {
                    generation,
                    offset,
                    result: Ok(DiscoveryPageResult { received, total_hits }),
                    sources,
                },
                projects: m.projects,
            }
        },
    }
}

} // verus!
