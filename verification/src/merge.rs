//! Merging the search pages of several providers into one ranked list, where a
//! project offered by two providers becomes one row.

use vstd::prelude::*;
use crate::model::{DiscoveryProject, DiscoveryResults, DiscoveryView, ProjectRef, ProviderProject};
use crate::stems::StemSet;
use crate::text::{char_alphanumeric, char_lowercase, concat3, owned, is_alphanumeric, lowercase_of_char, push_char, str_eq};

verus! {

/// A title or slug reduced to its lowercased letters and digits.
pub open spec fn normalize(s: Seq<char>) -> Seq<char>
    decreases s.len(),
{
    if s.len() == 0 {
        Seq::empty()
    } else if char_alphanumeric(s.last()) {
        normalize(s.drop_last()) + char_lowercase(s.last())
    } else {
        normalize(s.drop_last())
    }
}

/// The identity under which copies of one project at different providers meet.
pub open spec fn identity_spec(title: Seq<char>, slug: Seq<char>) -> Seq<char> {
    normalize(title) + seq![':'] + normalize(slug)
}

fn normalized(s: &str) -> (r: String)
    ensures
        r@ == normalize(s@),
{
    let mut out = String::new();
    let n = s.unicode_len();
    let mut i: usize = 0;
    while i < n
        invariant
            n == s@.len(),
            i <= n,
            out@ == normalize(s@.take(i as int)),
        decreases n - i,
    {
        let c = s.get_char(i);
        assert(s@.take(i + 1).drop_last() =~= s@.take(i as int));
        assert(s@.take(i + 1).last() == c);
        if is_alphanumeric(c) {
            let lower = lowercase_of_char(c);
            let ghost before = out@;
            let mut j: usize = 0;
            while j < lower.len()
                invariant
                    j <= lower@.len(),
                    out@ == before + lower@.take(j as int),
                decreases lower@.len() - j,
            {
                push_char(&mut out, lower[j]);
                assert(lower@.take(j + 1) =~= lower@.take(j as int).push(lower@[j as int]));
                j = j + 1;
            }
            assert(lower@.take(lower@.len() as int) =~= lower@);
        }
        i = i + 1;
    }
    assert(s@.take(n as int) =~= s@);
    out
}

/// The identity of a project from its title and slug: both normalized, joined by `:`.
pub fn project_identity_parts(title: &str, slug: &str) -> (r: String)
    ensures
        r@ == identity_spec(title@, slug@),
{
    let t = normalized(title);
    let s = normalized(slug);
    proof { reveal_strlit(":"); }
    concat3(t.as_str(), ":", s.as_str())
}

/// The identity of a discovered project.
pub fn project_identity(project: &DiscoveryProject) -> (r: String)
    ensures
        r@ == identity_spec(project.title@, project.slug@),
{
    project_identity_parts(project.title.as_str(), project.slug.as_str())
}

/// A project of the merged list, under the row stem it is shown with.
#[derive(Debug)]
pub struct MergedDiscoveryProject {
    pub stem: String,
    pub provider: String,
    pub project: DiscoveryProject,
}

/// The merged search pages of all providers.
#[derive(Debug)]
pub struct MergedDiscoveryResults {
    pub projects: Vec<MergedDiscoveryProject>,
    /// Every project of every page, with the stem of the row it belongs to.
    pub sources: Vec<(String, ProviderProject)>,
    /// The length of the longest page.
    pub received: usize,
    /// The largest total any provider reported.
    pub total_hits: usize,
}

/// An identity, the stem of its row and the provider of that row.
pub type KnownRow = (Seq<char>, Seq<char>, Seq<char>);

/// The state threaded through the merge.
pub ghost struct MergeState {
    pub primary: Seq<KnownRow>,
    pub used: Set<Seq<char>>,
    pub projects: Seq<(Seq<char>, Seq<char>, DiscoveryView)>,
    pub sources: Seq<(Seq<char>, ProjectRef)>,
}

pub open spec fn first_key(l: Seq<KnownRow>, k: Seq<char>, i: int) -> bool {
    0 <= i < l.len() && l[i].0 == k && forall|j: int| 0 <= j < i ==> l[j].0 != k
}

/// The position of the first row with identity `k`.
pub open spec fn key_pos(l: Seq<KnownRow>, k: Seq<char>) -> Option<int> {
    if exists|i: int| first_key(l, k, i) {
        Some(choose|i: int| first_key(l, k, i))
    } else {
        None
    }
}

/// The stem and provider recorded for identity `k`.
pub open spec fn key_get(l: Seq<KnownRow>, k: Seq<char>) -> Option<(Seq<char>, Seq<char>)> {
    match key_pos(l, k) {
        Some(i) => Some((l[i].1, l[i].2)),
        None => None,
    }
}

/// Records stem and provider for identity `k`, replacing an earlier record.
pub open spec fn key_set(l: Seq<KnownRow>, k: Seq<char>, stem: Seq<char>, provider: Seq<char>) -> Seq<KnownRow> {
    match key_pos(l, k) {
        Some(i) => l.update(i, (k, stem, provider)),
        None => l.push((k, stem, provider)),
    }
}

proof fn lemma_key_pos(l: Seq<KnownRow>, k: Seq<char>, i: int)
    requires
        first_key(l, k, i),
    ensures
        key_pos(l, k) == Some(i),
{
    let c = choose|c: int| first_key(l, k, c);
    if c < i {
        assert(l[c].0 != k);
    } else if i < c {
        assert(l[i].0 != k);
    }
}

/// The stem a fresh row for a project gets: its identity, or when that is taken,
/// the identity followed by provider and project id.
pub open spec fn fresh_stem(used: Set<Seq<char>>, identity: Seq<char>, provider: Seq<char>, id: Seq<char>) -> Seq<char> {
    if used.contains(identity) {
        identity + seq![':'] + provider + seq![':'] + id
    } else {
        identity
    }
}

/// One project of one provider's page taken into the merge.
pub open spec fn merge_step(s: MergeState, provider: Seq<char>, p: DiscoveryView, preferred: Seq<char>) -> MergeState {
    let identity = identity_spec(p.title, p.slug);
    let source = |stem: Seq<char>| (stem, ProjectRef { provider, project_id: p.id, version_id: Seq::empty() });
    match key_get(s.primary, identity) {
        Some(e) if e.1 != provider => {
            if provider == preferred && e.1 != preferred {
                MergeState {
                    primary: key_set(s.primary, identity, e.0, provider),
                    used: s.used,
                    projects: s.projects.push((e.0, provider, p)),
                    sources: s.sources.push(source(e.0)),
                }
            } else {
                MergeState { sources: s.sources.push(source(e.0)), ..s }
            }
        },
        _ => {
            let stem = fresh_stem(s.used, identity, provider, p.id);
            MergeState {
                primary: if key_get(s.primary, identity) is None { s.primary.push((identity, stem, provider)) } else { s.primary },
                used: s.used.insert(identity).insert(stem),
                projects: s.projects.push((stem, provider, p)),
                sources: s.sources.push(source(stem)),
            }
        },
    }
}

/// All projects taken into the merge in turn.
pub open spec fn merge_fold(s: MergeState, items: Seq<(Seq<char>, DiscoveryView)>, preferred: Seq<char>) -> MergeState
    decreases items.len(),
{
    if items.len() == 0 {
        s
    } else {
        merge_step(merge_fold(s, items.drop_last(), preferred), items.last().0, items.last().1, preferred)
    }
}

/// A provider's page by its characters: provider, projects and reported total.
pub open spec fn page_view(p: (String, DiscoveryResults)) -> (Seq<char>, Seq<DiscoveryView>, usize) {
    (p.0@, p.1.projects@.map_values(|d: DiscoveryProject| d@), p.1.total_hits)
}

/// The projects of the pages one after the other, each with its provider.
pub open spec fn flatten(pages: Seq<(Seq<char>, Seq<DiscoveryView>, usize)>) -> Seq<(Seq<char>, DiscoveryView)>
    decreases pages.len(),
{
    if pages.len() == 0 {
        Seq::empty()
    } else {
        let last = pages.last();
        flatten(pages.drop_last()) + last.1.map_values(|d: DiscoveryView| (last.0, d))
    }
}

/// Whether a page comes from `provider`.
pub open spec fn from_provider(provider: Seq<char>) -> spec_fn((Seq<char>, Seq<DiscoveryView>, usize)) -> bool {
    |p: (Seq<char>, Seq<DiscoveryView>, usize)| p.0 == provider
}

/// Whether a page comes from another provider than `provider`.
pub open spec fn not_from_provider(provider: Seq<char>) -> spec_fn((Seq<char>, Seq<DiscoveryView>, usize)) -> bool {
    |p: (Seq<char>, Seq<DiscoveryView>, usize)| p.0 != provider
}

/// The pages of the preferred provider first, each group in its given order.
pub open spec fn preferred_first(pages: Seq<(Seq<char>, Seq<DiscoveryView>, usize)>, preferred: Seq<char>)
    -> Seq<(Seq<char>, Seq<DiscoveryView>, usize)>
{
    pages.filter(from_provider(preferred)) + pages.filter(not_from_provider(preferred))
}

pub open spec fn max_received(pages: Seq<(Seq<char>, Seq<DiscoveryView>, usize)>) -> nat
    decreases pages.len(),
{
    if pages.len() == 0 {
        0
    } else {
        let rest = max_received(pages.drop_last());
        if pages.last().1.len() > rest { pages.last().1.len() } else { rest }
    }
}

pub open spec fn max_total(pages: Seq<(Seq<char>, Seq<DiscoveryView>, usize)>) -> nat
    decreases pages.len(),
{
    if pages.len() == 0 {
        0
    } else {
        let rest = max_total(pages.drop_last());
        if pages.last().2 > rest { pages.last().2 as nat } else { rest }
    }
}

proof fn lemma_max_total_bounds(pages: Seq<(Seq<char>, Seq<DiscoveryView>, usize)>)
    ensures
        forall|i: int| 0 <= i < pages.len() ==> (#[trigger] pages[i]).2 <= max_total(pages),
        pages.len() > 0 ==> exists|i: int| 0 <= i < pages.len() && (#[trigger] pages[i]).2 == max_total(pages),
        pages.len() == 0 ==> max_total(pages) == 0,
        forall|i: int| 0 <= i < pages.len() ==> (#[trigger] pages[i]).1.len() <= max_received(pages),
        pages.len() > 0 ==> exists|i: int| 0 <= i < pages.len() && (#[trigger] pages[i]).1.len() == max_received(pages),
        pages.len() == 0 ==> max_received(pages) == 0,
    decreases pages.len(),
{
    if pages.len() > 0 {
        let rest = pages.drop_last();
        lemma_max_total_bounds(rest);
        assert forall|i: int| 0 <= i < pages.len() implies (#[trigger] pages[i]).2 <= max_total(pages) by {
            if i < rest.len() {
                assert(pages[i] == rest[i]);
            }
        }
        assert forall|i: int| 0 <= i < pages.len() implies (#[trigger] pages[i]).1.len() <= max_received(pages) by {
            if i < rest.len() {
                assert(pages[i] == rest[i]);
            }
        }
        let last = pages.len() - 1;
        if pages.last().2 > max_total(rest) {
            assert(pages[last].2 == max_total(pages));
        } else if rest.len() > 0 {
            let i = choose|i: int| 0 <= i < rest.len() && (#[trigger] rest[i]).2 == max_total(rest);
            assert(pages[i] == rest[i]);
        } else {
            assert(pages[last].2 == max_total(pages));
        }
        if pages.last().1.len() > max_received(rest) {
            assert(pages[last].1.len() == max_received(pages));
        } else if rest.len() > 0 {
            let i = choose|i: int| 0 <= i < rest.len() && (#[trigger] rest[i]).1.len() == max_received(rest);
            assert(pages[i] == rest[i]);
        } else {
            assert(pages[last].1.len() == max_received(pages));
        }
    }
}

proof fn lemma_preferred_first_same_pages(pages: Seq<(Seq<char>, Seq<DiscoveryView>, usize)>, preferred: Seq<char>)
    ensures
        forall|i: int| 0 <= i < pages.len() ==> preferred_first(pages, preferred).contains(#[trigger] pages[i]),
        forall|p: (Seq<char>, Seq<DiscoveryView>, usize)| preferred_first(pages, preferred).contains(p) ==> pages.contains(p),
{
    let is_pref = from_provider(preferred);
    let not_pref = not_from_provider(preferred);
    let a = pages.filter(is_pref);
    let b = pages.filter(not_pref);
    assert(preferred_first(pages, preferred) == a + b);
    assert forall|i: int| 0 <= i < pages.len() implies preferred_first(pages, preferred).contains(#[trigger] pages[i]) by {
        if is_pref(pages[i]) {
            pages.lemma_filter_contains(is_pref, i);
            let k = choose|k: int| 0 <= k < a.len() && a[k] == pages[i];
            assert((a + b)[k] == pages[i]);
        } else {
            pages.lemma_filter_contains(not_pref, i);
            let k = choose|k: int| 0 <= k < b.len() && b[k] == pages[i];
            assert((a + b)[a.len() + k] == pages[i]);
        }
    }
    assert forall|p: (Seq<char>, Seq<DiscoveryView>, usize)| preferred_first(pages, preferred).contains(p) implies pages.contains(p) by {
        let k = choose|k: int| 0 <= k < (a + b).len() && (a + b)[k] == p;
        if k < a.len() {
            assert(a[k] == p);
            assert(a.contains(p));
            pages.lemma_filter_contains_rev(is_pref, p);
        } else {
            assert(b[k - a.len()] == p);
            assert(b.contains(p));
            pages.lemma_filter_contains_rev(not_pref, p);
        }
    }
}

/// The merged total is the largest total any provider reported (zero without
/// pages), and the merged page length the largest page any provider returned:
/// no page reports more, and some page reports exactly that.
pub proof fn lemma_merged_total_is_the_largest(pages: Seq<(Seq<char>, Seq<DiscoveryView>, usize)>, preferred: Seq<char>)
    ensures
        ({
            let total = max_total(preferred_first(pages, preferred));
            let received = max_received(preferred_first(pages, preferred));
            &&& forall|i: int| 0 <= i < pages.len() ==> (#[trigger] pages[i]).2 <= total
            &&& pages.len() > 0 ==> exists|i: int| 0 <= i < pages.len() && (#[trigger] pages[i]).2 == total
            &&& pages.len() == 0 ==> total == 0
            &&& forall|i: int| 0 <= i < pages.len() ==> (#[trigger] pages[i]).1.len() <= received
            &&& pages.len() > 0 ==> exists|i: int| 0 <= i < pages.len() && (#[trigger] pages[i]).1.len() == received
            &&& pages.len() == 0 ==> received == 0
        }),
{
    let ordered = preferred_first(pages, preferred);
    lemma_max_total_bounds(ordered);
    lemma_preferred_first_same_pages(pages, preferred);
    assert forall|i: int| 0 <= i < pages.len() implies (#[trigger] pages[i]).2 <= max_total(ordered)
        && pages[i].1.len() <= max_received(ordered) by {
        assert(ordered.contains(pages[i]));
        let k = choose|k: int| 0 <= k < ordered.len() && ordered[k] == pages[i];
        assert(ordered[k].2 <= max_total(ordered));
        assert(ordered[k].1.len() <= max_received(ordered));
    }
    if pages.len() > 0 {
        assert(ordered.contains(pages[0]));
        let k = choose|k: int| 0 <= k < ordered.len() && (#[trigger] ordered[k]).2 == max_total(ordered);
        assert(pages.contains(ordered[k]));
        let j = choose|j: int| 0 <= j < pages.len() && pages[j] == ordered[k];
        assert(pages[j].2 == max_total(ordered));
        let k2 = choose|k2: int| 0 <= k2 < ordered.len() && (#[trigger] ordered[k2]).1.len() == max_received(ordered);
        assert(pages.contains(ordered[k2]));
        let j2 = choose|j2: int| 0 <= j2 < pages.len() && pages[j2] == ordered[k2];
        assert(pages[j2].1.len() == max_received(ordered));
    } else {
        assert(ordered.len() == 0) by {
            pages.lemma_filter_len(from_provider(preferred));
            pages.lemma_filter_len(not_from_provider(preferred));
        }
    }
}

/// The rows already known from earlier pages: identity, stem and provider.
pub open spec fn known_view(known: Seq<(String, (String, String))>) -> Seq<KnownRow> {
    known.map_values(|e: (String, (String, String))| (e.0@, e.1.0@, e.1.1@))
}

/// The stems of the known rows.
pub open spec fn known_stems(known: Seq<(String, (String, String))>) -> Set<Seq<char>> {
    Set::new(|s: Seq<char>| exists|i: int| 0 <= i < known.len() && known[i].1.0@ == s)
}

pub open spec fn initial_state(known: Seq<(String, (String, String))>) -> MergeState {
    MergeState { primary: known_view(known), used: known_stems(known), projects: Seq::empty(), sources: Seq::empty() }
}

/// The merge of the pages, in the order in which they are taken.
pub open spec fn merged(
    pages: Seq<(Seq<char>, Seq<DiscoveryView>, usize)>,
    preferred: Seq<char>,
    known: Seq<(String, (String, String))>,
) -> MergeState {
    merge_fold(initial_state(known), flatten(preferred_first(pages, preferred)), preferred)
}

impl MergedDiscoveryResults {
    pub open spec fn state_view(&self) -> (Seq<(Seq<char>, Seq<char>, DiscoveryView)>, Seq<(Seq<char>, ProjectRef)>) {
        (
            self.projects@.map_values(|m: MergedDiscoveryProject| (m.stem@, m.provider@, m.project@)),
            self.sources@.map_values(|s: (String, ProviderProject)| (s.0@, s.1@)),
        )
    }
}

pub(crate) fn find_key(primary: &Vec<(String, (String, String))>, key: &str) -> (r: Option<usize>)
    ensures
        match r {
            Some(i) => key_pos(known_view(primary@), key@) == Some(i as int),
            None => key_pos(known_view(primary@), key@) is None,
        },
{
    let ghost l = known_view(primary@);
    let mut i: usize = 0;
    while i < primary.len()
        invariant
            i <= primary@.len(),
            l == known_view(primary@),
            forall|j: int| 0 <= j < i ==> l[j].0 != key@,
        decreases primary@.len() - i,
    {
        if str_eq(primary[i].0.as_str(), key) {
            proof { lemma_key_pos(l, key@, i as int); }
            return Some(i);
        }
        i = i + 1;
    }
    None
}

/// Orders the pages so that the preferred provider's come first.
fn order_pages(pages: Vec<(String, DiscoveryResults)>, preferred: &str) -> (r: Vec<(String, DiscoveryResults)>)
    ensures
        r@.map_values(|p: (String, DiscoveryResults)| page_view(p))
            == preferred_first(pages@.map_values(|p: (String, DiscoveryResults)| page_view(p)), preferred@),
{
    let ghost views = pages@.map_values(|p: (String, DiscoveryResults)| page_view(p));
    let ghost is_pref = from_provider(preferred@);
    let ghost not_pref = not_from_provider(preferred@);
    let ghost orig = pages@;
    assert(views.len() == pages@.len());
    assert(orig.len() == pages.len());
    assert(orig.subrange(0, orig.len() as int) =~= orig);
    let mut rest = pages;
    let mut first: Vec<(String, DiscoveryResults)> = Vec::new();
    let mut others: Vec<(String, DiscoveryResults)> = Vec::new();
    let mut done: usize = 0;
    while rest.len() > 0
        invariant
            done + rest@.len() == views.len(),
            views.len() == orig.len(),
            orig.len() <= usize::MAX,
            views == orig.map_values(|p: (String, DiscoveryResults)| page_view(p)),
            rest@ == orig.subrange(done as int, orig.len() as int),
            first@.map_values(|p: (String, DiscoveryResults)| page_view(p)) == views.take(done as int).filter(is_pref),
            others@.map_values(|p: (String, DiscoveryResults)| page_view(p)) == views.take(done as int).filter(not_pref),
            is_pref == from_provider(preferred@),
            not_pref == not_from_provider(preferred@),
        decreases rest@.len(),
    {
        let ghost r0 = rest@;
        let item = rest.remove(0);
        assert(item == orig[done as int]);
        let ghost v = page_view(item);
        assert(v == views[done as int]);
        assert(views.take(done + 1).drop_last() =~= views.take(done as int));
        assert(views.take(done + 1).last() == v);
        reveal_with_fuel(Seq::filter, 1);
        let ghost f0 = first@;
        let ghost o0 = others@;
        if str_eq(item.0.as_str(), preferred) {
            first.push(item);
            assert(first@.map_values(|p: (String, DiscoveryResults)| page_view(p))
                =~= f0.map_values(|p: (String, DiscoveryResults)| page_view(p)).push(v));
        } else {
            others.push(item);
            assert(others@.map_values(|p: (String, DiscoveryResults)| page_view(p))
                =~= o0.map_values(|p: (String, DiscoveryResults)| page_view(p)).push(v));
        }
        done = done + 1;
        assert(rest@ =~= orig.subrange(done as int, orig.len() as int));
    }
    assert(views.take(views.len() as int) =~= views);
    let ghost fv = first@.map_values(|p: (String, DiscoveryResults)| page_view(p));
    let ghost ov = others@.map_values(|p: (String, DiscoveryResults)| page_view(p));
    let mut out = first;
    let mut others = others;
    out.append(&mut others);
    assert(out@.map_values(|p: (String, DiscoveryResults)| page_view(p)) =~= fv + ov);
    out
}

pub open spec fn state_of(
    primary: Seq<(String, (String, String))>,
    used: Set<Seq<char>>,
    projects: Seq<MergedDiscoveryProject>,
    sources: Seq<(String, ProviderProject)>,
) -> MergeState {
    MergeState {
        primary: known_view(primary),
        used,
        projects: projects.map_values(|m: MergedDiscoveryProject| (m.stem@, m.provider@, m.project@)),
        sources: sources.map_values(|s: (String, ProviderProject)| (s.0@, s.1@)),
    }
}

/// The projects of one page, each with its provider.
pub open spec fn page_items(provider: Seq<char>, projects: Seq<DiscoveryView>) -> Seq<(Seq<char>, DiscoveryView)> {
    projects.map_values(|d: DiscoveryView| (provider, d))
}

proof fn lemma_fold_append(s: MergeState, a: Seq<(Seq<char>, DiscoveryView)>, b: Seq<(Seq<char>, DiscoveryView)>, preferred: Seq<char>)
    ensures
        merge_fold(s, a + b, preferred) == merge_fold(merge_fold(s, a, preferred), b, preferred),
    decreases b.len(),
{
    if b.len() == 0 {
        assert(a + b =~= a);
    } else {
        lemma_fold_append(s, a, b.drop_last(), preferred);
        assert((a + b).drop_last() =~= a + b.drop_last());
        assert((a + b).last() == b.last());
    }
}

fn merge_one(
    primary: &mut Vec<(String, (String, String))>,
    used: &mut StemSet,
    projects: &mut Vec<MergedDiscoveryProject>,
    sources: &mut Vec<(String, ProviderProject)>,
    provider: &str,
    project: DiscoveryProject,
    preferred: &str,
)
    ensures
        state_of(final(primary)@, final(used)@, final(projects)@, final(sources)@)
            == merge_step(state_of(old(primary)@, old(used)@, old(projects)@, old(sources)@), provider@, project@, preferred@),
{
    let ghost s0 = state_of(primary@, used@, projects@, sources@);
    let ghost s1 = merge_step(s0, provider@, project@, preferred@);
    proof { reveal_strlit(":"); }
    let identity = project_identity(&project);
    let project_id = project.id.clone();
    let found = find_key(primary, identity.as_str());
    let mut dup: Option<String> = None;
    match found {
        Some(i) => {
            let e_stem = primary[i].1.0.clone();
            let e_provider = primary[i].1.1.clone();
            if !str_eq(e_provider.as_str(), provider) {
                if str_eq(provider, preferred) && !str_eq(e_provider.as_str(), preferred) {
                    let ghost pr0 = primary@;
                    primary.set(i, (identity.clone(), (e_stem.clone(), owned(provider))));
                    assert(known_view(primary@) =~= known_view(pr0).update(i as int, (identity@, e_stem@, provider@)));
                    projects.push(MergedDiscoveryProject { stem: e_stem.clone(), provider: owned(provider), project: project.clone() });
                }
                dup = Some(e_stem);
            }
        },
        None => {},
    }
    let stem: String = match dup {
        Some(e_stem) => e_stem,
        None => {
            let mut stem = identity.clone();
            if used.contains(stem.as_str()) {
                let head = concat3(identity.as_str(), ":", provider);
                stem = concat3(head.as_str(), ":", project_id.as_str());
            }
            used.insert(identity.clone());
            used.insert(stem.clone());
            if found.is_none() {
                let ghost pr0 = primary@;
                primary.push((identity.clone(), (stem.clone(), owned(provider))));
                assert(known_view(primary@) =~= known_view(pr0).push((identity@, stem@, provider@)));
            }
            projects.push(MergedDiscoveryProject { stem: stem.clone(), provider: owned(provider), project });
            stem
        },
    };
    sources.push((stem, ProviderProject { provider: owned(provider), project_id, version_id: String::new() }));
    proof {
        let s2 = state_of(primary@, used@, projects@, sources@);
        let idv = identity_spec(project@.title, project@.slug);
        assert(identity@ == idv);
        if found is None {
            assert(key_get(s0.primary, idv) is None);
        }
        assert(s2.sources.len() == s1.sources.len());
        assert(s2.sources.last().0 == s1.sources.last().0);
        assert(s2.sources.last().1 == s1.sources.last().1);
        assert(s2.projects =~= s1.projects);
        assert(s2.sources =~= s1.sources);
        assert(s2.used =~= s1.used);
        assert(s2.primary =~= s1.primary);
    }
}

fn merge_page(
    primary: &mut Vec<(String, (String, String))>,
    used: &mut StemSet,
    projects: &mut Vec<MergedDiscoveryProject>,
    sources: &mut Vec<(String, ProviderProject)>,
    provider: &str,
    page: Vec<DiscoveryProject>,
    preferred: &str,
)
    ensures
        state_of(final(primary)@, final(used)@, final(projects)@, final(sources)@)
            == merge_fold(state_of(old(primary)@, old(used)@, old(projects)@, old(sources)@),
                page_items(provider@, page@.map_values(|d: DiscoveryProject| d@)), preferred@),
{
    let ghost start = state_of(primary@, used@, projects@, sources@);
    let ghost views = page@.map_values(|d: DiscoveryProject| d@);
    let ghost items = page_items(provider@, views);
    let ghost orig = page@;
    assert(orig.len() == page.len());
    assert(orig.subrange(0, orig.len() as int) =~= orig);
    let mut queue = page;
    let mut j: usize = 0;
    assert(items.take(0) =~= Seq::<(Seq<char>, DiscoveryView)>::empty());
    while queue.len() > 0
        invariant
            j + queue@.len() == views.len(),
            views.len() == orig.len(),
            orig.len() <= usize::MAX,
            views == orig.map_values(|d: DiscoveryProject| d@),
            queue@ == orig.subrange(j as int, orig.len() as int),
            items == page_items(provider@, views),
            state_of(primary@, used@, projects@, sources@) == merge_fold(start, items.take(j as int), preferred@),
        decreases queue@.len(),
    {
        let project = queue.remove(0);
        assert(project == orig[j as int]);
        assert(project@ == views[j as int]);
        assert(items.take(j + 1).drop_last() =~= items.take(j as int));
        assert(items.take(j + 1).last() == (provider@, project@));
        merge_one(primary, used, projects, sources, provider, project, preferred);
        j = j + 1;
        assert(queue@ =~= orig.subrange(j as int, orig.len() as int));
    }
    assert(items.take(views.len() as int) =~= items);
}

/// Merges the pages of several providers. The preferred provider's pages are taken
/// first; a project whose identity is already known shares the row of the other
/// provider's copy, and the preferred provider's copy takes that row over.
pub fn merge_provider_results(
    pages: Vec<(String, DiscoveryResults)>,
    preferred: &str,
    known_projects: Vec<(String, (String, String))>,
) -> (r: MergedDiscoveryResults)
    ensures
        ({
            let m = merged(pages@.map_values(|p: (String, DiscoveryResults)| page_view(p)), preferred@, known_projects@);
            r.state_view() == (m.projects, m.sources)
        }),
        r.received == max_received(preferred_first(pages@.map_values(|p: (String, DiscoveryResults)| page_view(p)), preferred@)),
        r.total_hits == max_total(preferred_first(pages@.map_values(|p: (String, DiscoveryResults)| page_view(p)), preferred@)),
{
    let ordered = order_pages(pages, preferred);
    let ghost ov = ordered@.map_values(|p: (String, DiscoveryResults)| page_view(p));
    let mut primary = known_projects;
    let mut used = StemSet::new();
    let mut k: usize = 0;
    while k < primary.len()
        invariant
            k <= primary@.len(),
            primary@ == known_projects@,
            used@ == Set::new(|s: Seq<char>| exists|i: int| 0 <= i < k && known_projects@[i].1.0@ == s),
        decreases primary@.len() - k,
    {
        let ghost before = used@;
        used.insert(primary[k].1.0.clone());
        proof {
            let next = Set::new(|s: Seq<char>| exists|i: int| 0 <= i < k + 1 && known_projects@[i].1.0@ == s);
            assert forall|s: Seq<char>| used@.contains(s) <==> next.contains(s) by {
                if used@.contains(s) && s != known_projects@[k as int].1.0@ {
                    let i = choose|i: int| 0 <= i < k && known_projects@[i].1.0@ == s;
                    assert(0 <= i < k + 1 && known_projects@[i].1.0@ == s);
                }
                if next.contains(s) {
                    let i = choose|i: int| 0 <= i < k + 1 && known_projects@[i].1.0@ == s;
                    if i < k {
                        assert(before.contains(s));
                    }
                }
            }
            assert(used@ =~= next);
        }
        k = k + 1;
    }
    assert(used@ =~= known_stems(known_projects@));
    let mut projects: Vec<MergedDiscoveryProject> = Vec::new();
    let mut sources: Vec<(String, ProviderProject)> = Vec::new();
    let mut received: usize = 0;
    let mut total_hits: usize = 0;
    let mut rest = ordered;
    let mut done: usize = 0;
    let ghost init = initial_state(known_projects@);
    let ghost oraw = rest@;
    assert(oraw.len() == rest.len());
    assert(oraw.subrange(0, oraw.len() as int) =~= oraw);
    assert(state_of(primary@, used@, projects@, sources@).projects =~= init.projects);
    assert(state_of(primary@, used@, projects@, sources@).sources =~= init.sources);
    assert(ov.take(0) =~= Seq::<(Seq<char>, Seq<DiscoveryView>, usize)>::empty());
    while rest.len() > 0
        invariant
            done + rest@.len() == ov.len(),
            ov.len() == oraw.len(),
            oraw.len() <= usize::MAX,
            ov == oraw.map_values(|p: (String, DiscoveryResults)| page_view(p)),
            rest@ == oraw.subrange(done as int, oraw.len() as int),
            state_of(primary@, used@, projects@, sources@) == merge_fold(init, flatten(ov.take(done as int)), preferred@),
            received == max_received(ov.take(done as int)),
            total_hits == max_total(ov.take(done as int)),
        decreases rest@.len(),
    {
        let page = rest.remove(0);
        assert(page == oraw[done as int]);
        let ghost pv = page_view(page);
        assert(pv == ov[done as int]);
        assert(ov.take(done + 1).drop_last() =~= ov.take(done as int));
        assert(ov.take(done + 1).last() == pv);
        let (provider, results) = page;
        let DiscoveryResults { projects: page_projects, total_hits: page_total } = results;
        if page_projects.len() > received {
            received = page_projects.len();
        }
        if page_total > total_hits {
            total_hits = page_total;
        }
        let ghost before = flatten(ov.take(done as int));
        let ghost items = page_items(pv.0, pv.1);
        assert(flatten(ov.take(done + 1)) == before + items);
        merge_page(&mut primary, &mut used, &mut projects, &mut sources, provider.as_str(), page_projects, preferred);
        proof {
            lemma_fold_append(init, before, items, preferred@);
        }
        done = done + 1;
        assert(rest@ =~= oraw.subrange(done as int, oraw.len() as int));
    }
    assert(ov.take(ov.len() as int) =~= ov);
    let r = MergedDiscoveryResults { projects, sources, received, total_hits };
    assert(r.state_view().0 == state_of(primary@, used@, r.projects@, r.sources@).projects);
    r
}


proof fn lemma_fold_sources_len(s: MergeState, items: Seq<(Seq<char>, DiscoveryView)>, preferred: Seq<char>)
    ensures
        merge_fold(s, items, preferred).sources.len() == s.sources.len() + items.len(),
        merge_fold(s, items, preferred).projects.len() <= s.projects.len() + items.len(),
    decreases items.len(),
{
    if items.len() > 0 {
        lemma_fold_sources_len(s, items.drop_last(), preferred);
    }
}

/// Every project of every page is recorded as a source of exactly one row, and
/// there are never more rows than projects.
pub proof fn lemma_every_project_has_a_source(
    pages: Seq<(Seq<char>, Seq<DiscoveryView>, usize)>,
    preferred: Seq<char>,
    known: Seq<(String, (String, String))>,
)
    ensures
        merged(pages, preferred, known).sources.len() == flatten(preferred_first(pages, preferred)).len(),
        merged(pages, preferred, known).projects.len() <= flatten(preferred_first(pages, preferred)).len(),
{
    lemma_fold_sources_len(initial_state(known), flatten(preferred_first(pages, preferred)), preferred);
}

} // verus!
