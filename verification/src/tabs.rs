use vstd::prelude::*;
use crate::discovery::ContentMode;

verus! {

/// The tabs of the content panel.
#[derive(Clone, Copy, Debug, PartialEq, Eq, Structural)]
pub enum ContentTab {
    Mods,
    ResourcePacks,
    Shaders,
    DataPacks,
    Screenshots,
    Worlds,
    Logs,
}

/// The tabs shown while browsing installed content, in display order.
pub open spec fn installed_tabs() -> Seq<ContentTab> {
    seq![
        ContentTab::Mods,
        ContentTab::ResourcePacks,
        ContentTab::Shaders,
        ContentTab::Screenshots,
        ContentTab::Worlds,
        ContentTab::Logs,
    ]
}

/// The tabs shown while browsing a provider catalogue, in display order.
pub open spec fn discovery_tabs() -> Seq<ContentTab> {
    seq![ContentTab::Mods, ContentTab::ResourcePacks, ContentTab::Shaders, ContentTab::DataPacks]
}

pub open spec fn spec_visible_tabs(mode: ContentMode) -> Seq<ContentTab> {
    match mode {
        ContentMode::Installed => installed_tabs(),
        ContentMode::Discover => discovery_tabs(),
    }
}

/// `p` is the first position of `t` in `tabs`.
pub open spec fn is_first_position(tabs: Seq<ContentTab>, t: ContentTab, p: int) -> bool {
    &&& 0 <= p < tabs.len()
    &&& tabs[p] == t
    &&& forall|j: int| 0 <= j < p ==> tabs[j] != t
}

/// The first position of `t` in `tabs`, or 0 when `t` is not there.
pub open spec fn position_or_zero(tabs: Seq<ContentTab>, t: ContentTab) -> int {
    if exists|p: int| is_first_position(tabs, t, p) {
        choose|p: int| is_first_position(tabs, t, p)
    } else {
        0
    }
}

/// The tab after (`forward`) or before `current` in the cyclic order `tabs`.
pub open spec fn spec_cycle_tab(current: ContentTab, tabs: Seq<ContentTab>, forward: bool) -> ContentTab
    recommends
        tabs.len() > 0,
{
    let index = position_or_zero(tabs, current);
    if forward {
        tabs[(index + 1) % (tabs.len() as int)]
    } else if index == 0 {
        tabs[tabs.len() - 1]
    } else {
        tabs[index - 1]
    }
}

pub open spec fn tab_label_text(tab: ContentTab) -> Seq<char> {
    match tab {
        ContentTab::Mods => "Mods"@,
        ContentTab::ResourcePacks => "Resource Packs"@,
        ContentTab::Shaders => "Shaders"@,
        ContentTab::DataPacks => "Datapacks"@,
        ContentTab::Screenshots => "Screenshots"@,
        ContentTab::Worlds => "Worlds"@,
        ContentTab::Logs => "Logs"@,
    }
}

proof fn lemma_first_position_unique(tabs: Seq<ContentTab>, t: ContentTab, p: int, q: int)
    requires
        is_first_position(tabs, t, p),
        is_first_position(tabs, t, q),
    ensures
        p == q,
{
    if p < q {
        assert(tabs[p] != t);
    } else if q < p {
        assert(tabs[q] != t);
    }
}

proof fn lemma_position_is(tabs: Seq<ContentTab>, t: ContentTab, p: int)
    requires
        is_first_position(tabs, t, p),
    ensures
        position_or_zero(tabs, t) == p,
{
    let q = choose|q: int| is_first_position(tabs, t, q);
    lemma_first_position_unique(tabs, t, p, q);
}

proof fn lemma_position_absent(tabs: Seq<ContentTab>, t: ContentTab)
    requires
        forall|j: int| 0 <= j < tabs.len() ==> tabs[j] != t,
    ensures
        position_or_zero(tabs, t) == 0,
{
}

/// Finds the first position of `current` in `tabs`, or 0.
fn tab_position(current: ContentTab, tabs: &Vec<ContentTab>) -> (r: usize)
    ensures
        r == position_or_zero(tabs@, current),
        tabs@.len() > 0 ==> r < tabs@.len(),
{
    let mut i: usize = 0;
    while i < tabs.len()
        invariant
            i <= tabs@.len(),
            forall|j: int| 0 <= j < i ==> tabs@[j] != current,
        decreases tabs@.len() - i,
    {
        if tabs[i] == current {
            proof {
                lemma_position_is(tabs@, current, i as int);
            }
            return i;
        }
        i = i + 1;
    }
    proof {
        lemma_position_absent(tabs@, current);
    }
    0
}

/// The tabs visible in `mode`, in display order.
pub fn visible_tabs(mode: ContentMode) -> (r: Vec<ContentTab>)
    ensures
        r@ == spec_visible_tabs(mode),
{
    match mode {
        ContentMode::Installed => vec![
            ContentTab::Mods,
            ContentTab::ResourcePacks,
            ContentTab::Shaders,
            ContentTab::Screenshots,
            ContentTab::Worlds,
            ContentTab::Logs,
        ],
        ContentMode::Discover => vec![
            ContentTab::Mods,
            ContentTab::ResourcePacks,
            ContentTab::Shaders,
            ContentTab::DataPacks,
        ],
    }
}

/// The tab after (or before) `current` in `tabs`, wrapping around; a tab not in
/// `tabs` counts as the first one.
pub fn cycle_tab(current: ContentTab, tabs: &Vec<ContentTab>, forward: bool) -> (r: ContentTab)
    requires
        tabs@.len() > 0,
    ensures
        r == spec_cycle_tab(current, tabs@, forward),
{
    let index = tab_position(current, tabs);
    let len = tabs.len();
    assert(index < len);
    if forward {
        tabs[(index + 1) % len]
    } else if index == 0 {
        tabs[tabs.len() - 1]
    } else {
        tabs[index - 1]
    }
}

impl ContentTab {
    /// The tab the content panel starts on.
    pub fn initial() -> (r: ContentTab)
        ensures
            r == ContentTab::Mods,
    {
        ContentTab::Mods
    }

    pub fn label(self) -> (r: &'static str)
        ensures
            r@ == tab_label_text(self),
    {
        match self {
            ContentTab::Mods => "Mods",
            ContentTab::ResourcePacks => "Resource Packs",
            ContentTab::Shaders => "Shaders",
            ContentTab::DataPacks => "Datapacks",
            ContentTab::Screenshots => "Screenshots",
            ContentTab::Worlds => "Worlds",
            ContentTab::Logs => "Logs",
        }
    }

    /// Position of the tab among the installed-content tabs (0 for a tab that is not one).
    pub fn index(self) -> (r: usize)
        ensures
            r == position_or_zero(installed_tabs(), self),
            r < 6,
    {
        let all = visible_tabs(ContentMode::Installed);
        tab_position(self, &all)
    }

    /// The next installed-content tab, wrapping around.
    pub fn next(self) -> (r: ContentTab)
        ensures
            r == spec_cycle_tab(self, installed_tabs(), true),
    {
        let all = visible_tabs(ContentMode::Installed);
        cycle_tab(self, &all, true)
    }

    /// The previous installed-content tab, wrapping around.
    pub fn previous(self) -> (r: ContentTab)
        ensures
            r == spec_cycle_tab(self, installed_tabs(), false),
    {
        let all = visible_tabs(ContentMode::Installed);
        cycle_tab(self, &all, false)
    }

    /// The next tab among those visible in `mode`.
    pub fn next_for_mode(self, mode: ContentMode) -> (r: ContentTab)
        ensures
            r == spec_cycle_tab(self, spec_visible_tabs(mode), true),
            spec_visible_tabs(mode).contains(r),
    {
        let tabs = visible_tabs(mode);
        let r = cycle_tab(self, &tabs, true);
        proof {
            lemma_cycle_stays_visible(self, mode, true);
        }
        r
    }

    /// The previous tab among those visible in `mode`.
    pub fn previous_for_mode(self, mode: ContentMode) -> (r: ContentTab)
        ensures
            r == spec_cycle_tab(self, spec_visible_tabs(mode), false),
            spec_visible_tabs(mode).contains(r),
    {
        let tabs = visible_tabs(mode);
        let r = cycle_tab(self, &tabs, false);
        proof {
            lemma_cycle_stays_visible(self, mode, false);
        }
        r
    }
}

proof fn lemma_visible_positions(mode: ContentMode, t: ContentTab)
    ensures
        spec_visible_tabs(mode).contains(t) ==> is_first_position(
            spec_visible_tabs(mode),
            t,
            position_or_zero(spec_visible_tabs(mode), t),
        ),
        0 <= position_or_zero(spec_visible_tabs(mode), t) < spec_visible_tabs(mode).len(),
{
    let tabs = spec_visible_tabs(mode);
    let mut found = false;
    let mut p: int = 0;
    if tabs.contains(t) {
        let w = choose|w: int| 0 <= w < tabs.len() && tabs[w] == t;
        // every tab occurs at most once in a visible tab list
        assert(forall|i: int, j: int| 0 <= i < j < tabs.len() ==> tabs[i] != tabs[j]);
        assert(is_first_position(tabs, t, w));
        lemma_position_is(tabs, t, w);
    } else {
        assert forall|j: int| 0 <= j < tabs.len() implies tabs[j] != t by {
            if tabs[j] == t {
                assert(tabs.contains(t));
            }
        }
        lemma_position_absent(tabs, t);
    }
}

/// Cycling tabs in a mode never leaves the tabs visible in that mode.
pub proof fn lemma_cycle_stays_visible(current: ContentTab, mode: ContentMode, forward: bool)
    ensures
        spec_visible_tabs(mode).contains(spec_cycle_tab(current, spec_visible_tabs(mode), forward)),
{
    let tabs = spec_visible_tabs(mode);
    lemma_visible_positions(mode, current);
    let i = position_or_zero(tabs, current);
    let r = spec_cycle_tab(current, tabs, forward);
    if forward {
        let k = (i + 1) % (tabs.len() as int);
        assert(0 <= k < tabs.len());
        assert(tabs[k] == r);
    } else if i == 0 {
        assert(tabs[tabs.len() - 1] == r);
    } else {
        assert(tabs[i - 1] == r);
    }
}

/// Within one mode, moving to the next visible tab and then to the previous one
/// (or the other way round) returns to the tab one started from.
pub proof fn lemma_cycle_round_trip(current: ContentTab, mode: ContentMode)
    requires
        spec_visible_tabs(mode).contains(current),
    ensures
        spec_cycle_tab(spec_cycle_tab(current, spec_visible_tabs(mode), true), spec_visible_tabs(mode), false)
            == current,
        spec_cycle_tab(spec_cycle_tab(current, spec_visible_tabs(mode), false), spec_visible_tabs(mode), true)
            == current,
{
    let tabs = spec_visible_tabs(mode);
    let n = tabs.len() as int;
    lemma_visible_positions(mode, current);
    let i = position_or_zero(tabs, current);
    assert(forall|a: int, b: int| 0 <= a < b < n ==> tabs[a] != tabs[b]);
    let nx = spec_cycle_tab(current, tabs, true);
    let k = (i + 1) % n;
    assert(0 <= k < n);
    assert(tabs[k] == nx);
    assert(is_first_position(tabs, nx, k));
    lemma_position_is(tabs, nx, k);
    if i + 1 < n {
        vstd::arithmetic::div_mod::lemma_small_mod((i + 1) as nat, n as nat);
        assert(k == i + 1);
    } else {
        vstd::arithmetic::div_mod::lemma_mod_self_0(n);
        assert(k == 0);
    }
    let pv = spec_cycle_tab(current, tabs, false);
    let m = if i == 0 { n - 1 } else { i - 1 };
    assert(tabs[m] == pv);
    assert(is_first_position(tabs, pv, m));
    lemma_position_is(tabs, pv, m);
    if m + 1 < n {
        vstd::arithmetic::div_mod::lemma_small_mod((m + 1) as nat, n as nat);
        assert((m + 1) % n == m + 1);
    } else {
        vstd::arithmetic::div_mod::lemma_mod_self_0(n);
        assert((m + 1) % n == 0);
    }
}

/// `next` and `previous` undo each other on every installed-content tab.
pub proof fn lemma_next_previous_inverse(tab: ContentTab)
    requires
        installed_tabs().contains(tab),
    ensures
        spec_cycle_tab(spec_cycle_tab(tab, installed_tabs(), true), installed_tabs(), false) == tab,
        spec_cycle_tab(spec_cycle_tab(tab, installed_tabs(), false), installed_tabs(), true) == tab,
{
    lemma_cycle_round_trip(tab, ContentMode::Installed);
}

/// The label of the mode badge in the panel title.
pub fn mode_label(mode: ContentMode) -> (r: String)
    ensures
        r@ == seq![' '] + crate::discovery::mode_label_text(mode) + seq![' '],
{
    let mut s = String::from_str(" ");
    s.append(mode.label());
    s.append(" ");
    proof {
        reveal_strlit(" ");
    }
    s
}

/// Where the files of a tab that holds downloadable content live, and the texts
/// its list shows while loading and when empty.
#[derive(Clone, Copy, Debug)]
pub struct DownloadableTab {
    pub directory: &'static str,
    pub extension: &'static str,
    pub loading_text: &'static str,
    pub empty_text: &'static str,
}

/// The directory, extension, loading text and empty text of a downloadable tab.
pub open spec fn downloadable_spec(tab: ContentTab) -> Option<(Seq<char>, Seq<char>, Seq<char>, Seq<char>)> {
    match tab {
        ContentTab::Mods => Some(("mods"@, ".jar"@, "Loading mods..."@, "No mods installed."@)),
        ContentTab::ResourcePacks => Some(
            ("resourcepacks"@, ".zip"@, "Loading resource packs..."@, "No resource packs installed."@),
        ),
        ContentTab::Shaders => Some(("shaderpacks"@, ".zip"@, "Loading shaders..."@, "No shaders installed."@)),
        _ => None,
    }
}

impl ContentTab {
    /// The files behind a tab whose content can be downloaded (mods, resource
    /// packs, shaders); other tabs have none.
    pub fn downloadable(self) -> (r: Option<DownloadableTab>)
        ensures
            match r {
                None => downloadable_spec(self) is None,
                Some(d) => downloadable_spec(self) == Some(
                    (d.directory@, d.extension@, d.loading_text@, d.empty_text@),
                ),
            },
    {
        match self {
            ContentTab::Mods => Some(DownloadableTab {
                directory: "mods",
                extension: ".jar",
                loading_text: "Loading mods...",
                empty_text: "No mods installed.",
            }),
            ContentTab::ResourcePacks => Some(DownloadableTab {
                directory: "resourcepacks",
                extension: ".zip",
                loading_text: "Loading resource packs...",
                empty_text: "No resource packs installed.",
            }),
            ContentTab::Shaders => Some(DownloadableTab {
                directory: "shaderpacks",
                extension: ".zip",
                loading_text: "Loading shaders...",
                empty_text: "No shaders installed.",
            }),
            _ => None,
        }
    }
}

} // verus!
