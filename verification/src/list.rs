//! The scrollable content list (mods, resource packs, shaders, worlds, datapacks):
//! search filtering, selection, pagination, per-instance caching and the rows
//! streamed in by background scans.

use vstd::prelude::*;
use vstd::multiset::Multiset;
use std::sync::mpsc::Receiver;
use crate::keys::{KeyCode, KeyEvent};
use crate::model::{ContentEntry, opt_project_view, opt_bytes_view};
use crate::search::{SearchState, search_matches};
use crate::stems::StemSet;
use crate::stream::{ContentStream, ContentStreamUpdate, StreamPoll, new_channel, poll_update};
use crate::watcher::{WatcherDiff, opposite_toggle_path, opposite_toggle_spec};
use crate::text::{opt_view, str_eq, starts_with, concat, owned};

verus! {

/// The selected row of a list widget (an index into the visible rows).
#[derive(Clone, Copy, Debug, PartialEq, Eq, Structural)]
pub struct ListState {
    pub selected: Option<usize>,
}

/// Scrollbar extent and position.
#[derive(Clone, Copy, Debug, PartialEq, Eq, Structural)]
pub struct ScrollbarState {
    pub content_length: usize,
    pub position: usize,
}

/// A screen rectangle.
#[derive(Clone, Copy, Debug, PartialEq, Eq, Structural)]
pub struct Rect {
    pub x: u16,
    pub y: u16,
    pub width: u16,
    pub height: u16,
}

pub open spec fn rect_contains(area: Rect, x: u16, y: u16) -> bool {
    area.x <= x && (x as int) < area.x + area.width && area.y <= y && (y as int) < area.y + area.height
}

/// The pager drawn under a paginated list, as last rendered.
#[derive(Debug)]
pub struct PaginationState {
    pub page_size: usize,
    pub page_count: usize,
    /// Clickable page labels and the page each one opens.
    pub hits: Vec<(Rect, usize)>,
}

/// Where streamed rows go: sorted by name, or in the order they arrive.
#[derive(Clone, Copy, Debug, PartialEq, Eq, Structural)]
pub enum ContentStreamOrder {
    Sorted,
    Source,
}

/// A file the user asked to delete.
#[derive(Debug)]
pub struct PendingContentDelete {
    pub name: String,
    pub path: String,
}

/// Rows of a list saved while another instance is shown.
#[derive(Debug)]
pub struct CachedList {
    pub entries: Vec<ContentEntry>,
    pub selected: Option<usize>,
}

/// What a key press asks of the caller besides the list's own state change.
#[derive(Debug)]
pub enum ListAction {
    /// Open this directory in the file manager.
    OpenDirectory(String),
    /// Enable or disable the file of the row at this entry index.
    Toggle(usize),
}

/// Result of handling a key in a list.
#[derive(Debug)]
pub struct ListKeyOutcome {
    pub handled: bool,
    pub action: Option<ListAction>,
}

/// The state of one content list.
pub struct ContentListState {
    pub entries: Vec<ContentEntry>,
    pub list_state: ListState,
    pub scrollbar_state: ScrollbarState,
    pub loaded_for: Option<String>,
    pub loading: bool,
    pub search: SearchState,
    pub filter_search: bool,
    /// Rows whose decoded image is ready to draw.
    pub ready_images: StemSet,
    /// Rows whose image was handed to the decoder.
    pub requested_images: StemSet,
    /// Rows kept hidden until their image is decoded.
    pub pending_entry_images: StemSet,
    pub images_dirty: bool,
    pub cache: Vec<(String, CachedList)>,
    pub stream_rx: Option<Receiver<ContentStreamUpdate>>,
    pub stream_order: ContentStreamOrder,
    pub pagination: Option<PaginationState>,
    /// Rows whose file disappeared, with the time (ms) it was noticed.
    pub pending_removals: Vec<(String, u64)>,
    /// Where provider metadata is cached, once provider icons are enabled.
    pub provider_icon_dir: Option<String>,
    /// The (provider, project id) pairs whose metadata was asked for.
    pub requested_provider_icons: Vec<(String, String)>,
}

/// The key by which sorted lists order their rows: the lowercased name.
pub open spec fn sort_key(e: ContentEntry) -> Seq<char> {
    crate::text::str_lowercase(e.name@)
}

pub open spec fn sorted_by_name(entries: Seq<ContentEntry>) -> bool {
    forall|i: int, j: int| 0 <= i < j < entries.len() ==> crate::order::seq_le(sort_key(entries[i]), sort_key(entries[j]))
}

/// Index of the first row with the given stem.
pub open spec fn first_with_stem(entries: Seq<ContentEntry>, stem: Seq<char>, k: int) -> bool {
    &&& 0 <= k < entries.len()
    &&& entries[k].file_stem@ == stem
    &&& forall|j: int| 0 <= j < k ==> entries[j].file_stem@ != stem
}

pub open spec fn no_stem(entries: Seq<ContentEntry>, stem: Seq<char>) -> bool {
    forall|j: int| 0 <= j < entries.len() ==> entries[j].file_stem@ != stem
}

/// The position of the first row with `stem`, if any.
pub fn find_stem(entries: &Vec<ContentEntry>, stem: &str) -> (r: Option<usize>)
    ensures
        r matches Some(k) ==> first_with_stem(entries@, stem@, k as int),
        r is None ==> no_stem(entries@, stem@),
{
    let mut i: usize = 0;
    while i < entries.len()
        invariant
            i <= entries@.len(),
            forall|j: int| 0 <= j < i ==> entries@[j].file_stem@ != stem@,
        decreases entries@.len() - i,
    {
        if str_eq(entries[i].file_stem.as_str(), stem) {
            return Some(i);
        }
        i = i + 1;
    }
    None
}

/// The position of the first row with `stem` and `path`, if any.
pub fn find_stem_path(entries: &Vec<ContentEntry>, stem: &str, path: &str) -> (r: Option<usize>)
    ensures
        r matches Some(k) ==> (k < entries@.len() && entries@[k as int].file_stem@ == stem@ && entries@[k as int].path@ == path@
            && forall|j: int| 0 <= j < k ==> !(entries@[j].file_stem@ == stem@ && entries@[j].path@ == path@)),
        r is None ==> forall|j: int| 0 <= j < entries@.len() ==> !(entries@[j].file_stem@ == stem@ && entries@[j].path@ == path@),
{
    let mut i: usize = 0;
    while i < entries.len()
        invariant
            i <= entries@.len(),
            forall|j: int| 0 <= j < i ==> !(entries@[j].file_stem@ == stem@ && entries@[j].path@ == path@),
        decreases entries@.len() - i,
    {
        if str_eq(entries[i].file_stem.as_str(), stem) && str_eq(entries[i].path.as_str(), path) {
            return Some(i);
        }
        i = i + 1;
    }
    None
}

/// The first position in `rows` whose entry has `stem`.
fn position_with_stem(entries: &Vec<ContentEntry>, rows: &Vec<usize>, stem: &str) -> (r: Option<usize>)
    requires
        forall|j: int| 0 <= j < rows@.len() ==> rows@[j] < entries@.len(),
    ensures
        r matches Some(k) ==> k < rows@.len() && entries@[rows@[k as int] as int].file_stem@ == stem@
            && forall|j: int| 0 <= j < k ==> entries@[rows@[j] as int].file_stem@ != stem@,
        r is None ==> forall|j: int| 0 <= j < rows@.len() ==> entries@[rows@[j] as int].file_stem@ != stem@,
{
    let mut k: usize = 0;
    while k < rows.len()
        invariant
            k <= rows@.len(),
            forall|j: int| 0 <= j < rows@.len() ==> rows@[j] < entries@.len(),
            forall|j: int| 0 <= j < k ==> entries@[rows@[j] as int].file_stem@ != stem@,
        decreases rows@.len() - k,
    {
        if str_eq(entries[rows[k]].file_stem.as_str(), stem) {
            return Some(k);
        }
        k = k + 1;
    }
    None
}

/// Where `key` can be inserted so that a list sorted by name stays sorted.
fn insertion_point(entries: &Vec<ContentEntry>, key: &str) -> (r: usize)
    ensures
        r <= entries@.len(),
        sorted_by_name(entries@) ==> (forall|j: int| 0 <= j < r ==> crate::order::seq_le(sort_key(entries@[j]), key@)),
        sorted_by_name(entries@) ==> (forall|j: int| r <= j < entries@.len() ==> crate::order::seq_le(key@, sort_key(entries@[j]))),
{
    let mut lo: usize = 0;
    let mut hi: usize = entries.len();
    while lo < hi
        invariant
            lo <= hi <= entries@.len(),
            sorted_by_name(entries@) ==> (forall|j: int| 0 <= j < lo ==> crate::order::seq_le(sort_key(entries@[j]), key@)),
            sorted_by_name(entries@) ==> (forall|j: int| hi <= j < entries@.len() ==> crate::order::seq_le(key@, sort_key(entries@[j]))),
        decreases hi - lo,
    {
        let mid = lo + (hi - lo) / 2;
        let k = crate::text::to_lowercase(entries[mid].name.as_str());
        let c = crate::order::compare_str(k.as_str(), key);
        if c <= 0 {
            proof {
                if sorted_by_name(entries@) {
                    assert forall|j: int| 0 <= j < mid + 1 implies crate::order::seq_le(sort_key(entries@[j]), key@) by {
                        if j < mid {
                            crate::order::lemma_le_trans(sort_key(entries@[j]), sort_key(entries@[mid as int]), key@);
                        }
                    }
                }
            }
            lo = mid + 1;
        } else {
            proof {
                crate::order::lemma_le_total(key@, k@);
                if sorted_by_name(entries@) {
                    assert forall|j: int| mid <= j < entries@.len() implies crate::order::seq_le(key@, sort_key(entries@[j])) by {
                        if j > mid {
                            crate::order::lemma_le_trans(key@, sort_key(entries@[mid as int]), sort_key(entries@[j]));
                        }
                    }
                }
            }
            hi = mid;
        }
    }
    lo
}

impl ContentListState {
    pub open spec fn filters_search(&self) -> bool {
        self.filter_search
    }

    pub closed spec fn hidden_stems(&self) -> Set<Seq<char>> {
        self.pending_entry_images@
    }

    pub closed spec fn ready_image_stems(&self) -> Set<Seq<char>> {
        self.ready_images@
    }

    pub closed spec fn requested_image_stems(&self) -> Set<Seq<char>> {
        self.requested_images@
    }

    pub open spec fn images_need_loading(&self) -> bool {
        self.images_dirty
    }

    pub open spec fn streaming(&self) -> bool {
        self.stream_rx is Some
    }

    pub open spec fn stream_order_spec(&self) -> ContentStreamOrder {
        self.stream_order
    }

    pub closed spec fn cache_keys(&self) -> Seq<Seq<char>> {
        self.cache@.map_values(|c: (String, CachedList)| c.0@)
    }

    pub closed spec fn page_layout(&self) -> Option<(usize, usize)> {
        match self.pagination {
            Some(p) => Some((p.page_size, p.page_count)),
            None => None,
        }
    }

    pub closed spec fn page_hits(&self) -> Seq<(Rect, usize)> {
        match self.pagination {
            Some(p) => p.hits@,
            None => Seq::empty(),
        }
    }

    /// The (provider, project id) pairs whose metadata was asked for.
    pub closed spec fn requested_icon_keys(&self) -> Set<(Seq<char>, Seq<char>)> {
        Set::new(|k: (Seq<char>, Seq<char>)| exists|j: int| 0 <= j < self.requested_provider_icons@.len()
            && key_view(#[trigger] self.requested_provider_icons@[j]) == k)
    }

    pub closed spec fn removal_stems(&self) -> Seq<Seq<char>> {
        self.pending_removals@.map_values(|p: (String, u64)| p.0@)
    }

    /// Whether row `i` is shown: its image is not pending and, while the search
    /// filters, its name or description matches.
    pub open spec fn row_visible(&self, i: int) -> bool {
        let e = self.entries@[i];
        &&& !self.hidden_stems().contains(e.file_stem@)
        &&& (!self.filters_search() || search_matches(self.search.query@, e.name@)
            || search_matches(self.search.query@, e.description@))
    }

    /// The indices of the shown rows among the first `n` entries, in order.
    pub open spec fn visible_upto(&self, n: int) -> Seq<usize>
        decreases n,
    {
        if n <= 0 {
            Seq::empty()
        } else if self.row_visible(n - 1) {
            self.visible_upto(n - 1).push((n - 1) as usize)
        } else {
            self.visible_upto(n - 1)
        }
    }

    /// The indices of the shown rows, in order.
    pub open spec fn filtered(&self) -> Seq<usize> {
        self.visible_upto(self.entries@.len() as int)
    }

    /// The entry index of the selected row, if the selection is on a shown row.
    pub open spec fn selected_row(&self) -> Option<int> {
        match self.list_state.selected {
            Some(k) => if k < self.filtered().len() { Some(self.filtered()[k as int] as int) } else { None },
            None => None,
        }
    }

    /// The scrollbar for the current entries and selection.
    pub open spec fn scrollbar_for(&self) -> ScrollbarState {
        ScrollbarState {
            content_length: if self.entries@.len() == 0 { 0 } else { (self.entries@.len() - 1) as usize },
            position: match self.list_state.selected { Some(k) => k, None => 0 },
        }
    }

    pub proof fn lemma_visible_upto(&self, n: int)
        requires
            0 <= n <= self.entries@.len(),
        ensures
            self.visible_upto(n).len() <= n,
            forall|k: int| 0 <= k < self.visible_upto(n).len() ==> (#[trigger] self.visible_upto(n)[k]) < n
                && self.row_visible(self.visible_upto(n)[k] as int),
            forall|a: int, b: int| 0 <= a < b < self.visible_upto(n).len() ==> self.visible_upto(n)[a] < self.visible_upto(n)[b],
        decreases n,
    {
        if n > 0 {
            assert(self.entries@.len() == self.entries.len());
            self.lemma_visible_upto(n - 1);
            let p = self.visible_upto(n - 1);
            let q = self.visible_upto(n);
            if self.row_visible(n - 1) {
                assert(q == p.push((n - 1) as usize));
                assert forall|k: int| 0 <= k < q.len() implies (#[trigger] q[k]) < n && self.row_visible(q[k] as int) by {
                    if k < p.len() {
                        assert(q[k] == p[k]);
                    }
                }
                assert forall|a: int, b: int| 0 <= a < b < q.len() implies q[a] < q[b] by {
                    if b < p.len() {
                        assert(q[a] == p[a] && q[b] == p[b]);
                    } else {
                        assert(q[a] == p[a]);
                    }
                }
            } else {
                assert(q == p);
            }
        }
    }

    proof fn lemma_visible_upto_complete(&self, n: int, i: int)
        requires
            0 <= i < n <= self.entries@.len(),
            self.row_visible(i),
        ensures
            self.visible_upto(n).contains(i as usize),
        decreases n,
    {
        let p = self.visible_upto(n - 1);
        let q = self.visible_upto(n);
        if i == n - 1 {
            assert(q == p.push((n - 1) as usize));
            assert(q[q.len() - 1] == i as usize);
        } else {
            self.lemma_visible_upto_complete(n - 1, i);
            let k = choose|k: int| 0 <= k < p.len() && p[k] == i as usize;
            if self.row_visible(n - 1) {
                assert(q == p.push((n - 1) as usize));
                assert(q[k] == i as usize);
            } else {
                assert(q == p);
            }
        }
    }

    /// Row `i` is shown exactly when its image is not pending and, while the
    /// search filters, the query is empty or its name or its description holds the
    /// query, ignoring case.
    pub proof fn lemma_shown_rows_match_name_or_description(&self, i: int)
        requires
            0 <= i < self.entries@.len(),
        ensures
            ({
                let e = self.entries@[i];
                let q = self.search.query@;
                self.filtered().contains(i as usize) <==> (
                    !self.hidden_stems().contains(e.file_stem@)
                    && (!self.filters_search() || q.len() == 0
                        || crate::text::contains_seq(crate::text::str_lowercase(e.name@), crate::text::str_lowercase(q))
                        || crate::text::contains_seq(crate::text::str_lowercase(e.description@), crate::text::str_lowercase(q))))
            }),
    {
        let n = self.entries@.len() as int;
        assert(self.entries@.len() == self.entries.len());
        assert((i as usize) as int == i);
        self.lemma_visible_upto(n);
        if self.row_visible(i) {
            self.lemma_visible_upto_complete(n, i);
        }
        if self.filtered().contains(i as usize) {
            let k = choose|k: int| 0 <= k < self.filtered().len() && self.filtered()[k] == i as usize;
            assert(self.row_visible(self.visible_upto(n)[k] as int));
            assert(self.row_visible(i));
        }
    }

    /// Two list states that agree on rows, search, filtering and hidden rows show the same rows.
    pub proof fn lemma_filtered_same(&self, other: &ContentListState, n: int)
        requires
            self.entries@ == other.entries@,
            self.search.query@ == other.search.query@,
            self.filters_search() == other.filters_search(),
            self.hidden_stems() == other.hidden_stems(),
        ensures
            self.visible_upto(n) == other.visible_upto(n),
        decreases n,
    {
        if n > 0 {
            self.lemma_filtered_same(other, n - 1);
        }
    }

    /// An empty list that filters by its search.
    pub fn new() -> (r: ContentListState)
        ensures
            r.entries@.len() == 0,
            r.list_state.selected is None,
            r.loaded_for is None,
            !r.loading,
            r.filters_search(),
            r.search.query@.len() == 0,
            !r.search.active,
            r.hidden_stems() == Set::<Seq<char>>::empty(),
            !r.streaming(),
            r.cache_keys().len() == 0,
            r.page_layout() is None,
            r.scrollbar_state == (ScrollbarState { content_length: 0, position: 0 }),
            r.ready_image_stems() == Set::<Seq<char>>::empty(),
            r.requested_image_stems() == Set::<Seq<char>>::empty(),
            r.images_need_loading(),
            r.stream_order_spec() == ContentStreamOrder::Sorted,
            r.removal_stems().len() == 0,
            r.provider_icon_dir_spec() is None,
            r.requested_icon_keys() == Set::<(Seq<char>, Seq<char>)>::empty(),
    {
        let r = ContentListState {
            entries: Vec::new(),
            list_state: ListState { selected: None },
            scrollbar_state: ScrollbarState { content_length: 0, position: 0 },
            loaded_for: None,
            loading: false,
            search: SearchState::new(),
            filter_search: true,
            ready_images: StemSet::new(),
            requested_images: StemSet::new(),
            pending_entry_images: StemSet::new(),
            images_dirty: true,
            cache: Vec::new(),
            stream_rx: None,
            stream_order: ContentStreamOrder::Sorted,
            pagination: None,
            pending_removals: Vec::new(),
            provider_icon_dir: None,
            requested_provider_icons: Vec::new(),
        };
        assert(r.cache_keys() =~= Seq::<Seq<char>>::empty());
        assert(r.removal_stems() =~= Seq::<Seq<char>>::empty());
        assert(r.requested_icon_keys() =~= Set::<(Seq<char>, Seq<char>)>::empty());
        r
    }

    /// Replaces the rows and selects the first one.
    pub fn set_entries(&mut self, entries: Vec<ContentEntry>)
        ensures
            final(self).entries@ == entries@,
            final(self).list_state.selected == (if entries@.len() > 0 { Some(0usize) } else { None }),
            final(self).hidden_stems() == Set::<Seq<char>>::empty(),
            final(self).ready_image_stems() == Set::<Seq<char>>::empty(),
            final(self).images_need_loading(),
            final(self).scrollbar_state == final(self).scrollbar_for(),
            final(self).search == old(self).search,
            final(self).filters_search() == old(self).filters_search(),
    {
        self.entries = entries;
        self.list_state = ListState { selected: if self.entries.len() > 0 { Some(0) } else { None } };
        self.ready_images.clear();
        self.requested_images.clear();
        self.pending_entry_images.clear();
        self.pending_removals = Vec::new();
        self.images_dirty = true;
        self.update_scrollbar();
    }

    /// Recomputes the scrollbar from the entries and the selection.
    pub fn update_scrollbar(&mut self)
        ensures
            final(self).scrollbar_state == final(self).scrollbar_for(),
            final(self).entries == old(self).entries,
            final(self).list_state == old(self).list_state,
            final(self).search == old(self).search,
            final(self).filters_search() == old(self).filters_search(),
            final(self).hidden_stems() == old(self).hidden_stems(),
            final(self).ready_image_stems() == old(self).ready_image_stems(),
            final(self).requested_image_stems() == old(self).requested_image_stems(),
            final(self).images_need_loading() == old(self).images_need_loading(),
            final(self).loading == old(self).loading,
            final(self).loaded_for == old(self).loaded_for,
            final(self).streaming() == old(self).streaming(),
            final(self).cache_keys() == old(self).cache_keys(),
            final(self).cache == old(self).cache,
            final(self).page_layout() == old(self).page_layout(),
            final(self).page_hits() == old(self).page_hits(),
            final(self).stream_order_spec() == old(self).stream_order_spec(),
            final(self).removal_stems() == old(self).removal_stems(),
    {
        let count = self.entries.len();
        let max = if count == 0 { 0 } else { count - 1 };
        let pos = match self.list_state.selected {
            Some(k) => k,
            None => 0,
        };
        self.scrollbar_state = ScrollbarState { content_length: max, position: pos };
    }

    /// The entry indices of the shown rows, in order.
    pub fn filtered_indices(&self) -> (r: Vec<usize>)
        ensures
            r@ == self.filtered(),
    {
        let mut r: Vec<usize> = Vec::new();
        let mut i: usize = 0;
        while i < self.entries.len()
            invariant
                i <= self.entries@.len(),
                r@ == self.visible_upto(i as int),
            decreases self.entries@.len() - i,
        {
            let e = &self.entries[i];
            let shown = !self.pending_entry_images.contains(e.file_stem.as_str())
                && (!self.filter_search || self.search.matches(e.name.as_str())
                    || self.search.matches(e.description.as_str()));
            if shown {
                r.push(i);
            }
            i = i + 1;
        }
        r
    }

    /// The entry index of the selected row.
    pub fn selected_index(&self) -> (r: Option<usize>)
        ensures
            match r {
                Some(i) => self.selected_row() == Some(i as int) && i < self.entries@.len(),
                None => self.selected_row() is None,
            },
    {
        let filtered = self.filtered_indices();
        proof {
            self.lemma_visible_upto(self.entries@.len() as int);
        }
        match self.list_state.selected {
            Some(k) => {
                if k < filtered.len() {
                    Some(filtered[k])
                } else {
                    None
                }
            },
            None => None,
        }
    }

    /// The selected row.
    pub fn selected_entry(&self) -> (r: Option<&ContentEntry>)
        ensures
            match r {
                Some(e) => self.selected_row() matches Some(i) && *e == self.entries@[i],
                None => self.selected_row() is None,
            },
    {
        match self.selected_index() {
            Some(i) => Some(&self.entries[i]),
            None => None,
        }
    }

    /// The stem of the selected row.
    pub fn selected_file_stem(&self) -> (r: Option<String>)
        ensures
            match r {
                Some(s) => self.selected_row() matches Some(i) && s@ == self.entries@[i].file_stem@,
                None => self.selected_row() is None,
            },
    {
        match self.selected_index() {
            Some(i) => Some(self.entries[i].file_stem.clone()),
            None => None,
        }
    }

    /// Whether the selected row comes from a provider project.
    pub fn selected_has_provider_project(&self) -> (r: bool)
        ensures
            r == (self.selected_row() matches Some(i) && self.entries@[i].provider_project is Some),
    {
        match self.selected_entry() {
            Some(e) => e.provider_project.is_some(),
            None => false,
        }
    }

    /// Selects the shown row with `file_stem`, else the first shown row, else nothing.
    pub fn restore_selected_file_stem(&mut self, file_stem: Option<&str>)
        ensures
            final(self).entries == old(self).entries,
            final(self).search == old(self).search,
            final(self).filters_search() == old(self).filters_search(),
            final(self).hidden_stems() == old(self).hidden_stems(),
            final(self).scrollbar_state == final(self).scrollbar_for(),
            final(self).loading == old(self).loading,
            final(self).loaded_for == old(self).loaded_for,
            final(self).images_need_loading() == old(self).images_need_loading(),
            final(self).ready_image_stems() == old(self).ready_image_stems(),
            final(self).requested_image_stems() == old(self).requested_image_stems(),
            final(self).streaming() == old(self).streaming(),
            final(self).stream_order_spec() == old(self).stream_order_spec(),
            match final(self).list_state.selected {
                Some(k) => k < old(self).filtered().len() && (
                    (file_stem matches Some(s) && old(self).entries@[old(self).filtered()[k as int] as int].file_stem@ == s@
                        && forall|j: int| 0 <= j < k ==> old(self).entries@[old(self).filtered()[j] as int].file_stem@ != s@)
                    || (k == 0 && (file_stem matches Some(s) ==> forall|j: int| 0 <= j < old(self).filtered().len()
                        ==> old(self).entries@[old(self).filtered()[j] as int].file_stem@ != s@))),
                None => old(self).filtered().len() == 0,
            },
    {
        let filtered = self.filtered_indices();
        proof {
            self.lemma_visible_upto(self.entries@.len() as int);
        }
        let found: Option<usize> = match file_stem {
            Some(stem) => position_with_stem(&self.entries, &filtered, stem),
            None => None,
        };
        self.list_state.selected = match found {
            Some(k) => Some(k),
            None => if filtered.len() > 0 { Some(0) } else { None },
        };
        self.update_scrollbar();
    }

    /// Turns filtering by the search on or off, keeping the selected row selected when it stays shown.
    pub fn set_search_filtering(&mut self, enabled: bool)
        ensures
            final(self).filters_search() == enabled,
            final(self).entries == old(self).entries,
            final(self).search == old(self).search,
            final(self).hidden_stems() == old(self).hidden_stems(),
            final(self).loading == old(self).loading,
            final(self).loaded_for == old(self).loaded_for,
            final(self).images_need_loading() == old(self).images_need_loading(),
            final(self).ready_image_stems() == old(self).ready_image_stems(),
            final(self).requested_image_stems() == old(self).requested_image_stems(),
            final(self).streaming() == old(self).streaming(),
            final(self).stream_order_spec() == old(self).stream_order_spec(),
            final(self).scrollbar_state == final(self).scrollbar_for(),
            final(self).list_state.selected is Some <==> final(self).filtered().len() > 0,
    {
        let stem = self.selected_file_stem();
        self.filter_search = enabled;
        let ghost mid = *self;
        match stem {
            Some(s) => self.restore_selected_file_stem(Some(s.as_str())),
            None => self.restore_selected_file_stem(None),
        }
        proof {
            self.lemma_filtered_same(&mid, self.entries@.len() as int);
        }
    }

    /// Sets the query the rows are filtered by.
    pub fn set_query(&mut self, query: String)
        ensures
            final(self).search.query@ == query@,
            final(self).search.active == old(self).search.active,
            final(self).entries == old(self).entries,
            final(self).list_state == old(self).list_state,
            final(self).filters_search() == old(self).filters_search(),
            final(self).hidden_stems() == old(self).hidden_stems(),
            final(self).loading == old(self).loading,
            final(self).loaded_for == old(self).loaded_for,
            final(self).images_need_loading() == old(self).images_need_loading(),
            final(self).ready_image_stems() == old(self).ready_image_stems(),
            final(self).requested_image_stems() == old(self).requested_image_stems(),
            final(self).streaming() == old(self).streaming(),
            final(self).stream_order_spec() == old(self).stream_order_spec(),
            final(self).cache_keys() == old(self).cache_keys(),
    {
        self.search.query = query;
    }

    /// The row the user asked to delete: the selected row's name and path.
    pub fn pending_delete(&self) -> (r: Option<PendingContentDelete>)
        ensures
            match r {
                Some(p) => self.selected_row() matches Some(i) && p.name@ == self.entries@[i].name@
                    && p.path@ == self.entries@[i].path@,
                None => self.selected_row() is None,
            },
    {
        match self.selected_entry() {
            Some(e) => Some(PendingContentDelete { name: e.name.clone(), path: e.path.clone() }),
            None => None,
        }
    }
}

/// Whether a cache key belongs to `instance`: the instance itself or one of its worlds.
pub open spec fn belongs_to(key: Seq<char>, instance: Seq<char>) -> bool {
    key == instance || crate::text::is_prefix(instance.push(':'), key)
}

fn key_belongs_to(key: &str, instance: &str) -> (r: bool)
    ensures
        r == belongs_to(key@, instance@),
{
    if str_eq(key, instance) {
        return true;
    }
    let mut prefix = owned(instance);
    crate::text::push_char(&mut prefix, ':');
    starts_with(key, prefix.as_str())
}

/// The keys other than `key`, in order.
pub open spec fn without_key(keys: Seq<Seq<char>>, key: Seq<char>) -> Seq<Seq<char>> {
    keys.filter(|k: Seq<char>| k != key)
}

/// The rows and selection of a cached list.
pub open spec fn cached_view(c: CachedList) -> (Seq<ContentEntry>, Option<usize>) {
    (c.entries@, c.selected)
}

/// The first cache slot saved under `key`, if any.
pub open spec fn first_cached(cache: Seq<(String, CachedList)>, key: Seq<char>) -> Option<(Seq<ContentEntry>, Option<usize>)>
    decreases cache.len(),
{
    if cache.len() == 0 {
        None
    } else {
        match first_cached(cache.drop_last(), key) {
            Some(v) => Some(v),
            None => if cache.last().0@ == key { Some(cached_view(cache.last().1)) } else { None },
        }
    }
}

/// Filtering one key out of a key list keeps exactly the other keys.
pub proof fn lemma_filter_ne_contains(keys: Seq<Seq<char>>, a: Seq<char>, b: Seq<char>)
    ensures
        without_key(keys, a).contains(b) == (keys.contains(b) && b != a),
    decreases keys.len(),
{
    reveal_with_fuel(Seq::filter, 1);
    let f = without_key(keys, a);
    if keys.len() > 0 {
        let d = keys.drop_last();
        lemma_filter_ne_contains(d, a, b);
        let fd = without_key(d, a);
        assert(keys =~= d.push(keys.last()));
        if keys.contains(b) && !d.contains(b) {
            let w = choose|w: int| 0 <= w < keys.len() && keys[w] == b;
            if w < d.len() {
                assert(d[w] == b);
            }
        }
        if d.contains(b) {
            let w = choose|w: int| 0 <= w < d.len() && d[w] == b;
            assert(keys[w] == b);
        }
        if keys.last() != a {
            assert(f == fd.push(keys.last()));
            if fd.contains(b) {
                let w = choose|w: int| 0 <= w < fd.len() && fd[w] == b;
                assert(f[w] == b);
            }
            if f.contains(b) && !fd.contains(b) {
                let w = choose|w: int| 0 <= w < f.len() && f[w] == b;
                if w < fd.len() {
                    assert(fd[w] == b);
                }
            }
            if keys.last() == b {
                assert(f[fd.len() as int] == b);
            }
        } else {
            assert(f == fd);
        }
    }
}

impl ContentListState {
    /// Drops what is cached for an instance (and its worlds) that no longer exists.
    pub fn forget_instance(&mut self, instance_name: &str)
        ensures
            final(self).cache_keys() == old(self).cache_keys().filter(|k: Seq<char>| !belongs_to(k, instance_name@)),
            opt_view(final(self).loaded_for) == (match old(self).loaded_for {
                Some(s) => if belongs_to(s@, instance_name@) { None } else { Some(s@) },
                None => None,
            }),
            final(self).entries == old(self).entries,
            final(self).list_state == old(self).list_state,
    {
        let ghost keys = self.cache_keys();
        let ghost pred = |k: Seq<char>| !belongs_to(k, instance_name@);
        let mut rest: Vec<(String, CachedList)> = Vec::new();
        std::mem::swap(&mut rest, &mut self.cache);
        let ghost orig = rest@;
        assert(orig.len() == rest.len());
        assert(keys == orig.map_values(|c: (String, CachedList)| c.0@));
        let mut kept: Vec<(String, CachedList)> = Vec::new();
        let mut consumed: usize = 0;
        while rest.len() > 0
            invariant
                consumed <= orig.len(),
                consumed + rest@.len() == orig.len(),
                orig.len() <= usize::MAX,
                rest@ == orig.subrange(consumed as int, orig.len() as int),
                kept@.map_values(|c: (String, CachedList)| c.0@)
                    == keys.take(consumed as int).filter(pred),
                keys == orig.map_values(|c: (String, CachedList)| c.0@),
                pred == (|k: Seq<char>| !belongs_to(k, instance_name@)),
            decreases rest@.len(),
        {
            let item = rest.remove(0);
            let ghost key = item.0@;
            assert(keys[consumed as int] == key);
            assert(keys.take(consumed + 1).drop_last() =~= keys.take(consumed as int));
            assert(keys.take(consumed + 1).last() == key);
            reveal_with_fuel(Seq::filter, 1);
            let ghost before = kept@;
            if !key_belongs_to(item.0.as_str(), instance_name) {
                kept.push(item);
                assert(kept@.map_values(|c: (String, CachedList)| c.0@)
                    =~= before.map_values(|c: (String, CachedList)| c.0@).push(key));
            }
            consumed = consumed + 1;
            assert(rest@ =~= orig.subrange(consumed as int, orig.len() as int));
        }
        assert(keys.take(orig.len() as int) =~= keys);
        self.cache = kept;
        let clear = match &self.loaded_for {
            Some(s) => key_belongs_to(s.as_str(), instance_name),
            None => false,
        };
        if clear {
            self.loaded_for = None;
        }
    }
}

/// What an `Upsert` leaves in place of an existing row with the same stem: the
/// new row, keeping the old icon (and a provider description) when the new row
/// has none and both rows come from the same file and project.
pub open spec fn upsert_merge(existing: ContentEntry, e: ContentEntry) -> ContentEntry {
    let same_source = existing.path@ == e.path@ && existing.project() == e.project();
    let take_icon = e.icon_bytes is None && same_source;
    let take_description = crate::text::trim_spec(e.description@).len() == 0 && same_source
        && existing.provider_description;
    ContentEntry {
        icon_bytes: if take_icon { existing.icon_bytes } else { e.icon_bytes },
        icon_lines: if take_icon { existing.icon_lines } else { e.icon_lines },
        provider_icon: if take_icon { existing.provider_icon } else { e.provider_icon },
        description: if take_description { existing.description } else { e.description },
        provider_description: if take_description { true } else { e.provider_description },
        ..e
    }
}

/// Whether the icon of the replacing row differs from the one it replaces, so
/// that a decoded image of the old icon is stale.
pub open spec fn upsert_icon_changed(existing: ContentEntry, e: ContentEntry) -> bool {
    let same_source = existing.path@ == e.path@ && existing.project() == e.project();
    !(e.icon_bytes is None && same_source)
        && opt_bytes_view(e.icon_bytes) != opt_bytes_view(existing.icon_bytes)
}

pub open spec fn keeps_stem(stems: Set<Seq<char>>) -> spec_fn(ContentEntry) -> bool {
    |e: ContentEntry| stems.contains(e.file_stem@)
}

pub open spec fn path_is_not(path: Seq<char>) -> spec_fn(ContentEntry) -> bool {
    |e: ContentEntry| e.path@ != path
}

/// Moves out the entries for which `keep` holds, in order.
fn retain_entries_with_stems(entries: Vec<ContentEntry>, stems: &StemSet) -> (r: Vec<ContentEntry>)
    ensures
        r@ == entries@.filter(keeps_stem(stems@)),
{
    let ghost orig = entries@;
    let ghost pred = keeps_stem(stems@);
    let mut rest = entries;
    let mut kept: Vec<ContentEntry> = Vec::new();
    let mut consumed: usize = 0;
    assert(orig.len() == rest.len());
    while rest.len() > 0
        invariant
            consumed + rest@.len() == orig.len(),
            orig.len() <= usize::MAX,
            rest@ == orig.subrange(consumed as int, orig.len() as int),
            kept@ == orig.take(consumed as int).filter(pred),
            pred == keeps_stem(stems@),
        decreases rest@.len(),
    {
        let e = rest.remove(0);
        assert(orig.take(consumed + 1).drop_last() =~= orig.take(consumed as int));
        assert(orig.take(consumed + 1).last() == e);
        reveal_with_fuel(Seq::filter, 1);
        if stems.contains(e.file_stem.as_str()) {
            kept.push(e);
        }
        consumed = consumed + 1;
        assert(rest@ =~= orig.subrange(consumed as int, orig.len() as int));
    }
    assert(orig.take(orig.len() as int) =~= orig);
    kept
}

/// Moves out the entries whose path is not `path`, in order.
fn entries_without_path(entries: Vec<ContentEntry>, path: &str) -> (r: Vec<ContentEntry>)
    ensures
        r@ == entries@.filter(path_is_not(path@)),
{
    let ghost orig = entries@;
    let ghost pred = path_is_not(path@);
    let mut rest = entries;
    let mut kept: Vec<ContentEntry> = Vec::new();
    let mut consumed: usize = 0;
    assert(orig.len() == rest.len());
    while rest.len() > 0
        invariant
            consumed + rest@.len() == orig.len(),
            orig.len() <= usize::MAX,
            rest@ == orig.subrange(consumed as int, orig.len() as int),
            kept@ == orig.take(consumed as int).filter(pred),
            pred == path_is_not(path@),
        decreases rest@.len(),
    {
        let e = rest.remove(0);
        assert(orig.take(consumed + 1).drop_last() =~= orig.take(consumed as int));
        assert(orig.take(consumed + 1).last() == e);
        reveal_with_fuel(Seq::filter, 1);
        if !str_eq(e.path.as_str(), path) {
            kept.push(e);
        }
        consumed = consumed + 1;
        assert(rest@ =~= orig.subrange(consumed as int, orig.len() as int));
    }
    assert(orig.take(orig.len() as int) =~= orig);
    kept
}

impl ContentListState {
    /// Whether loading `name` finds rows in the cache: cached before, or the rows
    /// shown now are `name`'s and are not empty.
    /// The rows and selection that loading `name` brings back: the rows shown now
    /// when they are `name`'s, else the first ones cached under `name`.
    pub open spec fn cached_list(&self, name: Seq<char>) -> Option<(Seq<ContentEntry>, Option<usize>)> {
        if self.loaded_for matches Some(p) && p@ == name && self.entries@.len() > 0 {
            Some((self.entries@, self.list_state.selected))
        } else {
            first_cached(self.cache@, name)
        }
    }

    pub open spec fn restores_from_cache(&self, name: Seq<char>) -> bool {
        self.cache_keys().contains(name)
            || (self.loaded_for matches Some(p) && p@ == name && self.entries@.len() > 0)
    }

    /// Removes every cache slot under `key`, returning the first one.
    fn cache_remove(&mut self, key: &str) -> (r: Option<CachedList>)
        ensures
            r is Some <==> old(self).cache_keys().contains(key@),
            match r {
                Some(c) => first_cached(old(self).cache@, key@) == Some(cached_view(c)),
                None => first_cached(old(self).cache@, key@) is None,
            },
            first_cached(final(self).cache@, key@) is None,
            forall|name: Seq<char>| name != key@ ==> #[trigger] first_cached(final(self).cache@, name) == first_cached(old(self).cache@, name),
            final(self).cache_keys() == without_key(old(self).cache_keys(), key@),
            final(self).entries == old(self).entries,
            final(self).list_state == old(self).list_state,
            final(self).loaded_for == old(self).loaded_for,
            final(self).search == old(self).search,
            final(self).filters_search() == old(self).filters_search(),
            final(self).hidden_stems() == old(self).hidden_stems(),
            final(self).ready_image_stems() == old(self).ready_image_stems(),
            final(self).images_need_loading() == old(self).images_need_loading(),
            final(self).loading == old(self).loading,
            final(self).streaming() == old(self).streaming(),
    {
        let ghost keys = self.cache_keys();
        let ghost pred = |k: Seq<char>| k != key@;
        assert(without_key(keys, key@) == keys.filter(pred));
        let mut rest: Vec<(String, CachedList)> = Vec::new();
        std::mem::swap(&mut rest, &mut self.cache);
        let ghost orig = rest@;
        assert(orig.len() == rest.len());
        let mut kept: Vec<(String, CachedList)> = Vec::new();
        let mut found: Option<CachedList> = None;
        let mut consumed: usize = 0;
        while rest.len() > 0
            invariant
                consumed + rest@.len() == orig.len(),
                orig.len() <= usize::MAX,
                rest@ == orig.subrange(consumed as int, orig.len() as int),
                kept@.map_values(|c: (String, CachedList)| c.0@) == keys.take(consumed as int).filter(pred),
                keys == orig.map_values(|c: (String, CachedList)| c.0@),
                pred == (|k: Seq<char>| k != key@),
                found is Some <==> keys.take(consumed as int).contains(key@),
                match found {
                    Some(c) => first_cached(orig.take(consumed as int), key@) == Some(cached_view(c)),
                    None => first_cached(orig.take(consumed as int), key@) is None,
                },
                first_cached(kept@, key@) is None,
                forall|name: Seq<char>| name != key@ ==> #[trigger] first_cached(kept@, name) == first_cached(orig.take(consumed as int), name),
            decreases rest@.len(),
        {
            let ghost kept_before = kept@;
            let ghost found_before = found;
            let item = rest.remove(0);
            proof {
                assert(item == orig[consumed as int]);
                assert(orig.take(consumed + 1).drop_last() =~= orig.take(consumed as int));
                assert(orig.take(consumed + 1).last() == item);
            }
            let ghost k = item.0@;
            assert(keys[consumed as int] == k);
            assert(keys.take(consumed + 1).drop_last() =~= keys.take(consumed as int));
            assert(keys.take(consumed + 1) =~= keys.take(consumed as int).push(k));
            reveal_with_fuel(Seq::filter, 1);
            let ghost before = kept@;
            if str_eq(item.0.as_str(), key) {
                if found.is_none() {
                    found = Some(item.1);
                }
            } else {
                kept.push(item);
                assert(kept@.map_values(|c: (String, CachedList)| c.0@)
                    =~= before.map_values(|c: (String, CachedList)| c.0@).push(k));
            }
            proof {
                if kept@.len() > kept_before.len() {
                    assert(kept@.drop_last() =~= kept_before);
                }
                assert forall|name: Seq<char>| name != key@ implies #[trigger] first_cached(kept@, name)
                    == first_cached(orig.take(consumed + 1), name) by {
                    assert(orig.take(consumed + 1).drop_last() =~= orig.take(consumed as int));
                    assert(orig.take(consumed + 1).last() == item);
                    assert(first_cached(kept_before, name) == first_cached(orig.take(consumed as int), name));
                    if kept@.len() > kept_before.len() {
                        assert(kept@.drop_last() =~= kept_before);
                    } else {
                        assert(kept@ == kept_before);
                    }
                }
            }
            proof {
                let t = keys.take(consumed as int);
                if t.push(k).contains(key@) && !t.contains(key@) {
                    assert(k == key@);
                }
                if t.contains(key@) {
                    let w = choose|w: int| 0 <= w < t.len() && t[w] == key@;
                    assert(t.push(k)[w] == key@);
                }
                if k == key@ {
                    assert(t.push(k)[t.len() as int] == key@);
                }
            }
            proof {
                if kept@.len() > kept_before.len() {
                    assert(kept@.drop_last() =~= kept_before);
                }
                assert forall|name: Seq<char>| name != key@ implies #[trigger] first_cached(kept@, name)
                    == first_cached(orig.take(consumed + 1), name) by {
                    assert(orig.take(consumed + 1).drop_last() =~= orig.take(consumed as int));
                    assert(orig.take(consumed + 1).last() == item);
                    assert(first_cached(kept_before, name) == first_cached(orig.take(consumed as int), name));
                    if kept@.len() > kept_before.len() {
                        assert(kept@.drop_last() =~= kept_before);
                    } else {
                        assert(kept@ == kept_before);
                    }
                }
            }
            consumed = consumed + 1;
            assert(rest@ =~= orig.subrange(consumed as int, orig.len() as int));
        }
        assert(keys.take(orig.len() as int) =~= keys);
        assert(orig.take(orig.len() as int) =~= orig);
        self.cache = kept;
        found
    }

    /// Starts a new stream of rows for `source`: clears the rows and hands out the sender.
    fn start_stream_with_order(&mut self, source: String, order: ContentStreamOrder) -> (r: ContentStream)
        ensures
            final(self).entries@.len() == 0,
            final(self).list_state.selected is None,
            final(self).loading,
            opt_view(final(self).loaded_for) == Some(source@),
            final(self).streaming(),
            final(self).stream_order_spec() == order,
            final(self).hidden_stems() == Set::<Seq<char>>::empty(),
            final(self).ready_image_stems() == Set::<Seq<char>>::empty(),
            final(self).images_need_loading(),
            final(self).search == old(self).search,
            final(self).filters_search() == old(self).filters_search(),
            final(self).cache_keys() == old(self).cache_keys(),
            final(self).cache == old(self).cache,
            final(self).scrollbar_state == final(self).scrollbar_for(),
            r.sent() == Seq::<ContentStreamUpdate>::empty(),
    {
        self.images_dirty = true;
        self.ready_images.clear();
        self.requested_images.clear();
        self.pending_entry_images.clear();
        self.pending_removals = Vec::new();
        self.entries = Vec::new();
        self.list_state = ListState { selected: None };
        self.loading = true;
        self.loaded_for = Some(source);
        self.update_scrollbar();
        let (sender, receiver) = new_channel();
        self.stream_rx = Some(receiver);
        self.stream_order = order;
        ContentStream::from_sender(sender)
    }

    /// Starts streaming rows that are inserted sorted by name.
    pub fn start_stream(&mut self, source: String) -> (r: ContentStream)
        ensures
            final(self).entries@.len() == 0,
            final(self).list_state.selected is None,
            final(self).loading,
            opt_view(final(self).loaded_for) == Some(source@),
            final(self).streaming(),
            final(self).stream_order_spec() == ContentStreamOrder::Sorted,
            final(self).hidden_stems() == Set::<Seq<char>>::empty(),
            final(self).ready_image_stems() == Set::<Seq<char>>::empty(),
            final(self).images_need_loading(),
            final(self).search == old(self).search,
            final(self).filters_search() == old(self).filters_search(),
            final(self).cache_keys() == old(self).cache_keys(),
            final(self).cache == old(self).cache,
            r.sent() == Seq::<ContentStreamUpdate>::empty(),
    {
        self.start_stream_with_order(source, ContentStreamOrder::Sorted)
    }

    /// Starts streaming rows that keep the order in which they arrive.
    pub fn start_source_stream(&mut self, source: String) -> (r: ContentStream)
        ensures
            final(self).entries@.len() == 0,
            final(self).list_state.selected is None,
            final(self).loading,
            opt_view(final(self).loaded_for) == Some(source@),
            final(self).streaming(),
            final(self).stream_order_spec() == ContentStreamOrder::Source,
            final(self).hidden_stems() == Set::<Seq<char>>::empty(),
            final(self).ready_image_stems() == Set::<Seq<char>>::empty(),
            final(self).images_need_loading(),
            final(self).search == old(self).search,
            final(self).filters_search() == old(self).filters_search(),
            final(self).cache_keys() == old(self).cache_keys(),
    {
        self.start_stream_with_order(source, ContentStreamOrder::Source)
    }

    /// Starts a stream that refreshes the current rows in place (arrival order).
    pub fn refresh_source_stream(&mut self, source: String) -> (r: ContentStream)
        ensures
            final(self).entries == old(self).entries,
            final(self).list_state == old(self).list_state,
            final(self).loading == old(self).loading,
            opt_view(final(self).loaded_for) == Some(source@),
            final(self).streaming(),
            final(self).stream_order_spec() == ContentStreamOrder::Source,
            final(self).hidden_stems() == old(self).hidden_stems(),
            final(self).search == old(self).search,
            final(self).filters_search() == old(self).filters_search(),
            final(self).cache_keys() == old(self).cache_keys(),
    {
        let (sender, receiver) = new_channel();
        self.stream_rx = Some(receiver);
        self.stream_order = ContentStreamOrder::Source;
        self.loaded_for = Some(source);
        ContentStream::from_sender(sender)
    }

    /// What loading `name` leaves of `before`; `restored` when the rows came back
    /// from the cache rather than from a new scan (see `start_load`).
    pub open spec fn load_started(self, before: Self, name: Seq<char>, restored: bool) -> bool {
        &&& (opt_view(self.loaded_for) == Some(name))
        &&& (restored <==> before.restores_from_cache(name))
        &&& (restored ==> !self.loading && !self.streaming()
                && before.cached_list(name) == Some((self.entries@, self.list_state.selected)))
        &&& (!restored ==> self.entries@.len() == 0 && self.loading && self.streaming()
                && self.stream_order_spec() == ContentStreamOrder::Sorted)
        &&& (self.images_need_loading())
        &&& (self.ready_image_stems() == Set::<Seq<char>>::empty())
        &&& (!self.cache_keys().contains(name))
        &&& (match before.loaded_for {
                Some(p) => p@ != name && before.entries@.len() > 0
                    ==> self.cached_list(p@) == Some((before.entries@, before.list_state.selected)),
                None => true,
            })
        &&& (forall|k: Seq<char>| k != name
                && !(before.loaded_for matches Some(p) && p@ == k && before.entries@.len() > 0)
                ==> #[trigger] first_cached(self.cache@, k) == first_cached(before.cache@, k))
    }

    /// A list cached under a key is among the cache keys.
    proof fn lemma_cached_key(&self, k: Seq<char>)
        requires
            first_cached(self.cache@, k) is Some,
        ensures
            self.cache_keys().contains(k),
    {
        lemma_first_cached_key(self.cache@, k);
        let j = choose|j: int| 0 <= j < self.cache@.len() && self.cache@[j].0@ == k;
        assert(self.cache_keys()[j] == k);
    }

    /// Loading another instance and then this one again brings back the rows and
    /// the selection shown before, without a scan.
    pub proof fn lemma_switch_back_restores(
        l0: ContentListState,
        l1: ContentListState,
        l2: ContentListState,
        a: Seq<char>,
        b: Seq<char>,
        restored1: bool,
        restored2: bool,
    )
        requires
            l0.loaded_for matches Some(p) && p@ == a,
            l0.entries@.len() > 0,
            a != b,
            l1.load_started(l0, b, restored1),
            l2.load_started(l1, a, restored2),
        ensures
            restored2,
            l2.entries@ == l0.entries@,
            l2.list_state.selected == l0.list_state.selected,
            !l2.loading,
    {
        assert(l1.cached_list(a) == Some((l0.entries@, l0.list_state.selected)));
        l1.lemma_cached_key(a);
    }

    /// Prepares the list to show `instance_name`'s content. The rows shown so far
    /// are cached under their source. When rows for `instance_name` are cached they
    /// come back (with their selection) and `None` is returned; otherwise the rows
    /// are cleared and the returned stream is for the caller's directory scan.
    pub fn start_load(&mut self, instance_name: &str) -> (r: Option<ContentStream>)
        ensures
            final(self).load_started(*old(self), instance_name@, r is None),
            r matches Some(st) ==> st.sent() == Seq::<ContentStreamUpdate>::empty(),
    {
        self.images_dirty = true;
        self.ready_images.clear();
        self.requested_images.clear();
        self.pending_entry_images.clear();
        self.pending_removals = Vec::new();
        let ghost restores = old(self).restores_from_cache(instance_name@);
        let ghost back = old(self).cached_list(instance_name@);
        assert(self.cache == old(self).cache && self.entries == old(self).entries && self.list_state == old(self).list_state);
        let prev = self.loaded_for.take();
        if let Some(prev) = prev {
            if self.entries.len() > 0 {
                let mut entries: Vec<ContentEntry> = Vec::new();
                std::mem::swap(&mut entries, &mut self.entries);
                let selected = self.list_state.selected;
                let ghost before = self.cache_keys();
                self.cache_remove(prev.as_str());
                let ghost pv = prev@;
                let ghost cache_mid = self.cache@;
                let ghost saved = (entries@, selected);
                assert(saved == (old(self).entries@, old(self).list_state.selected));
                let ghost cache_removed = self.cache@;
                self.cache.push((prev, CachedList { entries, selected }));
                proof {
                    assert(self.cache@.drop_last() =~= cache_removed);
                    assert(cached_view(self.cache@.last().1) == saved);
                    if instance_name@ == pv {
                        assert(first_cached(cache_removed, instance_name@) is None);
                    } else {
                        assert(first_cached(cache_removed, instance_name@) == first_cached(old(self).cache@, instance_name@));
                    }
                    assert(first_cached(self.cache@, instance_name@) == back);
                    assert(first_cached(self.cache@, pv) == Some(saved));
                    assert forall|k: Seq<char>| k != pv implies #[trigger] first_cached(self.cache@, k) == first_cached(old(self).cache@, k) by {
                        assert(first_cached(cache_removed, k) == first_cached(old(self).cache@, k));
                    }
                    let mid = without_key(before, pv);
                    assert(self.cache@ == cache_mid.push(self.cache@.last()));
                    assert(cache_mid.map_values(|c: (String, CachedList)| c.0@) == mid);
                    assert(self.cache@.map_values(|c: (String, CachedList)| c.0@)
                        =~= cache_mid.map_values(|c: (String, CachedList)| c.0@).push(pv));
                    assert(self.cache_keys() =~= mid.push(pv));
                    lemma_filter_ne_contains(before, pv, instance_name@);
                    if instance_name@ == pv {
                        assert(self.cache_keys()[mid.len() as int] == pv);
                    }
                    if self.cache_keys().contains(instance_name@) && instance_name@ != pv {
                        let w = choose|w: int| 0 <= w < self.cache_keys().len() && self.cache_keys()[w] == instance_name@;
                        assert(w < mid.len());
                        assert(mid[w] == instance_name@);
                    }
                    if mid.contains(instance_name@) {
                        let w = choose|w: int| 0 <= w < mid.len() && mid[w] == instance_name@;
                        assert(self.cache_keys()[w] == instance_name@);
                    }
                }
            }
        }
        assert(self.cache_keys().contains(instance_name@) == restores);
        assert(first_cached(self.cache@, instance_name@) == back);
        assert(match old(self).loaded_for {
            Some(p) => p@ != instance_name@ && old(self).entries@.len() > 0
                ==> first_cached(self.cache@, p@) == Some((old(self).entries@, old(self).list_state.selected)),
            None => true,
        });
        assert(forall|k: Seq<char>| k != instance_name@
            && !(old(self).loaded_for matches Some(p) && p@ == k && old(self).entries@.len() > 0)
            ==> #[trigger] first_cached(self.cache@, k) == first_cached(old(self).cache@, k));
        let cached = self.cache_remove(instance_name);
        let ghost after_remove = self.cache;
        proof {
            lemma_filter_ne_contains(old(self).cache_keys(), instance_name@, instance_name@);
        }
        match cached {
            Some(cached) => {
                let ghost restored = cached_view(cached);
                self.entries = cached.entries;
                let mut i: usize = 0;
                while i < self.entries.len()
                    invariant
                        i <= self.entries@.len(),
                        self.entries@ == restored.0,
                        self.cache == after_remove,
                        self.images_need_loading(),
                        self.ready_image_stems() == Set::<Seq<char>>::empty(),
                        !self.cache_keys().contains(instance_name@),
                    decreases self.entries@.len() - i,
                {
                    if self.entries[i].icon_bytes.is_some() {
                        let stem = self.entries[i].file_stem.clone();
                        self.pending_entry_images.insert(stem);
                    }
                    i = i + 1;
                }
                self.list_state.selected = cached.selected;
                self.loading = false;
                self.stream_rx = None;
                self.loaded_for = Some(owned(instance_name));
                self.update_scrollbar();
                None
            },
            None => {
                let stream = self.start_stream(owned(instance_name));
                Some(stream)
            },
        }
    }
}

impl ContentListState {
    /// Records the pager as last drawn (a page holds at least one row).
    pub fn set_pagination(&mut self, pagination: Option<PaginationState>)
        requires
            pagination matches Some(p) ==> p.page_size > 0,
        ensures
            final(self).page_layout() == (match pagination { Some(p) => Some((p.page_size, p.page_count)), None => None }),
            final(self).page_hits() == (match pagination { Some(p) => p.hits@, None => Seq::<(Rect, usize)>::empty() }),
            final(self).entries == old(self).entries,
            final(self).list_state == old(self).list_state,
    {
        self.pagination = pagination;
    }

    /// Selects the first row of `page` (clamped to the last page).
    fn jump_to_page(&mut self, page: usize) -> (r: bool)
        ensures
            r == (old(self).page_layout() is Some),
            match old(self).page_layout() {
                Some((size, count)) => final(self).list_state.selected == Some(
                    clamp_mul(if page < count { page as int } else { if count == 0 { 0 } else { count - 1 } }, size as int)),
                None => final(self).list_state == old(self).list_state,
            },
            final(self).entries == old(self).entries,
            final(self).page_layout() == old(self).page_layout(),
            final(self).scrollbar_state == final(self).scrollbar_for() || old(self).page_layout() is None,
    {
        let (size, count) = match &self.pagination {
            Some(p) => (p.page_size, p.page_count),
            None => return false,
        };
        let last = if count == 0 { 0 } else { count - 1 };
        let page = if page < count { page } else { last };
        let target = match page.checked_mul(size) { Some(v) => v, None => usize::MAX };
        self.list_state.selected = Some(target);
        self.update_scrollbar();
        true
    }

    /// What a page key leaves: the selection moves to the first row of the previous
    /// or next page (staying within the pages), when the list is paginated.
    pub open spec fn paged(self, before: Self, forward: bool, r: bool) -> bool {
        &&& r == (before.page_layout() is Some)
        &&& self.entries == before.entries
        &&& match before.page_layout() {
            Some((size, count)) => size > 0 ==> {
                let current = current_page(before.list_state.selected, size);
                let target = if forward {
                    min_int(current + 1, if count == 0 { 0 } else { count - 1 })
                } else if current == 0 { 0 } else { current - 1 };
                self.list_state.selected == Some(clamp_mul(clamp_page(target, count), size as int))
            },
            None => self.list_state == before.list_state,
        }
    }

    /// Selects the first row of the previous page.
    pub fn previous_page(&mut self) -> (r: bool)
        ensures
            final(self).paged(*old(self), false, r),
    {
        let size = match &self.pagination {
            Some(p) => p.page_size,
            None => return false,
        };
        if size == 0 {
            return self.jump_to_page(0);
        }
        let selected = match self.list_state.selected { Some(k) => k, None => 0 };
        let current = selected / size;
        self.jump_to_page(if current == 0 { 0 } else { current - 1 })
    }

    /// Selects the first row of the next page (staying on the last one).
    pub fn next_page(&mut self) -> (r: bool)
        ensures
            final(self).paged(*old(self), true, r),
    {
        let (size, count) = match &self.pagination {
            Some(p) => (p.page_size, p.page_count),
            None => return false,
        };
        if size == 0 {
            return self.jump_to_page(0);
        }
        let selected = match self.list_state.selected { Some(k) => k, None => 0 };
        let current = selected / size;
        let last = if count == 0 { 0 } else { count - 1 };
        let next = if current < last { current + 1 } else { last };
        self.jump_to_page(next)
    }

    /// What a click at `(x, y)` leaves (see `click_page`).
    pub open spec fn page_clicked(self, before: Self, x: u16, y: u16, r: bool) -> bool {
        &&& r == (before.page_layout() is Some
            && exists|i: int| 0 <= i < before.page_hits().len() && rect_contains(#[trigger] before.page_hits()[i].0, x, y))
        &&& self.entries == before.entries
        &&& (!r ==> self.list_state == before.list_state)
        &&& (r ==> match before.page_layout() {
            Some((size, count)) => exists|i: int| #[trigger] first_hit_at(before.page_hits(), x, y, i)
                && self.list_state.selected == Some(clamp_mul(clamp_page(before.page_hits()[i].1 as int, count), size as int)),
            None => false,
        })
    }

    /// Opens the page whose label is at `(x, y)`, if any; returns whether it did.
    pub fn click_page(&mut self, x: u16, y: u16) -> (r: bool)
        ensures
            final(self).page_clicked(*old(self), x, y, r),
    {
        let page: Option<usize> = match &self.pagination {
            Some(p) => {
                let r = find_hit(&p.hits, x, y);
                assert(p.hits@ == self.page_hits());
                assert(self.page_layout() is Some);
                r
            },
            None => None,
        };
        match page {
            Some(page) => self.jump_to_page(page),
            None => false,
        }
    }

    /// Removes the rows at `path`; the selection stays within the shown rows.
    pub fn remove_path(&mut self, path: &str)
        ensures
            final(self).entries@ == old(self).entries@.filter(path_is_not(path@)),
            final(self).images_need_loading(),
            final(self).search == old(self).search,
            final(self).filters_search() == old(self).filters_search(),
            final(self).hidden_stems() == old(self).hidden_stems(),
            match old(self).list_state.selected {
                Some(sel) => final(self).list_state.selected == (if final(self).filtered().len() == 0 { None }
                    else { Some(min_usize(sel, (final(self).filtered().len() - 1) as usize)) }),
                None => final(self).list_state.selected is None,
            },
            final(self).scrollbar_state == final(self).scrollbar_for(),
    {
        let stem = match find_path(&self.entries, path) {
            Some(k) => Some(self.entries[k].file_stem.clone()),
            None => None,
        };
        let mut entries: Vec<ContentEntry> = Vec::new();
        std::mem::swap(&mut entries, &mut self.entries);
        self.entries = entries_without_path(entries, path);
        if let Some(stem) = stem {
            self.ready_images.remove(stem.as_str());
            self.requested_images.remove(stem.as_str());
        }
        self.images_dirty = true;
        let ghost mid = *self;
        if let Some(sel) = self.list_state.selected {
            let visible = self.filtered_indices().len();
            self.list_state.selected = if visible == 0 { None } else { Some(if sel < visible - 1 { sel } else { visible - 1 }) };
        }
        self.update_scrollbar();
        proof {
            self.lemma_filtered_same(&mid, self.entries@.len() as int);
        }
    }

    /// Records the outcome of renaming the file of the selected entry (here the
    /// selection is an entry index) to enable or disable it: given its new path,
    /// the entry flips between enabled and disabled and takes that path; a failed
    /// or needless rename (`None`) changes nothing.
    pub fn toggle_selected(&mut self, renamed: Option<String>)
        ensures
            final(self).entries@ == toggled_entries(old(self).entries@, old(self).list_state.selected, renamed),
            *final(self) == (ContentListState { entries: final(self).entries, ..*old(self) }),
    {
        let index = match self.list_state.selected {
            Some(i) => i,
            None => return,
        };
        if index >= self.entries.len() {
            return;
        }
        if let Some(new_path) = renamed {
            let ghost before = self.entries@;
            let mut e = self.entries.remove(index);
            e.enabled = !e.enabled;
            e.path = new_path;
            self.entries.insert(index, e);
            assert(self.entries@ =~= before.update(index as int, toggled(before[index as int], new_path)));
        }
    }

    fn select_first_row(&mut self)
        ensures
            final(self).list_state.selected == Some(0usize),
            final(self).scrollbar_state == final(self).scrollbar_for(),
            final(self).entries == old(self).entries,
            final(self).search == old(self).search,
            final(self).filters_search() == old(self).filters_search(),
            final(self).hidden_stems() == old(self).hidden_stems(),
    {
        self.list_state.selected = Some(0);
        self.update_scrollbar();
    }

    /// Search typing: while the search is active every key goes to it; `/` starts it.
    /// Each of these moves the selection to the first row. Returns whether the key was used.
    pub fn handle_search_keys(&mut self, key: &KeyEvent) -> (r: bool)
        ensures
            r == (old(self).search.active || key.code == KeyCode::Char('/')),
            r ==> final(self).list_state.selected == Some(0usize) || (old(self).search.active && !search_edit_key(key.code)),
            final(self).filters_search() == old(self).filters_search(),
            final(self).hidden_stems() == old(self).hidden_stems(),
            !r ==> final(self).list_state == old(self).list_state && final(self).search == old(self).search,
            final(self).entries == old(self).entries,
            old(self).search.active ==> final(self).search.query@ == search_query_after(old(self).search.query@, *key),
            old(self).search.active ==> final(self).search.active == (key.code != KeyCode::Enter && key.code != KeyCode::Esc),
            !old(self).search.active && key.code == KeyCode::Char('/') ==> final(self).search.active
                && final(self).search.query@ == old(self).search.query@,
    {
        if self.search.active {
            match key.code {
                KeyCode::Enter => {
                    self.search.confirm();
                    self.select_first_row();
                },
                KeyCode::Esc => {
                    self.search.deactivate();
                    self.select_first_row();
                },
                KeyCode::Backspace => {
                    self.search.backspace(key.modifiers);
                    self.select_first_row();
                },
                KeyCode::Char(c) => {
                    self.search.push(c);
                    self.select_first_row();
                },
                _ => {},
            }
            return true;
        }
        if key.code == KeyCode::Char('/') {
            self.search.activate();
            self.select_first_row();
            return true;
        }
        false
    }

    /// What a navigation key leaves of a list (see `handle_key_inner`).
    pub open spec fn key_outcome(self, before: Self, key: KeyEvent, toggle_on_enter: bool, r: ListKeyOutcome) -> bool {
        &&& (self.entries == before.entries)
        &&& ((before.search.active || key.code == KeyCode::Char('/')) ==> r.handled && r.action is None)
        &&& (self.filters_search() == before.filters_search())
        &&& (self.hidden_stems() == before.hidden_stems())
        &&& (before.search.active ==> self.search.query@ == search_query_after(before.search.query@, key)
            && self.search.active == (key.code != KeyCode::Enter && key.code != KeyCode::Esc)
            && (self.list_state.selected == Some(0usize) || !search_edit_key(key.code)))
        &&& (!before.search.active && key.code == KeyCode::Char('/') ==> self.search.active
            && self.search.query@ == before.search.query@ && self.list_state.selected == Some(0usize))
        &&& (!(before.search.active || key.code == KeyCode::Char('/')) ==> self.search == before.search)
        &&& (!(before.search.active || key.code == KeyCode::Char('/')) ==> ({
                let count = before.filtered().len();
                let current = match before.list_state.selected { Some(k) => k as int, None => 0 };
                if key.code == KeyCode::Char('j') || key.code == KeyCode::Down {
                    r.handled && r.action is None && (count == 0 ==> self.list_state == before.list_state)
                        && (count > 0 ==> self.list_state.selected == Some(min_int(current + 1, count - 1) as usize))
                } else if key.code == KeyCode::Char('k') || key.code == KeyCode::Up {
                    r.handled && r.action is None
                        && self.list_state.selected == Some((if current == 0 { 0 } else { current - 1 }) as usize)
                } else if key.code == KeyCode::Enter && key.modifiers.shift {
                    r.handled && self.list_state == before.list_state && match r.action {
                        Some(ListAction::OpenDirectory(d)) => before.selected_row() matches Some(i)
                            && crate::path::parent_spec(before.entries@[i].path@) == Some(d@),
                        Some(_) => false,
                        None => before.selected_row() matches Some(i) ==> crate::path::parent_spec(before.entries@[i].path@) is None,
                    }
                } else if key.code == KeyCode::Enter && toggle_on_enter {
                    r.handled && self.list_state == before.list_state && match r.action {
                        Some(ListAction::Toggle(i)) => before.selected_row() == Some(i as int),
                        Some(_) => false,
                        None => before.selected_row() is None,
                    }
                } else {
                    !r.handled && r.action is None && self.list_state == before.list_state
                }
            }))
    }

    /// Navigation keys of a list: `j`/Down and `k`/Up move the selection within the
    /// shown rows; Shift+Enter asks to open the directory of the selected row; Enter
    /// asks to toggle the selected row when `toggle_on_enter` holds.
    fn handle_key_inner(&mut self, key: &KeyEvent, toggle_on_enter: bool) -> (r: ListKeyOutcome)
        ensures
            final(self).key_outcome(*old(self), *key, toggle_on_enter, r),
    {
        if self.handle_search_keys(key) {
            return ListKeyOutcome { handled: true, action: None };
        }
        proof {
            self.lemma_filtered_same(old(self), self.entries@.len() as int);
        }
        let count = self.filtered_indices().len();
        let current = match self.list_state.selected { Some(k) => k, None => 0 };
        match key.code {
            KeyCode::Char('j') | KeyCode::Down => {
                if count == 0 {
                    return ListKeyOutcome { handled: true, action: None };
                }
                let next = if current < count - 1 { current + 1 } else { count - 1 };
                self.list_state.selected = Some(next);
                self.update_scrollbar();
                ListKeyOutcome { handled: true, action: None }
            },
            KeyCode::Char('k') | KeyCode::Up => {
                self.list_state.selected = Some(if current == 0 { 0 } else { current - 1 });
                self.update_scrollbar();
                ListKeyOutcome { handled: true, action: None }
            },
            KeyCode::Enter => {
                if key.modifiers.shift {
                    let action = match self.selected_index() {
                        Some(i) => match crate::path::parent(self.entries[i].path.as_str()) {
                            Some(d) => Some(ListAction::OpenDirectory(d)),
                            None => None,
                        },
                        None => None,
                    };
                    ListKeyOutcome { handled: true, action }
                } else if toggle_on_enter {
                    let action = match self.selected_index() {
                        Some(i) => Some(ListAction::Toggle(i)),
                        None => None,
                    };
                    ListKeyOutcome { handled: true, action }
                } else {
                    ListKeyOutcome { handled: false, action: None }
                }
            },
            _ => ListKeyOutcome { handled: false, action: None },
        }
    }
}

/// Outside the search, `k`/Up moves the selection from shown row `i` one row up
/// (staying on the first row), and `j`/Down one row down (staying on the last),
/// without changing the rows.
pub proof fn lemma_list_keys_move_one_row(
    before: ContentListState,
    after: ContentListState,
    key: KeyEvent,
    toggle_on_enter: bool,
    r: ListKeyOutcome,
    i: usize,
)
    requires
        after.key_outcome(before, key, toggle_on_enter, r),
        !before.search.active,
        before.list_state.selected == Some(i),
        (i as int) < before.filtered().len(),
    ensures
        (key.code == KeyCode::Char('k') || key.code == KeyCode::Up) ==> {
            &&& r.handled
            &&& after.entries == before.entries
            &&& i > 0 ==> after.list_state.selected == Some((i - 1) as usize)
            &&& i == 0 ==> after.list_state.selected == Some(0usize)
        },
        (key.code == KeyCode::Char('j') || key.code == KeyCode::Down) ==> {
            &&& r.handled
            &&& after.entries == before.entries
            &&& i + 1 < before.filtered().len() ==> after.list_state.selected == Some((i + 1) as usize)
            &&& i + 1 == before.filtered().len() ==> after.list_state.selected == Some(i)
        },
{
}

/// Entry `e` switched between enabled and disabled, now at `path`.
pub open spec fn toggled(e: ContentEntry, path: String) -> ContentEntry {
    ContentEntry { enabled: !e.enabled, path, ..e }
}

/// The entries after the entry at `selected` was renamed to `renamed` (nothing
/// changes without a selection on an entry or without a new path).
pub open spec fn toggled_entries(entries: Seq<ContentEntry>, selected: Option<usize>, renamed: Option<String>) -> Seq<ContentEntry> {
    match selected {
        Some(i) => match renamed {
            Some(p) => if i < entries.len() { entries.update(i as int, toggled(entries[i as int], p)) } else { entries },
            None => entries,
        },
        None => entries,
    }
}

/// Keys of a content list, Enter toggling the selected row (see `handle_key_inner`).
pub fn handle_key(key: &KeyEvent, state: &mut ContentListState) -> (r: ListKeyOutcome)
    ensures
        final(state).key_outcome(*old(state), *key, true, r),
{
    state.handle_key_inner(key, true)
}

/// Keys of a content list where Enter does not toggle (see `handle_key_inner`).
pub fn handle_key_no_toggle(key: &KeyEvent, state: &mut ContentListState) -> (r: ListKeyOutcome)
    ensures
        final(state).key_outcome(*old(state), *key, false, r),
{
    state.handle_key_inner(key, false)
}

/// Keys that change the query while the search is active.
pub open spec fn search_edit_key(code: KeyCode) -> bool {
    code == KeyCode::Enter || code == KeyCode::Esc || code == KeyCode::Backspace || code is Char
}

/// The query after a key pressed while the search is active.
pub open spec fn search_query_after(query: Seq<char>, key: KeyEvent) -> Seq<char> {
    match key.code {
        KeyCode::Esc => Seq::empty(),
        KeyCode::Backspace => crate::search::backspace_spec(query, key.modifiers.control || key.modifiers.alt),
        KeyCode::Char(c) => query.push(c),
        _ => query,
    }
}

pub open spec fn min_int(a: int, b: int) -> int {
    if a < b { a } else { b }
}

pub open spec fn min_usize(a: usize, b: usize) -> usize {
    if a < b { a } else { b }
}

/// `a * b`, saturating at `usize::MAX`.
pub open spec fn clamp_mul(a: int, b: int) -> usize {
    if a * b > usize::MAX { usize::MAX } else { (a * b) as usize }
}

/// The page of the selected row (row 0 when nothing is selected).
pub open spec fn current_page(selected: Option<usize>, size: usize) -> int {
    (match selected { Some(k) => k as int, None => 0 }) / (size as int)
}

pub open spec fn clamp_page(page: int, count: usize) -> int {
    if page < count { page } else { if count == 0 { 0 } else { count - 1 } }
}

/// Label `i` is the first pager label at `(x, y)`.
pub open spec fn first_hit_at(hits: Seq<(Rect, usize)>, x: u16, y: u16, i: int) -> bool {
    &&& 0 <= i < hits.len()
    &&& rect_contains(hits[i].0, x, y)
    &&& forall|j: int| 0 <= j < i ==> !rect_contains(#[trigger] hits[j].0, x, y)
}

/// The page of the first pager label at `(x, y)`.
fn find_hit(hits: &Vec<(Rect, usize)>, x: u16, y: u16) -> (r: Option<usize>)
    ensures
        r matches Some(p) ==> exists|i: int| #[trigger] first_hit_at(hits@, x, y, i) && hits@[i].1 == p,
        r is None ==> forall|i: int| 0 <= i < hits@.len() ==> !rect_contains(#[trigger] hits@[i].0, x, y),
{
    let mut i: usize = 0;
    while i < hits.len()
        invariant
            i <= hits@.len(),
            forall|j: int| 0 <= j < i ==> !rect_contains(#[trigger] hits@[j].0, x, y),
        decreases hits@.len() - i,
    {
        let area = hits[i].0;
        if x >= area.x && (x as u32) < (area.x as u32) + (area.width as u32) && y >= area.y
            && (y as u32) < (area.y as u32) + (area.height as u32) {
            assert(first_hit_at(hits@, x, y, i as int));
            return Some(hits[i].1);
        }
        i = i + 1;
    }
    None
}

/// The position of the first row with `path`, if any.
pub fn find_path(entries: &Vec<ContentEntry>, path: &str) -> (r: Option<usize>)
    ensures
        r matches Some(k) ==> k < entries@.len() && entries@[k as int].path@ == path@
            && forall|j: int| 0 <= j < k ==> entries@[j].path@ != path@,
        r is None ==> forall|j: int| 0 <= j < entries@.len() ==> entries@[j].path@ != path@,
{
    let mut i: usize = 0;
    while i < entries.len()
        invariant
            i <= entries@.len(),
            forall|j: int| 0 <= j < i ==> entries@[j].path@ != path@,
        decreases entries@.len() - i,
    {
        if str_eq(entries[i].path.as_str(), path) {
            return Some(i);
        }
        i = i + 1;
    }
    None
}

impl ContentListState {
    /// The parts of the state that taking in a streamed update leaves alone.
    pub open spec fn keeps_frame(self, before: Self) -> bool {
        &&& self.search == before.search
        &&& self.filters_search() == before.filters_search()
        &&& self.list_state == before.list_state
        &&& self.loading == before.loading
        &&& self.loaded_for == before.loaded_for
        &&& self.stream_order_spec() == before.stream_order_spec()
        &&& self.streaming() == before.streaming()
    }

    fn apply_entry(&mut self, e: ContentEntry)
        ensures
            final(self).keeps_frame(*old(self)),
            ({
            &&& final(self).images_need_loading()
            &&& (old(self).stream_order_spec() == ContentStreamOrder::Source ==> final(self).entries@ == old(self).entries@.push(e))
            &&& (old(self).stream_order_spec() == ContentStreamOrder::Sorted ==> exists|p: int| 0 <= p <= old(self).entries@.len()
                && final(self).entries@ == old(self).entries@.insert(p, e))
            &&& (old(self).stream_order_spec() == ContentStreamOrder::Sorted && sorted_by_name(old(self).entries@)
                ==> sorted_by_name(final(self).entries@))
            &&& final(self).hidden_stems() == (if e.icon_bytes is Some || e.provider_icon {
                old(self).hidden_stems().insert(e.file_stem@) } else { old(self).hidden_stems() })
            &&& final(self).ready_image_stems() == old(self).ready_image_stems()
            }),
    {
        self.images_dirty = true;
        if e.icon_bytes.is_some() || e.provider_icon {
            self.pending_entry_images.insert(e.file_stem.clone());
        }
        match self.stream_order {
            ContentStreamOrder::Sorted => {
                let key = crate::text::to_lowercase(e.name.as_str());
                let pos = insertion_point(&self.entries, key.as_str());
                let ghost before = self.entries@;
                self.entries.insert(pos, e);
                proof {
                    let after = self.entries@;
                    assert(after == before.insert(pos as int, e));
                    if sorted_by_name(before) {
                        assert forall|i: int, j: int| 0 <= i < j < after.len() implies
                            crate::order::seq_le(sort_key(after[i]), sort_key(after[j])) by {
                            if j < pos {
                            } else if j == pos {
                                assert(after[j] == e);
                            } else if i < pos {
                                assert(after[j] == before[j - 1]);
                                crate::order::lemma_le_trans(sort_key(after[i]), key@, sort_key(after[j]));
                            } else if i == pos {
                                assert(after[j] == before[j - 1]);
                            } else {
                                assert(after[i] == before[i - 1]);
                                assert(after[j] == before[j - 1]);
                            }
                        }
                    }
                }
            },
            ContentStreamOrder::Source => {
                self.entries.push(e);
            },
        }
    }

    fn apply_upsert(&mut self, e: ContentEntry)
        ensures
            final(self).keeps_frame(*old(self)),
            ({
            &&& final(self).images_need_loading()
            &&& (exists|k: int| first_with_stem(old(self).entries@, e.file_stem@, k)) ==> ({
                let k = choose|k: int| first_with_stem(old(self).entries@, e.file_stem@, k);
                let merged = upsert_merge(old(self).entries@[k], e);
                &&& final(self).entries@ == old(self).entries@.update(k, merged)
                &&& final(self).ready_image_stems() == (if upsert_icon_changed(old(self).entries@[k], e) {
                    old(self).ready_image_stems().remove(e.file_stem@) } else { old(self).ready_image_stems() })
                &&& final(self).hidden_stems() == (if (merged.icon_bytes is Some || merged.provider_icon)
                    && !final(self).ready_image_stems().contains(e.file_stem@) {
                    old(self).hidden_stems().insert(e.file_stem@) } else { old(self).hidden_stems().remove(e.file_stem@) })
            })
            &&& no_stem(old(self).entries@, e.file_stem@) ==> ({
                &&& final(self).entries@ == old(self).entries@.push(e)
                &&& final(self).ready_image_stems() == old(self).ready_image_stems()
                &&& final(self).hidden_stems() == (if (e.icon_bytes is Some || e.provider_icon)
                    && !old(self).ready_image_stems().contains(e.file_stem@) {
                    old(self).hidden_stems().insert(e.file_stem@) } else { old(self).hidden_stems().remove(e.file_stem@) })
            })
            }),
    {
        self.images_dirty = true;
        let stem = e.file_stem.clone();
        match find_stem(&self.entries, stem.as_str()) {
            Some(k) => {
                let ghost ek = self.entries@[k as int];
                let existing = self.entries.remove(k);
                let ContentEntry {
                    icon_bytes: ex_bytes,
                    icon_lines: ex_lines,
                    provider_icon: ex_provider_icon,
                    description: ex_description,
                    provider_description: ex_provider_description,
                    path: ex_path,
                    provider_project: ex_project,
                    ..
                } = existing;
                let mut e = e;
                let same_source = str_eq(ex_path.as_str(), e.path.as_str())
                    && crate::model::opt_project_eq(&ex_project, &e.provider_project);
                let take_icon = e.icon_bytes.is_none() && same_source;
                if take_icon {
                    e.icon_bytes = ex_bytes;
                    e.icon_lines = ex_lines;
                    e.provider_icon = ex_provider_icon;
                } else if !crate::model::opt_bytes_eq(&e.icon_bytes, &ex_bytes) {
                    self.ready_images.remove(stem.as_str());
                    self.requested_images.remove(stem.as_str());
                }
                if crate::text::is_blank(e.description.as_str()) && same_source && ex_provider_description {
                    e.description = ex_description;
                    e.provider_description = true;
                }
                let show_icon = e.icon_bytes.is_some() || e.provider_icon;
                self.entries.insert(k, e);
                proof {
                    let k2 = choose|k2: int| first_with_stem(old(self).entries@, stem@, k2);
                    assert(first_with_stem(old(self).entries@, stem@, k as int));
                    if k2 < k {
                        assert(old(self).entries@[k2].file_stem@ != stem@);
                    } else if k < k2 {
                        assert(old(self).entries@[k as int].file_stem@ != stem@);
                    }
                    assert(self.entries@ =~= old(self).entries@.update(k as int, upsert_merge(ek, e)));
                }
                if show_icon && !self.ready_images.contains(stem.as_str()) {
                    self.pending_entry_images.insert(stem);
                } else {
                    self.pending_entry_images.remove(stem.as_str());
                }
            },
            None => {
                let show_icon = e.icon_bytes.is_some() || e.provider_icon;
                self.entries.push(e);
                if show_icon && !self.ready_images.contains(stem.as_str()) {
                    self.pending_entry_images.insert(stem);
                } else {
                    self.pending_entry_images.remove(stem.as_str());
                }
            },
        }
    }

    fn apply_retain(&mut self, stems: Vec<String>) -> (r: Option<Option<String>>)
        ensures
            final(self).keeps_frame(*old(self)),
            ({
            let keep = Set::new(|x: Seq<char>| crate::stems::has(stems@, x));
            &&& final(self).entries@ == old(self).entries@.filter(keeps_stem(keep))
            &&& final(self).hidden_stems() == old(self).hidden_stems().intersect(keep)
            &&& final(self).ready_image_stems() == old(self).ready_image_stems().intersect(keep)
            &&& final(self).images_need_loading()
            &&& r matches Some(sel) && match sel {
                Some(s) => old(self).selected_row() matches Some(i) && s@ == old(self).entries@[i].file_stem@,
                None => old(self).selected_row() is None,
            }
            }),
    {
        let selected = self.selected_file_stem();
        let keep = StemSet::from_vec(stems);
        let mut entries: Vec<ContentEntry> = Vec::new();
        std::mem::swap(&mut entries, &mut self.entries);
        let ghost kv = Set::new(|x: Seq<char>| crate::stems::has(stems@, x));
        assert(keep@ =~= kv);
        self.entries = retain_entries_with_stems(entries, &keep);
        self.ready_images.retain_in(&keep);
        self.requested_images.retain_in(&keep);
        self.pending_entry_images.retain_in(&keep);
        self.images_dirty = true;
        Some(selected)
    }

    fn apply_icon(&mut self, file_stem: String, path: String, bytes: Vec<u8>)
        ensures
            final(self).keeps_frame(*old(self)),
            ({
            &&& final(self).ready_image_stems() == old(self).ready_image_stems()
            &&& match find_spec(old(self).entries@, file_stem@, path@) {
                Some(k) => {
                    &&& final(self).entries@.len() == old(self).entries@.len()
                    &&& forall|j: int| 0 <= j < old(self).entries@.len() && j != k ==> final(self).entries@[j] == old(self).entries@[j]
                    &&& final(self).entries@[k] == (ContentEntry { icon_bytes: Some(bytes), provider_icon: true, ..old(self).entries@[k] })
                    &&& final(self).hidden_stems() == old(self).hidden_stems().insert(file_stem@)
                    &&& final(self).images_need_loading()
                },
                None => final(self).entries == old(self).entries && final(self).hidden_stems() == old(self).hidden_stems(),
            }
            }),
    {
        match find_stem_path(&self.entries, file_stem.as_str(), path.as_str()) {
            Some(k) => {
                proof { lemma_find_spec(old(self).entries@, file_stem@, path@, k as int); }
                let mut e = self.entries.remove(k);
                e.icon_bytes = Some(bytes);
                e.provider_icon = true;
                self.entries.insert(k, e);
                self.pending_entry_images.insert(file_stem.clone());
                self.requested_images.remove(file_stem.as_str());
                self.images_dirty = true;
            },
            None => {
                proof { lemma_find_spec_none(old(self).entries@, file_stem@, path@); }
            },
        }
    }

    fn apply_icon_unavailable(&mut self, file_stem: String, path: String)
        ensures
            final(self).keeps_frame(*old(self)),
            ({
            &&& final(self).ready_image_stems() == old(self).ready_image_stems()
            &&& match find_spec(old(self).entries@, file_stem@, path@) {
                Some(k) => {
                    &&& final(self).entries@.len() == old(self).entries@.len()
                    &&& forall|j: int| 0 <= j < old(self).entries@.len() && j != k ==> final(self).entries@[j] == old(self).entries@[j]
                    &&& final(self).entries@[k] == (ContentEntry { provider_icon: false, ..old(self).entries@[k] })
                    &&& final(self).hidden_stems() == old(self).hidden_stems().remove(file_stem@)
                },
                None => final(self).entries == old(self).entries && final(self).hidden_stems() == old(self).hidden_stems(),
            }
            }),
    {
        match find_stem_path(&self.entries, file_stem.as_str(), path.as_str()) {
            Some(k) => {
                proof { lemma_find_spec(old(self).entries@, file_stem@, path@, k as int); }
                let mut e = self.entries.remove(k);
                e.provider_icon = false;
                self.entries.insert(k, e);
                self.pending_entry_images.remove(file_stem.as_str());
                self.images_dirty = true;
            },
            None => {
                proof { lemma_find_spec_none(old(self).entries@, file_stem@, path@); }
            },
        }
    }

    /// What applying `update` leaves of `before`, with `r` returned (see `apply_update`).
    #[verifier::opaque]
    pub open spec fn update_applied(self, before: Self, update: ContentStreamUpdate, r: Option<Option<String>>) -> bool {
            &&& self.keeps_frame(before)
            &&& (
            match update {
                ContentStreamUpdate::Entry(e) => {
                    &&& r is None
                    &&& self.images_need_loading()
                    &&& (before.stream_order_spec() == ContentStreamOrder::Source ==> self.entries@ == before.entries@.push(e))
                    &&& (before.stream_order_spec() == ContentStreamOrder::Sorted ==> exists|p: int| 0 <= p <= before.entries@.len()
                        && self.entries@ == before.entries@.insert(p, e))
                    &&& (before.stream_order_spec() == ContentStreamOrder::Sorted && sorted_by_name(before.entries@)
                        ==> sorted_by_name(self.entries@))
                    &&& self.hidden_stems() == (if e.icon_bytes is Some || e.provider_icon {
                        before.hidden_stems().insert(e.file_stem@) } else { before.hidden_stems() })
                    &&& self.ready_image_stems() == before.ready_image_stems()
                },
                ContentStreamUpdate::Upsert(e) => {
                    &&& r is None
                    &&& self.images_need_loading()
                    &&& (exists|k: int| first_with_stem(before.entries@, e.file_stem@, k)) ==> ({
                        let k = choose|k: int| first_with_stem(before.entries@, e.file_stem@, k);
                        let merged = upsert_merge(before.entries@[k], e);
                        &&& self.entries@ == before.entries@.update(k, merged)
                        &&& self.ready_image_stems() == (if upsert_icon_changed(before.entries@[k], e) {
                            before.ready_image_stems().remove(e.file_stem@) } else { before.ready_image_stems() })
                        &&& self.hidden_stems() == (if (merged.icon_bytes is Some || merged.provider_icon)
                            && !self.ready_image_stems().contains(e.file_stem@) {
                            before.hidden_stems().insert(e.file_stem@) } else { before.hidden_stems().remove(e.file_stem@) })
                    })
                    &&& no_stem(before.entries@, e.file_stem@) ==> ({
                        &&& self.entries@ == before.entries@.push(e)
                        &&& self.ready_image_stems() == before.ready_image_stems()
                        &&& self.hidden_stems() == (if (e.icon_bytes is Some || e.provider_icon)
                            && !before.ready_image_stems().contains(e.file_stem@) {
                            before.hidden_stems().insert(e.file_stem@) } else { before.hidden_stems().remove(e.file_stem@) })
                    })
                },
                ContentStreamUpdate::Retain(stems) => {
                    let keep = Set::new(|x: Seq<char>| crate::stems::has(stems@, x));
                    &&& self.entries@ == before.entries@.filter(keeps_stem(keep))
                    &&& self.hidden_stems() == before.hidden_stems().intersect(keep)
                    &&& self.ready_image_stems() == before.ready_image_stems().intersect(keep)
                    &&& self.images_need_loading()
                    &&& r matches Some(sel) && match sel {
                        Some(s) => before.selected_row() matches Some(i) && s@ == before.entries@[i].file_stem@,
                        None => before.selected_row() is None,
                    }
                },
                ContentStreamUpdate::Icon { file_stem, path, bytes } => {
                    &&& r is None
                    &&& self.ready_image_stems() == before.ready_image_stems()
                    &&& match find_spec(before.entries@, file_stem@, path@) {
                        Some(k) => {
                            &&& self.entries@.len() == before.entries@.len()
                            &&& forall|j: int| 0 <= j < before.entries@.len() && j != k ==> self.entries@[j] == before.entries@[j]
                            &&& self.entries@[k] == (ContentEntry { icon_bytes: Some(bytes), provider_icon: true, ..before.entries@[k] })
                            &&& self.hidden_stems() == before.hidden_stems().insert(file_stem@)
                            &&& self.images_need_loading()
                        },
                        None => self.entries == before.entries && self.hidden_stems() == before.hidden_stems(),
                    }
                },
                ContentStreamUpdate::IconUnavailable { file_stem, path } => {
                    &&& r is None
                    &&& self.ready_image_stems() == before.ready_image_stems()
                    &&& match find_spec(before.entries@, file_stem@, path@) {
                        Some(k) => {
                            &&& self.entries@.len() == before.entries@.len()
                            &&& forall|j: int| 0 <= j < before.entries@.len() && j != k ==> self.entries@[j] == before.entries@[j]
                            &&& self.entries@[k] == (ContentEntry { provider_icon: false, ..before.entries@[k] })
                            &&& self.hidden_stems() == before.hidden_stems().remove(file_stem@)
                        },
                        None => self.entries == before.entries && self.hidden_stems() == before.hidden_stems(),
                    }
                },
            })
    }

    /// Applies one update from the stream. A `Retain` returns the stem that was
    /// selected before, for the caller to select again.
    pub fn apply_update(&mut self, update: ContentStreamUpdate) -> (r: Option<Option<String>>)
        ensures
            final(self).keeps_frame(*old(self)),
            final(self).update_applied(*old(self), update, r),
    {
        proof {
            reveal(ContentListState::update_applied);
        }
        match update {
            ContentStreamUpdate::Entry(e) => {
                self.apply_entry(e);
                None
            },
            ContentStreamUpdate::Upsert(e) => {
                self.apply_upsert(e);
                None
            },
            ContentStreamUpdate::Retain(stems) => self.apply_retain(stems),
            ContentStreamUpdate::Icon { file_stem, path, bytes } => {
                self.apply_icon(file_stem, path, bytes);
                None
            },
            ContentStreamUpdate::IconUnavailable { file_stem, path } => {
                self.apply_icon_unavailable(file_stem, path);
                None
            },
        }
    }

    /// Takes in every row and icon the stream has delivered so far, in order (each
    /// as `apply_update` does). Returns whether anything arrived or the stream
    /// ended; in that case the list is no longer loading, the row selected before
    /// the last `Retain` is selected again, and a non-empty list has a selection.
    /// Without anything arriving and with the stream still open nothing changes.
    pub fn drain_pending(&mut self) -> (r: bool)
        ensures
            !r ==> *final(self) == *old(self),
            exists|updates: Seq<ContentStreamUpdate>, states: Seq<ContentListState>, rets: Seq<Option<Option<String>>>|
                #![trigger updates.len(), states.len(), rets.len()]
            {
                &&& states.len() == updates.len() + 1
                &&& rets.len() == updates.len()
                &&& states[0] == *old(self)
                &&& forall|i: int| 0 <= i < updates.len() ==> #[trigger] states[i + 1].update_applied(states[i], updates[i], rets[i])
                &&& (updates.len() > 0 ==> old(self).streaming())
                &&& r == (updates.len() > 0 || (old(self).streaming() && !final(self).streaming()))
                &&& final(self).entries == states.last().entries
                &&& final(self).hidden_stems() == states.last().hidden_stems()
                &&& final(self).ready_image_stems() == states.last().ready_image_stems()
                &&& final(self).images_need_loading() == states.last().images_need_loading()
                &&& final(self).search == old(self).search
                &&& final(self).filters_search() == old(self).filters_search()
                &&& final(self).loaded_for == old(self).loaded_for
                &&& (r ==> {
                    &&& !final(self).loading
                    &&& final(self).scrollbar_state == final(self).scrollbar_for()
                    &&& exists|sel: Option<usize>| {
                        &&& #[trigger] chosen_selection(states.last(), last_restore(rets), old(self).list_state.selected, sel)
                        &&& final(self).list_state.selected == (if sel is None && final(self).entries@.len() > 0 { Some(0usize) } else { sel })
                    }
                })
            },
    {
        let ghost mut updates: Seq<ContentStreamUpdate> = Seq::empty();
        let ghost mut states: Seq<ContentListState> = seq![*self];
        let ghost mut rets: Seq<Option<Option<String>>> = Seq::empty();
        if self.stream_rx.is_none() {
            assert(states.last() == *old(self));
            assert(updates.len() == 0 && states.len() == 1 && rets.len() == 0);
            return false;
        }
        let mut received = false;
        let mut finished = false;
        let mut restore: Option<Option<String>> = None;
        let mut budget: usize = usize::MAX;
        while budget > 0
            invariant_except_break
                !finished,
            invariant
                old(self).streaming(),
                states.len() == updates.len() + 1,
                rets.len() == updates.len(),
                states[0] == *old(self),
                forall|i: int| 0 <= i < updates.len() ==> #[trigger] states[i + 1].update_applied(states[i], updates[i], rets[i]),
                *self == states.last(),
                self.list_state == old(self).list_state,
                self.search == old(self).search,
                self.loaded_for == old(self).loaded_for,
                self.filters_search() == old(self).filters_search(),
                received == (updates.len() > 0),
                match restore {
                    Some(sel) => last_restore(rets) == Some(opt_view(sel)),
                    None => last_restore(rets) is None,
                },
            ensures
                self.list_state == old(self).list_state,
                self.search == old(self).search,
                self.loaded_for == old(self).loaded_for,
                self.filters_search() == old(self).filters_search(),
                old(self).streaming(),
                states.len() == updates.len() + 1,
                rets.len() == updates.len(),
                states[0] == *old(self),
                forall|i: int| 0 <= i < updates.len() ==> #[trigger] states[i + 1].update_applied(states[i], updates[i], rets[i]),
                *self == states.last(),
                received == (updates.len() > 0),
                match restore {
                    Some(sel) => last_restore(rets) == Some(opt_view(sel)),
                    None => last_restore(rets) is None,
                },
            decreases budget,
        {
            budget = budget - 1;
            let poll = match &self.stream_rx {
                Some(rx) => poll_update(rx),
                None => StreamPoll::Disconnected,
            };
            match poll {
                StreamPoll::Received(update) => {
                    received = true;
                    let ghost u = update;
                    let ghost before_states = states;
                    let ghost before_rets = rets;
                    let r = self.apply_update(update);
                    proof {
                        updates = updates.push(u);
                        states = states.push(*self);
                        rets = rets.push(r);
                        assert forall|i: int| 0 <= i < updates.len() implies #[trigger] states[i + 1].update_applied(states[i], updates[i], rets[i]) by {
                            if i + 1 < states.len() - 1 {
                                assert(states[i + 1] == before_states[i + 1]);
                                assert(states[i] == before_states[i]);
                                assert(rets[i] == before_rets[i]);
                            } else {
                                assert(states[i] == before_states.last());
                            }
                        }
                        assert(rets.drop_last() =~= before_rets);
                    }
                    if let Some(sel) = r {
                        restore = Some(sel);
                    }
                },
                StreamPoll::Empty => {
                    break;
                },
                StreamPoll::Disconnected => {
                    finished = true;
                    break;
                },
            }
        }
        let ghost last = states.last();
        if let Some(sel) = restore {
            match sel {
                Some(s) => self.restore_selected_file_stem(Some(s.as_str())),
                None => self.restore_selected_file_stem(None),
            }
        }
        let ghost chosen = self.list_state.selected;
        if received || finished {
            self.loading = false;
            if self.list_state.selected.is_none() && self.entries.len() > 0 {
                self.list_state.selected = Some(0);
            }
            self.update_scrollbar();
        }
        if finished {
            self.stream_rx = None;
        }
        proof {
            assert(states.last() == last);
            assert(states.len() == updates.len() + 1 && rets.len() == updates.len());
            if !(received || finished) {
                assert(updates.len() == 0);
                assert(*self == *old(self));
            }
            assert(chosen_selection(last, last_restore(rets), old(self).list_state.selected, chosen));
        }
        received || finished
    }
}

/// The rows that the `Entry` updates among `updates` bring, in order.
pub open spec fn entry_rows(updates: Seq<ContentStreamUpdate>) -> Seq<ContentEntry>
    decreases updates.len(),
{
    if updates.len() == 0 {
        Seq::empty()
    } else {
        entry_rows(updates.drop_last()) + match updates.last() {
            ContentStreamUpdate::Entry(e) => seq![e],
            _ => Seq::empty(),
        }
    }
}

/// What an `Entry` update does to a list that sorts its rows.
proof fn lemma_entry_applied(next: ContentListState, prev: ContentListState, e: ContentEntry, r: Option<Option<String>>)
    requires
        next.update_applied(prev, ContentStreamUpdate::Entry(e), r),
        prev.stream_order_spec() == ContentStreamOrder::Sorted,
    ensures
        next.stream_order_spec() == ContentStreamOrder::Sorted,
        exists|p: int| 0 <= p <= prev.entries@.len() && next.entries@ == prev.entries@.insert(p, e),
        sorted_by_name(prev.entries@) ==> sorted_by_name(next.entries@),
{
    reveal(ContentListState::update_applied);
}

proof fn lemma_sorted_drain_upto(
    states: Seq<ContentListState>,
    updates: Seq<ContentStreamUpdate>,
    rets: Seq<Option<Option<String>>>,
    n: int,
)
    requires
        0 <= n <= updates.len(),
        states.len() == updates.len() + 1,
        rets.len() == updates.len(),
        forall|i: int| 0 <= i < updates.len() ==> #[trigger] states[i + 1].update_applied(states[i], updates[i], rets[i]),
        forall|i: int| 0 <= i < updates.len() ==> #[trigger] updates[i] is Entry,
        states[0].stream_order_spec() == ContentStreamOrder::Sorted,
        sorted_by_name(states[0].entries@),
    ensures
        states[n].stream_order_spec() == ContentStreamOrder::Sorted,
        sorted_by_name(states[n].entries@),
        states[n].entries@.to_multiset() == states[0].entries@.to_multiset().add(entry_rows(updates.take(n)).to_multiset()),
    decreases n,
{
    broadcast use vstd::seq_lib::to_multiset_build, vstd::seq_lib::to_multiset_insert;
    broadcast use vstd::multiset::group_multiset_axioms;
    broadcast use vstd::seq_lib::group_to_multiset_ensures;
    if n == 0 {
        assert(updates.take(0) =~= Seq::<ContentStreamUpdate>::empty());
        assert(entry_rows(updates.take(0)) =~= Seq::<ContentEntry>::empty());
        assert(entry_rows(updates.take(0)).to_multiset() =~= Multiset::<ContentEntry>::empty());
        assert(states[0].entries@.to_multiset().add(Multiset::<ContentEntry>::empty()) =~= states[0].entries@.to_multiset());
    } else {
        lemma_sorted_drain_upto(states, updates, rets, n - 1);
        let prev = states[n - 1];
        let next = states[n];
        assert(states[(n - 1) + 1].update_applied(states[n - 1], updates[n - 1], rets[n - 1]));
        assert(updates[n - 1] is Entry);
        let e = updates[n - 1]->Entry_0;
        lemma_entry_applied(next, prev, e, rets[n - 1]);
        assert(updates.take(n).drop_last() =~= updates.take(n - 1));
        assert(updates.take(n).last() == updates[n - 1]);
        assert(entry_rows(updates.take(n)) == entry_rows(updates.take(n - 1)) + seq![e]);
        assert(entry_rows(updates.take(n - 1)) + seq![e] =~= entry_rows(updates.take(n - 1)).push(e));
        let p = choose|p: int| 0 <= p <= prev.entries@.len() && next.entries@ == prev.entries@.insert(p, e);
        assert(next.entries@.to_multiset() == prev.entries@.to_multiset().insert(e));
        assert(next.entries@.to_multiset() =~= states[0].entries@.to_multiset().add(entry_rows(updates.take(n)).to_multiset()));
    }
}

/// Draining rows into a list kept sorted by name leaves it sorted by name, holding
/// exactly its earlier rows and the new ones.
pub proof fn lemma_sorted_drain(
    states: Seq<ContentListState>,
    updates: Seq<ContentStreamUpdate>,
    rets: Seq<Option<Option<String>>>,
)
    requires
        states.len() == updates.len() + 1,
        rets.len() == updates.len(),
        forall|i: int| 0 <= i < updates.len() ==> #[trigger] states[i + 1].update_applied(states[i], updates[i], rets[i]),
        forall|i: int| 0 <= i < updates.len() ==> #[trigger] updates[i] is Entry,
        states[0].stream_order_spec() == ContentStreamOrder::Sorted,
        sorted_by_name(states[0].entries@),
    ensures
        sorted_by_name(states.last().entries@),
        states.last().entries@.to_multiset() == states[0].entries@.to_multiset().add(entry_rows(updates).to_multiset()),
{
    lemma_sorted_drain_upto(states, updates, rets, updates.len() as int);
    assert(updates.take(updates.len() as int) =~= updates);
}

/// A drain that takes in only new rows (see `drain_pending`: `updates` are what
/// arrived and `states` what each left) keeps a list that sorts its rows sorted
/// by name, and leaves exactly its earlier rows and the new ones.
pub proof fn lemma_drain_of_new_rows_stays_sorted(
    before: ContentListState,
    after: ContentListState,
    updates: Seq<ContentStreamUpdate>,
    states: Seq<ContentListState>,
    rets: Seq<Option<Option<String>>>,
)
    requires
        states.len() == updates.len() + 1,
        rets.len() == updates.len(),
        states[0] == before,
        forall|i: int| 0 <= i < updates.len() ==> #[trigger] states[i + 1].update_applied(states[i], updates[i], rets[i]),
        after.entries == states.last().entries,
        forall|i: int| 0 <= i < updates.len() ==> #[trigger] updates[i] is Entry,
        before.stream_order_spec() == ContentStreamOrder::Sorted,
        sorted_by_name(before.entries@),
    ensures
        sorted_by_name(after.entries@),
        after.entries@.to_multiset() == before.entries@.to_multiset().add(entry_rows(updates).to_multiset()),
{
    lemma_sorted_drain(states, updates, rets);
}

/// The last selection a `Retain` among `rets` handed back, if any.
pub open spec fn last_restore(rets: Seq<Option<Option<String>>>) -> Option<Option<Seq<char>>>
    decreases rets.len(),
{
    if rets.len() == 0 {
        None
    } else {
        match rets.last() {
            Some(sel) => Some(opt_view(sel)),
            None => last_restore(rets.drop_last()),
        }
    }
}

/// `sel` is what selecting the shown row with `stem` gives in `before`: that row
/// (the first such), else the first shown row, else nothing.
pub open spec fn restored_selection(before: ContentListState, stem: Option<Seq<char>>, sel: Option<usize>) -> bool {
    match sel {
        Some(k) => k < before.filtered().len() && (
            (stem matches Some(s) && before.entries@[before.filtered()[k as int] as int].file_stem@ == s
                && forall|j: int| 0 <= j < k ==> before.entries@[before.filtered()[j] as int].file_stem@ != s)
            || (k == 0 && (stem matches Some(s) ==> forall|j: int| 0 <= j < before.filtered().len()
                ==> before.entries@[before.filtered()[j] as int].file_stem@ != s))),
        None => before.filtered().len() == 0,
    }
}

/// `sel` is the selection kept from `before` when no `Retain` handed one back,
/// else the one `restore` names, chosen in `last`.
pub open spec fn chosen_selection(last: ContentListState, restore: Option<Option<Seq<char>>>, before: Option<usize>, sel: Option<usize>) -> bool {
    match restore {
        Some(stem) => restored_selection(last, stem, sel),
        None => sel == before,
    }
}


/// The first row with this stem and path.
pub open spec fn find_spec(entries: Seq<ContentEntry>, stem: Seq<char>, path: Seq<char>) -> Option<int> {
    if exists|k: int| 0 <= k < entries.len() && entries[k].file_stem@ == stem && entries[k].path@ == path
        && forall|j: int| 0 <= j < k ==> !(entries[j].file_stem@ == stem && entries[j].path@ == path) {
        Some(choose|k: int| 0 <= k < entries.len() && entries[k].file_stem@ == stem && entries[k].path@ == path
            && forall|j: int| 0 <= j < k ==> !(entries[j].file_stem@ == stem && entries[j].path@ == path))
    } else {
        None
    }
}

proof fn lemma_find_spec(entries: Seq<ContentEntry>, stem: Seq<char>, path: Seq<char>, k: int)
    requires
        0 <= k < entries.len(),
        entries[k].file_stem@ == stem && entries[k].path@ == path,
        forall|j: int| 0 <= j < k ==> !(entries[j].file_stem@ == stem && entries[j].path@ == path),
    ensures
        find_spec(entries, stem, path) == Some(k),
{
    let c = choose|c: int| 0 <= c < entries.len() && entries[c].file_stem@ == stem && entries[c].path@ == path
        && forall|j: int| 0 <= j < c ==> !(entries[j].file_stem@ == stem && entries[j].path@ == path);
    if c < k {
        assert(!(entries[c].file_stem@ == stem && entries[c].path@ == path));
    } else if k < c {
        assert(!(entries[k].file_stem@ == stem && entries[k].path@ == path));
    }
}

proof fn lemma_find_spec_none(entries: Seq<ContentEntry>, stem: Seq<char>, path: Seq<char>)
    requires
        forall|j: int| 0 <= j < entries.len() ==> !(entries[j].file_stem@ == stem && entries[j].path@ == path),
    ensures
        find_spec(entries, stem, path) is None,
{
}


/// How long (ms) a removed file's row stays, in case a replacement arrives.
pub const REMOVAL_GRACE_MS: u64 = 500;

/// Whether a pending removal noticed at `p.1` has waited out its grace at `now`.
pub open spec fn removal_expired(p: (String, u64), now: u64) -> bool {
    now >= p.1 + REMOVAL_GRACE_MS
}

/// Whether the first row with `stem` is still on disk (its path is among `existing`).
pub open spec fn restored(entries: Seq<ContentEntry>, stem: Seq<char>, existing: Seq<String>) -> bool {
    exists|k: int| first_with_stem(entries, stem, k) && crate::stems::has(existing, entries[k].path@)
}

pub open spec fn not_expired(now: u64) -> spec_fn((String, u64)) -> bool {
    |p: (String, u64)| !removal_expired(p, now)
}

pub open spec fn not_in(stems: Set<Seq<char>>) -> spec_fn(ContentEntry) -> bool {
    |e: ContentEntry| !stems.contains(e.file_stem@)
}

/// Moves out the entries whose stem is not in `stems`, in order.
fn entries_without_stems(entries: Vec<ContentEntry>, stems: &StemSet) -> (r: Vec<ContentEntry>)
    ensures
        r@ == entries@.filter(not_in(stems@)),
{
    let ghost orig = entries@;
    let ghost pred = not_in(stems@);
    let mut rest = entries;
    let mut kept: Vec<ContentEntry> = Vec::new();
    let mut consumed: usize = 0;
    assert(orig.len() == rest.len());
    assert(orig.subrange(0, orig.len() as int) =~= orig);
    while rest.len() > 0
        invariant
            consumed + rest@.len() == orig.len(),
            orig.len() <= usize::MAX,
            rest@ == orig.subrange(consumed as int, orig.len() as int),
            kept@ == orig.take(consumed as int).filter(pred),
            pred == not_in(stems@),
        decreases rest@.len(),
    {
        let e = rest.remove(0);
        assert(orig.take(consumed + 1).drop_last() =~= orig.take(consumed as int));
        assert(orig.take(consumed + 1).last() == e);
        reveal_with_fuel(Seq::filter, 1);
        if !stems.contains(e.file_stem.as_str()) {
            kept.push(e);
        }
        consumed = consumed + 1;
        assert(rest@ =~= orig.subrange(consumed as int, orig.len() as int));
    }
    assert(orig.take(orig.len() as int) =~= orig);
    kept
}

impl ContentListState {
    /// The stems whose rows go at time `now`: their removal waited out its grace
    /// and the file is not back on disk.
    pub open spec fn dropped_stems(self, now: u64, existing: Seq<String>) -> Set<Seq<char>> {
        Set::new(|s: Seq<char>| (exists|i: int| 0 <= i < self.pending_removals@.len()
            && self.pending_removals@[i].0@ == s && removal_expired(self.pending_removals@[i], now))
            && !restored(self.entries@, s, existing))
    }

    /// What ending the expired removals at `now` leaves (see `expire_pending_removals`).
    pub open spec fn expired_state(self, before: Self, now: u64, existing: Seq<String>, r: bool) -> bool {
        &&& (self.pending_removals@ == before.pending_removals@.filter(not_expired(now)))
        &&& (self.entries@ == before.entries@.filter(not_in(before.dropped_stems(now, existing))))
        &&& (self.hidden_stems() == before.hidden_stems().difference(before.dropped_stems(now, existing)))
        &&& (self.ready_image_stems() == before.ready_image_stems().difference(before.dropped_stems(now, existing)))
        &&& (self.requested_image_stems() == before.requested_image_stems().difference(before.dropped_stems(now, existing)))
        &&& (r == (self.entries@.len() != before.entries@.len()))
        &&& (r ==> self.images_need_loading() && self.scrollbar_state == self.scrollbar_for())
        &&& (!r ==> self.images_need_loading() == before.images_need_loading()
                && self.scrollbar_state == before.scrollbar_state)
        &&& (self.list_state == before.list_state)
        &&& (self.search == before.search)
        &&& (self.filters_search() == before.filters_search())
        &&& (self.streaming() == before.streaming())
        &&& (self.loading == before.loading)
        &&& (self.loaded_for == before.loaded_for)
        &&& (self.stream_order_spec() == before.stream_order_spec())
    }

    /// Ends the pending removals whose grace is over at `now` (ms): their rows go,
    /// unless the file at the row's path is among `existing` (it came back).
    /// Returns whether rows went.
    pub fn expire_pending_removals(&mut self, now: u64, existing: &Vec<String>) -> (r: bool)
        ensures
            final(self).expired_state(*old(self), now, existing@, r),
    {
        let ghost pend = self.pending_removals@;
        let ghost dropped_spec = self.dropped_stems(now, existing@);
        let ghost keep = not_expired(now);
        let mut dropped = StemSet::new();
        let mut kept: Vec<(String, u64)> = Vec::new();
        let mut rest: Vec<(String, u64)> = Vec::new();
        std::mem::swap(&mut rest, &mut self.pending_removals);
        assert(pend.len() == rest.len());
        assert(pend.subrange(0, pend.len() as int) =~= pend);
        let mut i: usize = 0;
        while rest.len() > 0
            invariant
                i + rest@.len() == pend.len(),
                pend.len() <= usize::MAX,
                rest@ == pend.subrange(i as int, pend.len() as int),
                self.entries == old(self).entries,
                keep == not_expired(now),
                kept@ == pend.take(i as int).filter(keep),
                forall|s: Seq<char>| #[trigger] dropped@.contains(s) <==> ((exists|j: int| 0 <= j < i && pend[j].0@ == s
                    && removal_expired(pend[j], now)) && !restored(self.entries@, s, existing@)),
            decreases rest@.len(),
        {
            let p = rest.remove(0);
            assert(p == pend[i as int]);
            assert(pend.take(i + 1).drop_last() =~= pend.take(i as int));
            assert(pend.take(i + 1).last() == p);
            reveal_with_fuel(Seq::filter, 1);
            let ghost pv = p;
            let expired = now >= p.1 && now - p.1 >= REMOVAL_GRACE_MS;
            if expired {
                let back = match find_stem(&self.entries, p.0.as_str()) {
                    Some(k) => crate::stems::has_exec(existing, self.entries[k].path.as_str()),
                    None => false,
                };
                proof {
                    if back {
                        assert(restored(self.entries@, p.0@, existing@));
                    } else {
                        if restored(self.entries@, p.0@, existing@) {
                            let k = choose|k: int| first_with_stem(self.entries@, p.0@, k) && crate::stems::has(existing@, self.entries@[k].path@);
                            let k2 = choose|k2: int| first_with_stem(self.entries@, p.0@, k2);
                            if k < k2 {
                                assert(self.entries@[k].file_stem@ != p.0@);
                            } else if k2 < k {
                                assert(self.entries@[k2].file_stem@ != p.0@);
                            }
                        }
                    }
                }
                if !back {
                    dropped.insert(p.0);
                }
            } else {
                kept.push(p);
            }
            assert forall|s: Seq<char>| #[trigger] dropped@.contains(s) <==> ((exists|j: int| 0 <= j < i + 1 && pend[j].0@ == s
                && removal_expired(pend[j], now)) && !restored(self.entries@, s, existing@)) by {
                if exists|j: int| 0 <= j < i + 1 && pend[j].0@ == s && removal_expired(pend[j], now) {
                    let j = choose|j: int| 0 <= j < i + 1 && pend[j].0@ == s && removal_expired(pend[j], now);
                    if j < i {
                        assert(exists|j: int| 0 <= j < i && pend[j].0@ == s && removal_expired(pend[j], now));
                    }
                }
                if s == pv.0@ && removal_expired(pv, now) {
                    assert(pend[i as int].0@ == s);
                }
            }
            i = i + 1;
            assert(rest@ =~= pend.subrange(i as int, pend.len() as int));
        }
        assert(pend.take(pend.len() as int) =~= pend);
        assert(dropped@ =~= dropped_spec);
        let before = self.entries.len();
        let mut entries: Vec<ContentEntry> = Vec::new();
        std::mem::swap(&mut entries, &mut self.entries);
        self.entries = entries_without_stems(entries, &dropped);
        self.ready_images.remove_all(&dropped);
        self.requested_images.remove_all(&dropped);
        self.pending_entry_images.remove_all(&dropped);
        let removed = self.entries.len() != before;
        if removed {
            self.images_dirty = true;
            self.update_scrollbar();
        }
        self.pending_removals = kept;
        removed
    }
}


/// A file the watcher saw toggled: its old and new path and whether it is now enabled.
#[derive(Debug)]
pub struct ContentToggle {
    pub old_path: String,
    pub new_path: String,
    pub enabled: bool,
}

/// What taking in a watcher diff asks of the caller: the manifest follows the
/// toggles, and a full reconcile is due when rows appeared or went.
#[derive(Debug)]
pub struct ContentWatcherUpdate {
    pub toggles: Vec<ContentToggle>,
    pub requires_reconcile: bool,
}

pub open spec fn toggle_view(t: ContentToggle) -> (Seq<char>, Seq<char>, bool) {
    (t.old_path@, t.new_path@, t.enabled)
}

/// Whether a removal of `stem` is pending.
pub open spec fn pending_has(p: Seq<(String, u64)>, stem: Seq<char>) -> bool {
    exists|i: int| 0 <= i < p.len() && p[i].0@ == stem
}

pub open spec fn other_stem(stem: Seq<char>) -> spec_fn((String, u64)) -> bool {
    |p: (String, u64)| p.0@ != stem
}

/// `new` is `e` taking over what `prev` showed: the icon when `e` has none, a
/// provider description when `e`'s is blank, and the provider project when `e` has none.
pub open spec fn preserved(new: ContentEntry, e: ContentEntry, prev: ContentEntry) -> bool {
    let take_icon = e.icon_bytes is None;
    let take_description = crate::text::trim_spec(e.description@).len() == 0 && prev.provider_description;
    &&& new == (ContentEntry { icon_bytes: new.icon_bytes, icon_lines: new.icon_lines, provider_icon: new.provider_icon,
        description: new.description, provider_description: new.provider_description, provider_project: new.provider_project, ..e })
    &&& (if take_icon { new.icon_bytes == prev.icon_bytes && new.icon_lines == prev.icon_lines && new.provider_icon == prev.provider_icon }
        else { new.icon_bytes == e.icon_bytes && new.icon_lines == e.icon_lines && new.provider_icon == e.provider_icon })
    &&& (if take_description { new.description == prev.description && new.provider_description }
        else { new.description == e.description && new.provider_description == e.provider_description })
    &&& (if e.provider_project is None { crate::model::opt_project_view(new.provider_project) == crate::model::opt_project_view(prev.provider_project) }
        else { new.provider_project == e.provider_project })
}

/// A set with `old` renamed to `new`, if it held `old`.
pub open spec fn renamed(s: Set<Seq<char>>, old: Seq<char>, new: Seq<char>) -> Set<Seq<char>> {
    if s.contains(old) { s.remove(old).insert(new) } else { s }
}

/// Whether row `i` is the replacement target for a newly added row named `name`:
/// its removal is pending and its name matches ignoring ASCII case.
pub open spec fn replaces(entries: Seq<ContentEntry>, pending: Seq<(String, u64)>, name: Seq<char>, i: int) -> bool {
    0 <= i < entries.len() && pending_has(pending, entries[i].file_stem@)
        && crate::text::eq_ignore_ascii_case_spec(entries[i].name@, name)
}

pub open spec fn first_replacement(entries: Seq<ContentEntry>, pending: Seq<(String, u64)>, name: Seq<char>, i: int) -> bool {
    replaces(entries, pending, name, i) && forall|j: int| 0 <= j < i ==> !replaces(entries, pending, name, j)
}

impl ContentListState {
    /// What taking in one toggle leaves, with the toggle reported (none when no row has the stem).
    pub open spec fn toggle_applied(self, before: Self, t: (String, bool, String), out: Option<(Seq<char>, Seq<char>, bool)>) -> bool {
        let (stem, enabled, path) = t;
        &&& self.pending_removals@ == before.pending_removals@.filter(other_stem(stem@))
        &&& self == (ContentListState { entries: self.entries, pending_removals: self.pending_removals, ..before })
        &&& if exists|k: int| first_with_stem(before.entries@, stem@, k) {
            let k = choose|k: int| first_with_stem(before.entries@, stem@, k);
            let e = before.entries@[k];
            &&& self.entries@ == before.entries@.update(k, ContentEntry { enabled, path, ..e })
            &&& out == Some((if e.path@ == path@ { opposite_toggle_spec(path@, enabled) } else { e.path@ }, path@, enabled))
        } else {
            self.entries == before.entries && out is None
        }
    }

    fn drop_pending(&mut self, stem: &str)
        ensures
            final(self).pending_removals@ == old(self).pending_removals@.filter(other_stem(stem@)),
            *final(self) == (ContentListState { pending_removals: final(self).pending_removals, ..*old(self) }),
    {
        let ghost orig = self.pending_removals@;
        let ghost pred = other_stem(stem@);
        let mut rest: Vec<(String, u64)> = Vec::new();
        std::mem::swap(&mut rest, &mut self.pending_removals);
        let mut kept: Vec<(String, u64)> = Vec::new();
        let mut i: usize = 0;
        assert(orig.len() == rest.len());
        assert(orig.subrange(0, orig.len() as int) =~= orig);
        while rest.len() > 0
            invariant
                i + rest@.len() == orig.len(),
                orig.len() <= usize::MAX,
                rest@ == orig.subrange(i as int, orig.len() as int),
                kept@ == orig.take(i as int).filter(pred),
                pred == other_stem(stem@),
                *self == (ContentListState { pending_removals: self.pending_removals, ..*old(self) }),
            decreases rest@.len(),
        {
            let p = rest.remove(0);
            assert(p == orig[i as int]);
            assert(orig.take(i + 1).drop_last() =~= orig.take(i as int));
            assert(orig.take(i + 1).last() == p);
            reveal_with_fuel(Seq::filter, 1);
            if !str_eq(p.0.as_str(), stem) {
                kept.push(p);
            }
            i = i + 1;
            assert(rest@ =~= orig.subrange(i as int, orig.len() as int));
        }
        assert(orig.take(orig.len() as int) =~= orig);
        self.pending_removals = kept;
    }

    fn apply_watch_toggle(&mut self, t: (String, bool, String)) -> (r: Option<ContentToggle>)
        ensures
            final(self).toggle_applied(*old(self), t, match r { Some(x) => Some(toggle_view(x)), None => None }),
    {
        let ghost tv = t;
        let (stem, enabled, path) = t;
        self.drop_pending(stem.as_str());
        match find_stem(&self.entries, stem.as_str()) {
            Some(k) => {
                let ghost before = self.entries@;
                let mut e = self.entries.remove(k);
                let old_path = if str_eq(e.path.as_str(), path.as_str()) {
                    opposite_toggle_path(path.as_str(), enabled)
                } else {
                    e.path.clone()
                };
                let new_path = path.clone();
                e.enabled = enabled;
                e.path = path;
                self.entries.insert(k, e);
                proof {
                    let kk = choose|kk: int| first_with_stem(before, stem@, kk);
                    if kk < k {
                        assert(before[kk].file_stem@ != stem@);
                    } else if k < kk {
                        assert(before[k as int].file_stem@ != stem@);
                    }
                    assert(self.entries@ =~= before.update(k as int, ContentEntry { enabled, path: tv.2, ..before[k as int] }));
                }
                Some(ContentToggle { old_path, new_path, enabled })
            },
            None => None,
        }
    }

    /// Records that `stem`'s file went at `now`, unless that is already pending.
    fn note_removed(&mut self, stem: String, now: u64)
        ensures
            final(self).pending_removals@ == (if pending_has(old(self).pending_removals@, stem@) {
                old(self).pending_removals@ } else { old(self).pending_removals@.push((stem, now)) }),
            *final(self) == (ContentListState { pending_removals: final(self).pending_removals, ..*old(self) }),
    {
        let mut i: usize = 0;
        while i < self.pending_removals.len()
            invariant
                i <= self.pending_removals@.len(),
                *self == *old(self),
                forall|j: int| 0 <= j < i ==> self.pending_removals@[j].0@ != stem@,
            decreases self.pending_removals@.len() - i,
        {
            if str_eq(self.pending_removals[i].0.as_str(), stem.as_str()) {
                return;
            }
            i = i + 1;
        }
        self.pending_removals.push((stem, now));
    }

    /// What taking in one newly scanned row leaves: it replaces the first row whose
    /// removal is pending and whose name matches (taking over its icon, description
    /// and provider project), or is inserted by name.
    pub open spec fn added_applied(self, before: Self, e: ContentEntry) -> bool {
        if exists|i: int| first_replacement(before.entries@, before.pending_removals@, e.name@, i) {
            let i = choose|i: int| first_replacement(before.entries@, before.pending_removals@, e.name@, i);
            let prev = before.entries@[i];
            &&& self.entries@.len() == before.entries@.len()
            &&& forall|j: int| 0 <= j < before.entries@.len() && j != i ==> self.entries@[j] == before.entries@[j]
            &&& preserved(self.entries@[i], e, prev)
            &&& self.pending_removals@ == before.pending_removals@.filter(other_stem(prev.file_stem@))
            &&& self.ready_image_stems() == renamed(before.ready_image_stems(), prev.file_stem@, e.file_stem@)
            &&& self.requested_image_stems() == renamed(before.requested_image_stems(), prev.file_stem@, e.file_stem@)
            &&& self.hidden_stems() == renamed(before.hidden_stems(), prev.file_stem@, e.file_stem@)
            &&& self.images_need_loading()
        } else {
            &&& exists|p: int| 0 <= p <= before.entries@.len() && self.entries@ == before.entries@.insert(p, e)
            &&& (sorted_by_name(before.entries@) ==> sorted_by_name(self.entries@))
            &&& self.pending_removals == before.pending_removals
            &&& self.ready_image_stems() == before.ready_image_stems()
            &&& self.requested_image_stems() == before.requested_image_stems()
            &&& self.hidden_stems() == (if e.icon_bytes is Some { before.hidden_stems().insert(e.file_stem@) } else { before.hidden_stems() })
            &&& self.images_need_loading() == before.images_need_loading()
        }
    }
}


/// `e` taking over what `prev` showed (see `preserved`).
pub fn preserve_visual_metadata(e: ContentEntry, prev: ContentEntry) -> (r: ContentEntry)
    ensures
        preserved(r, e, prev),
{
    let ghost ev = e;
    let ghost pv = prev;
    let mut e = e;
    let ContentEntry { icon_bytes, icon_lines, provider_icon, description, provider_description, provider_project, .. } = prev;
    if e.icon_bytes.is_none() {
        e.icon_bytes = icon_bytes;
        e.icon_lines = icon_lines;
        e.provider_icon = provider_icon;
    }
    if crate::text::is_blank(e.description.as_str()) && provider_description {
        e.description = description;
        e.provider_description = true;
    }
    if e.provider_project.is_none() {
        e.provider_project = crate::model::opt_project_clone(&provider_project);
    }
    e
}

fn pending_has_exec(p: &Vec<(String, u64)>, stem: &str) -> (r: bool)
    ensures
        r == pending_has(p@, stem@),
{
    let mut i: usize = 0;
    while i < p.len()
        invariant
            i <= p@.len(),
            forall|j: int| 0 <= j < i ==> p@[j].0@ != stem@,
        decreases p@.len() - i,
    {
        if str_eq(p[i].0.as_str(), stem) {
            return true;
        }
        i = i + 1;
    }
    false
}

impl ContentListState {
    fn apply_watch_added(&mut self, e: ContentEntry)
        ensures
            final(self).added_applied(*old(self), e),
            *final(self) == (ContentListState { entries: final(self).entries, pending_removals: final(self).pending_removals,
                ready_images: final(self).ready_images, requested_images: final(self).requested_images,
                pending_entry_images: final(self).pending_entry_images, images_dirty: final(self).images_dirty, ..*old(self) }),
    {
        let mut found: Option<usize> = None;
        let mut i: usize = 0;
        while i < self.entries.len()
            invariant_except_break
                found is None,
            invariant
                i <= self.entries@.len(),
                *self == *old(self),
                forall|j: int| 0 <= j < i ==> !replaces(self.entries@, self.pending_removals@, e.name@, j),
            ensures
                *self == *old(self),
                match found {
                    Some(k) => first_replacement(self.entries@, self.pending_removals@, e.name@, k as int),
                    None => forall|j: int| 0 <= j < self.entries@.len() ==> !replaces(self.entries@, self.pending_removals@, e.name@, j),
                },
            decreases self.entries@.len() - i,
        {
            if pending_has_exec(&self.pending_removals, self.entries[i].file_stem.as_str())
                && crate::text::eq_ignore_ascii_case(self.entries[i].name.as_str(), e.name.as_str()) {
                found = Some(i);
                break;
            }
            i = i + 1;
        }
        match found {
            Some(k) => {
                proof {
                    let kk = choose|kk: int| first_replacement(old(self).entries@, old(self).pending_removals@, e.name@, kk);
                    if kk < k {
                        assert(!replaces(old(self).entries@, old(self).pending_removals@, e.name@, kk));
                    } else if k < kk {
                        assert(!replaces(old(self).entries@, old(self).pending_removals@, e.name@, k as int));
                    }
                }
                let ghost before = self.entries@;
                let prev = self.entries.remove(k);
                let old_stem = prev.file_stem.clone();
                let new_stem = e.file_stem.clone();
                self.drop_pending(old_stem.as_str());
                let entry = preserve_visual_metadata(e, prev);
                let ghost r0 = self.ready_images@;
                let ghost q0 = self.requested_images@;
                let ghost h0 = self.pending_entry_images@;
                if self.ready_images.remove(old_stem.as_str()) {
                    self.ready_images.insert(new_stem.clone());
                }
                if self.requested_images.remove(old_stem.as_str()) {
                    self.requested_images.insert(new_stem.clone());
                }
                if self.pending_entry_images.remove(old_stem.as_str()) {
                    self.pending_entry_images.insert(new_stem.clone());
                }
                let ghost ent = entry;
                self.entries.insert(k, entry);
                self.images_dirty = true;
                proof {
                    assert(self.entries@ =~= before.update(k as int, ent));
                    assert(self.ready_images@ =~= renamed(r0, old_stem@, new_stem@));
                    assert(self.requested_images@ =~= renamed(q0, old_stem@, new_stem@));
                    assert(self.pending_entry_images@ =~= renamed(h0, old_stem@, new_stem@));
                }
            },
            None => {
                if e.icon_bytes.is_some() {
                    self.pending_entry_images.insert(e.file_stem.clone());
                }
                let key = crate::text::to_lowercase(e.name.as_str());
                let pos = insertion_point(&self.entries, key.as_str());
                let ghost before = self.entries@;
                let ghost ev = e;
                self.entries.insert(pos, e);
                proof {
                    let after = self.entries@;
                    assert(after == before.insert(pos as int, ev));
                    if sorted_by_name(before) {
                        assert forall|i: int, j: int| 0 <= i < j < after.len() implies
                            crate::order::seq_le(sort_key(after[i]), sort_key(after[j])) by {
                            if j < pos {
                            } else if j == pos {
                                assert(after[j] == ev);
                            } else if i < pos {
                                assert(after[j] == before[j - 1]);
                                crate::order::lemma_le_trans(sort_key(after[i]), key@, sort_key(after[j]));
                            } else if i == pos {
                                assert(after[j] == before[j - 1]);
                            } else {
                                assert(after[i] == before[i - 1]);
                                assert(after[j] == before[j - 1]);
                            }
                        }
                    }
                }
            },
        }
    }
}


/// The pending removals after noting the removed stems at `now`, in turn.
pub open spec fn noted(p: Seq<(String, u64)>, stems: Seq<String>, now: u64) -> Seq<(String, u64)>
    decreases stems.len(),
{
    if stems.len() == 0 {
        p
    } else {
        let q = noted(p, stems.drop_last(), now);
        if pending_has(q, stems.last()@) { q } else { q.push((stems.last(), now)) }
    }
}

/// The selection kept within `len` rows.
pub open spec fn clamped(selected: Option<usize>, len: nat) -> Option<usize> {
    match selected {
        Some(k) => if len == 0 { None } else if k < len { Some(k) } else { Some((len - 1) as usize) },
        None => None,
    }
}

impl ContentListState {
    /// Takes in what the directory watcher found, at time `now` (ms), with
    /// `existing` the paths still on disk among the rows whose removal is pending.
    /// While rows stream in nothing changes. Otherwise expired removals end, toggles
    /// update their rows, removed stems wait out their grace, and added rows replace
    /// a row whose removal is pending or are inserted by name; the selection stays
    /// within the rows. A reconcile is due when rows went or came, or a toggled
    /// stem has no row.
    pub fn drain_watcher(&mut self, diff: &mut Option<WatcherDiff>, now: u64, existing: &Vec<String>) -> (r: ContentWatcherUpdate)
        ensures
            old(self).streaming() ==> *final(self) == *old(self) && r.toggles@.len() == 0 && !r.requires_reconcile
                && *final(diff) == *old(diff),
            !old(self).streaming() ==> *final(diff) is None,
            !old(self).streaming() ==> exists|s1: Self, expired: bool| {
                &&& #[trigger] s1.expired_state(*old(self), now, existing@, expired)
                &&& match *old(diff) {
                    None => *final(self) == s1 && r.toggles@.len() == 0 && r.requires_reconcile == expired,
                    Some(d) => exists|ts: Seq<Self>, outs: Seq<Option<(Seq<char>, Seq<char>, bool)>>, adds: Seq<Self>|
                        #![trigger ts.len(), outs.len(), adds.len()] {
                        let reconcile = expired || d.added@.len() > 0;
                        &&& ts.len() == d.toggled@.len() + 1
                        &&& outs.len() == d.toggled@.len()
                        &&& ts[0] == (ContentListState { images_dirty: s1.images_dirty || reconcile, ..s1 })
                        &&& forall|i: int| 0 <= i < d.toggled@.len() ==> #[trigger] ts[i + 1].toggle_applied(ts[i], d.toggled@[i], outs[i])
                        &&& r.toggles@.map_values(|t: ContentToggle| toggle_view(t))
                            == outs.filter(|o: Option<(Seq<char>, Seq<char>, bool)>| o is Some)
                                .map_values(|o: Option<(Seq<char>, Seq<char>, bool)>| o->0)
                        &&& r.requires_reconcile == (reconcile || exists|i: int| 0 <= i < outs.len() && outs[i] is None)
                        &&& adds.len() == d.added@.len() + 1
                        &&& adds[0] == (ContentListState { pending_removals: adds[0].pending_removals, ..ts.last() })
                        &&& adds[0].pending_removals@ == noted(ts.last().pending_removals@, d.removed@, now)
                        &&& forall|i: int| 0 <= i < d.added@.len() ==> #[trigger] adds[i + 1].added_applied(adds[i], d.added@[i])
                        &&& final(self).entries == adds.last().entries
                        &&& final(self).list_state.selected == clamped(adds.last().list_state.selected, adds.last().entries@.len())
                        &&& final(self).scrollbar_state == final(self).scrollbar_for()
                        &&& final(self).hidden_stems() == adds.last().hidden_stems()
                        &&& final(self).search == old(self).search
                        &&& final(self).filters_search() == old(self).filters_search()
                    },
                }
            },
    {
        if self.stream_rx.is_some() {
            return ContentWatcherUpdate { toggles: Vec::new(), requires_reconcile: false };
        }
        let mut taken: Option<WatcherDiff> = None;
        std::mem::swap(&mut taken, diff);
        let expired = self.expire_pending_removals(now, existing);
        let ghost s1 = *self;
        let d = match taken {
            Some(d) => d,
            None => {
                return ContentWatcherUpdate { toggles: Vec::new(), requires_reconcile: expired };
            },
        };
        let WatcherDiff { toggled, removed, added } = d;
        let ghost dt = toggled@;
        let ghost dr = removed@;
        let ghost da = added@;
        let reconcile = expired || added.len() > 0;
        if reconcile {
            self.images_dirty = true;
        }
        // toggles
        let ghost mut ts: Seq<ContentListState> = seq![*self];
        let ghost mut outs: Seq<Option<(Seq<char>, Seq<char>, bool)>> = Seq::empty();
        let ghost is_some = |o: Option<(Seq<char>, Seq<char>, bool)>| o is Some;
        let ghost unwrap = |o: Option<(Seq<char>, Seq<char>, bool)>| o->0;
        let mut toggles: Vec<ContentToggle> = Vec::new();
        let mut missing = false;
        let mut rest = toggled;
        let mut i: usize = 0;
        assert(dt.subrange(0, dt.len() as int) =~= dt);
        assert(dt.len() == rest.len());
        assert(toggles@.map_values(|t: ContentToggle| toggle_view(t)) =~= outs.filter(is_some).map_values(unwrap));
        while rest.len() > 0
            invariant
                i + rest@.len() == dt.len(),
                dt.len() <= usize::MAX,
                rest@ == dt.subrange(i as int, dt.len() as int),
                ts.len() == i + 1,
                outs.len() == i,
                ts[0] == (ContentListState { images_dirty: s1.images_dirty || reconcile, ..s1 }),
                ts.last() == *self,
                forall|j: int| 0 <= j < i ==> #[trigger] ts[j + 1].toggle_applied(ts[j], dt[j], outs[j]),
                is_some == (|o: Option<(Seq<char>, Seq<char>, bool)>| o is Some),
                unwrap == (|o: Option<(Seq<char>, Seq<char>, bool)>| o->0),
                toggles@.map_values(|t: ContentToggle| toggle_view(t)) == outs.filter(is_some).map_values(unwrap),
                missing == exists|j: int| 0 <= j < outs.len() && outs[j] is None,
                self.search == old(self).search,
                self.filters_search() == old(self).filters_search(),
                !self.streaming(),
            decreases rest@.len(),
        {
            let t = rest.remove(0);
            assert(t == dt[i as int]);
            let ghost before = *self;
            let out = self.apply_watch_toggle(t);
            let ghost gout = out;
            let ghost ov = match gout { Some(x) => Some(toggle_view(x)), None => None };
            let ghost old_ts = ts;
            let ghost old_outs = outs;
            proof {
                ts = ts.push(*self);
                outs = outs.push(ov);
                assert forall|j: int| 0 <= j < i + 1 implies #[trigger] ts[j + 1].toggle_applied(ts[j], dt[j], outs[j]) by {
                    if j < i {
                        assert(ts[j + 1] == old_ts[j + 1] && ts[j] == old_ts[j] && outs[j] == old_outs[j]);
                    } else {
                        assert(ts[j] == before);
                    }
                }
                reveal_with_fuel(Seq::filter, 1);
                assert(outs.drop_last() =~= old_outs);
            }
            let ghost t0 = toggles@;
            match out {
                Some(x) => {
                    toggles.push(x);
                    proof {
                        assert(outs.filter(is_some) == old_outs.filter(is_some).push(ov));
                        assert(toggles@.map_values(|t: ContentToggle| toggle_view(t))
                            =~= t0.map_values(|t: ContentToggle| toggle_view(t)).push(ov->0));
                    }
                },
                None => {
                    missing = true;
                    proof {
                        assert(outs.filter(is_some) == old_outs.filter(is_some));
                        assert(outs[i as int] is None);
                    }
                },
            }
            proof {
                if missing {
                    if exists|j: int| 0 <= j < old_outs.len() && old_outs[j] is None {
                        let j = choose|j: int| 0 <= j < old_outs.len() && old_outs[j] is None;
                        assert(outs[j] is None);
                    }
                } else {
                    assert forall|j: int| 0 <= j < outs.len() implies outs[j] is Some by {
                        if j < i {
                            assert(outs[j] == old_outs[j]);
                        }
                    }
                }
            }
            i = i + 1;
            assert(rest@ =~= dt.subrange(i as int, dt.len() as int));
        }
        assert(dt.take(dt.len() as int) =~= dt);
        // removed stems
        let ghost t_last = *self;
        let mut rest_removed = removed;
        let mut k: usize = 0;
        assert(dr.subrange(0, dr.len() as int) =~= dr);
        assert(dr.take(0) =~= Seq::<String>::empty());
        assert(dr.len() == rest_removed.len());
        while rest_removed.len() > 0
            invariant
                k + rest_removed@.len() == dr.len(),
                dr.len() <= usize::MAX,
                rest_removed@ == dr.subrange(k as int, dr.len() as int),
                *self == (ContentListState { pending_removals: self.pending_removals, ..t_last }),
                self.pending_removals@ == noted(t_last.pending_removals@, dr.take(k as int), now),
            decreases rest_removed@.len(),
        {
            let stem = rest_removed.remove(0);
            assert(stem == dr[k as int]);
            assert(dr.take(k + 1).drop_last() =~= dr.take(k as int));
            assert(dr.take(k + 1).last() == stem);
            self.note_removed(stem, now);
            k = k + 1;
            assert(rest_removed@ =~= dr.subrange(k as int, dr.len() as int));
        }
        assert(dr.take(dr.len() as int) =~= dr);
        // added rows
        let ghost mut adds: Seq<ContentListState> = seq![*self];
        let mut rest_added = added;
        let mut m: usize = 0;
        assert(da.subrange(0, da.len() as int) =~= da);
        assert(da.len() == rest_added.len());
        while rest_added.len() > 0
            invariant
                m + rest_added@.len() == da.len(),
                da.len() <= usize::MAX,
                rest_added@ == da.subrange(m as int, da.len() as int),
                adds.len() == m + 1,
                adds[0] == (ContentListState { pending_removals: adds[0].pending_removals, ..t_last }),
                adds[0].pending_removals@ == noted(t_last.pending_removals@, dr, now),
                adds.last() == *self,
                forall|j: int| 0 <= j < m ==> #[trigger] adds[j + 1].added_applied(adds[j], da[j]),
                self.search == old(self).search,
                self.filters_search() == old(self).filters_search(),
            decreases rest_added@.len(),
        {
            let e = rest_added.remove(0);
            assert(e == da[m as int]);
            let ghost before = *self;
            self.apply_watch_added(e);
            let ghost old_adds = adds;
            proof {
                adds = adds.push(*self);
                assert forall|j: int| 0 <= j < m + 1 implies #[trigger] adds[j + 1].added_applied(adds[j], da[j]) by {
                    if j < m {
                        assert(adds[j + 1] == old_adds[j + 1] && adds[j] == old_adds[j]);
                    } else {
                        assert(adds[j] == before);
                    }
                }
            }
            m = m + 1;
            assert(rest_added@ =~= da.subrange(m as int, da.len() as int));
        }
        // keep the selection within the rows
        let ghost a_last = *self;
        if let Some(sel) = self.list_state.selected {
            if self.entries.len() == 0 {
                self.list_state.selected = None;
            } else {
                let last = self.entries.len() - 1;
                self.list_state.selected = Some(if sel < last { sel } else { last });
            }
        }
        self.update_scrollbar();
        proof {
            assert(ts.len() == dt.len() + 1);
            assert(adds.len() == da.len() + 1);
        }
        ContentWatcherUpdate { toggles, requires_reconcile: reconcile || missing }
    }
}

// ---------------------------------------------------------------- manifest

/// The project the content manifest gives a row: none (the row is left alone)
/// when its file does not lie below `dir`; else the project of the file's record
/// when that record is of `kind`, and no project without such a record.
pub open spec fn manifest_project(
    e: ContentEntry,
    files: Seq<crate::model::ContentFileRecord>,
    dir: Seq<char>,
    kind: crate::model::ContentKind,
) -> Option<Option<crate::model::ProjectRef>> {
    match crate::path::strip_dir_spec(e.path@, dir) {
        None => None,
        Some(rel) => match crate::model::record_at_from(files, rel, 0) {
            Some(k) => if files[k].kind == kind { Some(opt_project_view(files[k].project)) } else { Some(None) },
            None => Some(None),
        },
    }
}

/// The manifest gives the row a project other than its own.
pub open spec fn manifest_changes(
    e: ContentEntry,
    files: Seq<crate::model::ContentFileRecord>,
    dir: Seq<char>,
    kind: crate::model::ContentKind,
) -> bool {
    manifest_project(e, files, dir, kind) matches Some(p) && p != opt_project_view(e.provider_project)
}

/// `n` is row `e` with project `p`: it loses the update badge, and the icon and
/// description that its former project gave it.
pub open spec fn reprojected(e: ContentEntry, n: ContentEntry, p: Option<crate::model::ProjectRef>) -> bool {
    &&& n == (ContentEntry {
        provider_project: n.provider_project,
        title_suffix: n.title_suffix,
        icon_bytes: n.icon_bytes,
        icon_lines: n.icon_lines,
        provider_icon: n.provider_icon,
        description: n.description,
        provider_description: n.provider_description,
        ..e
    })
    &&& opt_project_view(n.provider_project) == p
    &&& n.title_suffix == (if opt_view(e.title_suffix) == Some("Update"@) { None } else { e.title_suffix })
    &&& if e.provider_icon {
        &&& n.icon_bytes is None
        &&& n.icon_lines matches Some(l) && l@.len() == crate::model::fallback_icon_rows()
        &&& !n.provider_icon
    } else {
        n.icon_bytes == e.icon_bytes && n.icon_lines == e.icon_lines && n.provider_icon == e.provider_icon
    }
    &&& if e.provider_description {
        n.description@.len() == 0 && !n.provider_description
    } else {
        n.description == e.description && n.provider_description == e.provider_description
    }
}

/// The stems of the rows whose provider icon the manifest takes away.
pub open spec fn manifest_invalidated(
    entries: Seq<ContentEntry>,
    files: Seq<crate::model::ContentFileRecord>,
    dir: Seq<char>,
    kind: crate::model::ContentKind,
    n: int,
) -> Set<Seq<char>> {
    Set::new(|s: Seq<char>| exists|i: int| 0 <= i < n && manifest_changes(entries[i], files, dir, kind)
        && #[trigger] entries[i].provider_icon && entries[i].file_stem@ == s)
}

impl ContentListState {
    /// Follows the content manifest of the instance whose Minecraft directory is
    /// `minecraft_dir`, for rows of `kind`: each row below that directory takes the
    /// project its file is recorded as, and a row whose project changes loses its
    /// update badge and what its former project gave it (icon, description); the
    /// images of those rows are dropped. Returns whether any row changed.
    pub fn apply_manifest(&mut self, manifest: &crate::model::ContentManifest, minecraft_dir: &str, kind: crate::model::ContentKind)
        -> (changed: bool)
        ensures
            final(self).entries@.len() == old(self).entries@.len(),
            forall|i: int| 0 <= i < old(self).entries@.len() ==> {
                let e = old(self).entries@[i];
                if manifest_changes(e, manifest.files@, minecraft_dir@, kind) {
                    reprojected(e, #[trigger] final(self).entries@[i], manifest_project(e, manifest.files@, minecraft_dir@, kind)->0)
                } else {
                    final(self).entries@[i] == e
                }
            },
            changed == exists|i: int| 0 <= i < old(self).entries@.len()
                && #[trigger] manifest_changes(old(self).entries@[i], manifest.files@, minecraft_dir@, kind),
            final(self).hidden_stems() == old(self).hidden_stems().difference(
                manifest_invalidated(old(self).entries@, manifest.files@, minecraft_dir@, kind, old(self).entries@.len() as int)),
            final(self).requested_image_stems() == old(self).requested_image_stems().difference(
                manifest_invalidated(old(self).entries@, manifest.files@, minecraft_dir@, kind, old(self).entries@.len() as int)),
            final(self).ready_image_stems() == old(self).ready_image_stems().difference(
                manifest_invalidated(old(self).entries@, manifest.files@, minecraft_dir@, kind, old(self).entries@.len() as int)),
            final(self).list_state == old(self).list_state,
            final(self).search == old(self).search,
            final(self).filters_search() == old(self).filters_search(),
            final(self).loading == old(self).loading,
            final(self).loaded_for == old(self).loaded_for,
            final(self).streaming() == old(self).streaming(),
            final(self).page_layout() == old(self).page_layout(),
    {
        let ghost old_entries = self.entries@;
        let ghost files = manifest.files@;
        let ghost dir = minecraft_dir@;
        let mut invalidated = StemSet::new();
        let mut changed = false;
        let mut i: usize = 0;
        while i < self.entries.len()
            invariant
                i <= self.entries@.len(),
                self.entries@.len() == old_entries.len(),
                old_entries == old(self).entries@,
                files == manifest.files@,
                dir == minecraft_dir@,
                forall|j: int| 0 <= j < old_entries.len() ==> {
                    let e = old_entries[j];
                    &&& (j < i ==> if manifest_changes(e, files, dir, kind) {
                        reprojected(e, #[trigger] self.entries@[j], manifest_project(e, files, dir, kind)->0)
                    } else {
                        self.entries@[j] == e
                    })
                    &&& (j >= i ==> self.entries@[j] == e)
                },
                changed == exists|j: int| 0 <= j < i && #[trigger] manifest_changes(old_entries[j], files, dir, kind),
                invalidated@ == manifest_invalidated(old_entries, files, dir, kind, i as int),
                self.list_state == old(self).list_state,
                self.search == old(self).search,
                self.filter_search == old(self).filter_search,
                self.loading == old(self).loading,
                self.loaded_for == old(self).loaded_for,
                self.stream_rx == old(self).stream_rx,
                self.pagination == old(self).pagination,
                self.pending_entry_images == old(self).pending_entry_images,
                self.requested_images == old(self).requested_images,
                self.ready_images == old(self).ready_images,
            decreases self.entries@.len() - i,
        {
            let project: Option<Option<crate::model::ProviderProject>> = match crate::path::strip_dir(
                self.entries[i].path.as_str(),
                minecraft_dir,
            ) {
                None => None,
                Some(rel) => match manifest.record(rel.as_str()) {
                    Some(k) => if manifest.files[k].kind == kind {
                        Some(crate::model::opt_project_clone(&manifest.files[k].project))
                    } else {
                        Some(None)
                    },
                    None => Some(None),
                },
            };
            let ghost e = old_entries[i as int];
            let ghost before = invalidated@;
            let differs = match &project {
                Some(p) => !crate::model::opt_project_eq(p, &self.entries[i].provider_project),
                None => false,
            };
            assert(differs == manifest_changes(e, files, dir, kind));
            if differs {
                let mut entry = self.entries.remove(i);
                if let Some(suffix) = &entry.title_suffix {
                    if str_eq(suffix.as_str(), "Update") {
                        entry.title_suffix = None;
                    }
                }
                if entry.provider_icon {
                    entry.icon_bytes = None;
                    entry.icon_lines = Some(crate::model::fallback_icon());
                    entry.provider_icon = false;
                    invalidated.insert(entry.file_stem.clone());
                }
                if entry.provider_description {
                    entry.description = String::new();
                    entry.provider_description = false;
                }
                entry.provider_project = match project {
                    Some(p) => p,
                    None => None,
                };
                proof {
                    reveal_strlit("Update");
                }
                self.entries.insert(i, entry);
                changed = true;
            }
            proof {
                assert forall|s: Seq<char>| invalidated@.contains(s) == manifest_invalidated(old_entries, files, dir, kind, i + 1).contains(s) by {
                    if manifest_invalidated(old_entries, files, dir, kind, i + 1).contains(s) {
                        let w = choose|w: int| 0 <= w < i + 1 && manifest_changes(old_entries[w], files, dir, kind)
                            && #[trigger] old_entries[w].provider_icon && old_entries[w].file_stem@ == s;
                        if w < i {
                            assert(before.contains(s));
                        }
                    }
                    if before.contains(s) {
                        let w = choose|w: int| 0 <= w < i && manifest_changes(old_entries[w], files, dir, kind)
                            && #[trigger] old_entries[w].provider_icon && old_entries[w].file_stem@ == s;
                        assert(manifest_invalidated(old_entries, files, dir, kind, i + 1).contains(s));
                    }
                }
                assert(invalidated@ =~= manifest_invalidated(old_entries, files, dir, kind, i + 1));
            }
            i = i + 1;
        }
        self.pending_entry_images.remove_all(&invalidated);
        self.requested_images.remove_all(&invalidated);
        self.ready_images.remove_all(&invalidated);
        changed
    }
}

// ---------------------------------------------------------------- updates and provider metadata

/// The badge of a row after an update check: "Update" when its provider project
/// is among those with an update, none otherwise.
pub open spec fn update_badge(e: ContentEntry, outdated: Seq<crate::model::ProjectRef>) -> Option<Seq<char>> {
    match e.provider_project {
        Some(p) => if outdated.contains(p@) { Some("Update"@) } else { None },
        None => None,
    }
}

/// Whether `p` is in `v`.
fn project_listed(v: &Vec<crate::model::ProviderProject>, p: &crate::model::ProviderProject) -> (r: bool)
    ensures
        r == crate::discovery::refs(v@).contains(p@),
{
    let mut i: usize = 0;
    while i < v.len()
        invariant
            i <= v@.len(),
            forall|j: int| 0 <= j < i ==> v@[j]@ != p@,
        decreases v@.len() - i,
    {
        if v[i].equals(p) {
            assert(crate::discovery::refs(v@)[i as int] == p@);
            return true;
        }
        i = i + 1;
    }
    assert forall|j: int| 0 <= j < crate::discovery::refs(v@).len() implies crate::discovery::refs(v@)[j] != p@ by {
        assert(crate::discovery::refs(v@)[j] == v@[j]@);
    }
    false
}

/// Provider metadata for a project: its icon and description.
#[derive(Debug)]
pub struct PendingProviderIcon {
    pub provider: String,
    pub project_id: String,
    pub bytes: Vec<u8>,
    pub description: String,
}

/// What provider metadata can fill in a row: its icon, whether the icon came from
/// the provider, its description, whether the description came from the provider.
pub type MetaView = (Option<Seq<u8>>, bool, Seq<char>, bool);

pub open spec fn meta_view(e: ContentEntry) -> MetaView {
    (opt_bytes_view(e.icon_bytes), e.provider_icon, e.description@, e.provider_description)
}

/// The metadata `m` is for the project of a row with provider project `p`.
pub open spec fn metadata_for(p: Option<crate::model::ProjectRef>, m: PendingProviderIcon) -> bool {
    p matches Some(p) && p.provider == m.provider@ && p.project_id == m.project_id@
}

/// What metadata `m` fills in for a row of project `p`: a non-empty icon where
/// the row has none, a non-blank description where its own is blank.
pub open spec fn with_metadata(v: MetaView, p: Option<crate::model::ProjectRef>, m: PendingProviderIcon) -> MetaView {
    if metadata_for(p, m) {
        let icon = v.0 is None && m.bytes@.len() > 0;
        let text = crate::text::trim_spec(v.2).len() == 0 && crate::text::trim_spec(m.description@).len() > 0;
        (
            if icon { Some(m.bytes@) } else { v.0 },
            if icon { true } else { v.1 },
            if text { m.description@ } else { v.2 },
            if text { true } else { v.3 },
        )
    } else {
        v
    }
}

/// Whether metadata `m` changes a row of project `p`.
pub open spec fn metadata_changes(v: MetaView, p: Option<crate::model::ProjectRef>, m: PendingProviderIcon) -> bool {
    metadata_for(p, m) && ((v.0 is None && m.bytes@.len() > 0)
        || (crate::text::trim_spec(v.2).len() == 0 && crate::text::trim_spec(m.description@).len() > 0))
}

/// What the metadata `ms` fill in, in order.
pub open spec fn with_all_metadata(v: MetaView, p: Option<crate::model::ProjectRef>, ms: Seq<PendingProviderIcon>) -> MetaView
    decreases ms.len(),
{
    if ms.len() == 0 {
        v
    } else {
        with_metadata(with_all_metadata(v, p, ms.drop_last()), p, ms.last())
    }
}

/// Some metadata of `ms` changes the row on the way.
pub open spec fn all_metadata_changes(v: MetaView, p: Option<crate::model::ProjectRef>, ms: Seq<PendingProviderIcon>) -> bool
    decreases ms.len(),
{
    if ms.len() == 0 {
        false
    } else {
        all_metadata_changes(v, p, ms.drop_last()) || metadata_changes(with_all_metadata(v, p, ms.drop_last()), p, ms.last())
    }
}

/// `n` is row `e` with only what provider metadata fills in changed, to `v`.
pub open spec fn meta_filled(e: ContentEntry, n: ContentEntry, v: MetaView) -> bool {
    &&& n == (ContentEntry {
        icon_bytes: n.icon_bytes,
        provider_icon: n.provider_icon,
        description: n.description,
        provider_description: n.provider_description,
        ..e
    })
    &&& meta_view(n) == v
}

impl ContentListState {
    /// Marks the rows whose provider project is among `outdated` (the installed
    /// projects the update check found a newer version for) with an "Update"
    /// badge, and takes the badge from the others. Returns whether a badge changed.
    pub fn apply_update_snapshot(&mut self, outdated: &Vec<crate::model::ProviderProject>) -> (changed: bool)
        ensures
            final(self).entries@.len() == old(self).entries@.len(),
            forall|i: int| 0 <= i < old(self).entries@.len() ==> {
                let e = old(self).entries@[i];
                let n = #[trigger] final(self).entries@[i];
                &&& n == (ContentEntry { title_suffix: n.title_suffix, ..e })
                &&& opt_view(n.title_suffix) == update_badge(e, crate::discovery::refs(outdated@))
                &&& opt_view(e.title_suffix) == update_badge(e, crate::discovery::refs(outdated@)) ==> n.title_suffix == e.title_suffix
            },
            changed == exists|i: int| 0 <= i < old(self).entries@.len()
                && opt_view(#[trigger] old(self).entries@[i].title_suffix) != update_badge(old(self).entries@[i], crate::discovery::refs(outdated@)),
            *final(self) == (ContentListState { entries: final(self).entries, ..*old(self) }),
    {
        let ghost old_entries = self.entries@;
        let ghost out = crate::discovery::refs(outdated@);
        let mut changed = false;
        let mut i: usize = 0;
        proof { reveal_strlit("Update"); }
        while i < self.entries.len()
            invariant
                i <= self.entries@.len(),
                self.entries@.len() == old_entries.len(),
                old_entries == old(self).entries@,
                out == crate::discovery::refs(outdated@),
                "Update"@ == seq!['U', 'p', 'd', 'a', 't', 'e'],
                *self == (ContentListState { entries: self.entries, ..*old(self) }),
                forall|j: int| 0 <= j < old_entries.len() ==> {
                    let e = old_entries[j];
                    let n = #[trigger] self.entries@[j];
                    &&& (j < i ==> {
                        &&& n == (ContentEntry { title_suffix: n.title_suffix, ..e })
                        &&& opt_view(n.title_suffix) == update_badge(e, out)
                        &&& opt_view(e.title_suffix) == update_badge(e, out) ==> n.title_suffix == e.title_suffix
                    })
                    &&& (j >= i ==> n == e)
                },
                changed == exists|j: int| 0 <= j < i && opt_view(#[trigger] old_entries[j].title_suffix) != update_badge(old_entries[j], out),
            decreases self.entries@.len() - i,
        {
            let update = match &self.entries[i].provider_project {
                Some(p) => project_listed(outdated, p),
                None => false,
            };
            let same = match &self.entries[i].title_suffix {
                Some(t) => update && str_eq(t.as_str(), "Update"),
                None => !update,
            };
            if !same {
                let mut entry = self.entries.remove(i);
                entry.title_suffix = if update { Some(owned("Update")) } else { None };
                self.entries.insert(i, entry);
                changed = true;
            }
            i = i + 1;
        }
        changed
    }

    /// Takes in provider metadata that finished loading, in order: rows of each
    /// project take its icon and description where they have none. Returns
    /// whether a row changed; the list's images then need loading.
    pub fn drain_provider_icons(&mut self, pending: Vec<PendingProviderIcon>) -> (changed: bool)
        ensures
            final(self).entries@.len() == old(self).entries@.len(),
            forall|i: int| 0 <= i < old(self).entries@.len() ==> {
                let e = old(self).entries@[i];
                meta_filled(e, #[trigger] final(self).entries@[i], with_all_metadata(meta_view(e), e.project(), pending@))
            },
            changed == exists|i: int| 0 <= i < old(self).entries@.len()
                && all_metadata_changes(meta_view(#[trigger] old(self).entries@[i]), old(self).entries@[i].project(), pending@),
            changed ==> final(self).images_need_loading(),
            !changed ==> final(self).images_need_loading() == old(self).images_need_loading(),
            *final(self) == (ContentListState { entries: final(self).entries, images_dirty: final(self).images_dirty, ..*old(self) }),
    {
        let ghost old_entries = self.entries@;
        let ghost ms = pending@;
        let mut changed = false;
        let mut k: usize = 0;
        while k < pending.len()
            invariant
                k <= pending@.len(),
                ms == pending@,
                self.entries@.len() == old_entries.len(),
                old_entries == old(self).entries@,
                *self == (ContentListState { entries: self.entries, ..*old(self) }),
                forall|j: int| 0 <= j < old_entries.len() ==> {
                    let e = old_entries[j];
                    meta_filled(e, #[trigger] self.entries@[j], with_all_metadata(meta_view(e), e.project(), ms.take(k as int)))
                },
                changed == exists|j: int| 0 <= j < old_entries.len()
                    && all_metadata_changes(meta_view(#[trigger] old_entries[j]), old_entries[j].project(), ms.take(k as int)),
            decreases pending@.len() - k,
        {
            let m = &pending[k];
            let ghost before = self.entries@;
            let ghost was = changed;
            proof {
                assert(ms.take(k as int + 1).drop_last() =~= ms.take(k as int));
                assert(ms.take(k as int + 1).last() == ms[k as int]);
            }
            let mut i: usize = 0;
            while i < self.entries.len()
                invariant
                    i <= self.entries@.len(),
                    self.entries@.len() == before.len(),
                    before.len() == old_entries.len(),
                    k < pending@.len(),
                    *m == pending@[k as int],
                    *self == (ContentListState { entries: self.entries, ..*old(self) }),
                    forall|j: int| 0 <= j < before.len() ==> {
                        &&& (j < i ==> meta_filled(old_entries[j], #[trigger] self.entries@[j],
                            with_metadata(meta_view(before[j]), old_entries[j].project(), *m)))
                        &&& (j >= i ==> self.entries@[j] == before[j])
                    },
                    forall|j: int| 0 <= j < before.len() ==> {
                        let e = old_entries[j];
                        meta_filled(e, #[trigger] before[j], with_all_metadata(meta_view(e), e.project(), ms.take(k as int)))
                    },
                    changed == (was || exists|j: int| 0 <= j < i
                        && metadata_changes(meta_view(#[trigger] before[j]), old_entries[j].project(), *m)),
                decreases self.entries@.len() - i,
            {
                assert(before[i as int] == self.entries@[i as int]);
                let matches = match &self.entries[i].provider_project {
                    Some(p) => str_eq(p.provider.as_str(), m.provider.as_str()) && str_eq(p.project_id.as_str(), m.project_id.as_str()),
                    None => false,
                };
                if matches {
                    let icon = self.entries[i].icon_bytes.is_none() && m.bytes.len() > 0;
                    let text = crate::text::is_blank(self.entries[i].description.as_str())
                        && !crate::text::is_blank(m.description.as_str());
                    if icon || text {
                        let mut entry = self.entries.remove(i);
                        if icon {
                            entry.icon_bytes = Some(m.bytes.clone());
                            entry.provider_icon = true;
                        }
                        if text {
                            entry.description = m.description.clone();
                            entry.provider_description = true;
                        }
                        self.entries.insert(i, entry);
                        changed = true;
                    }
                }
                i = i + 1;
            }
            proof {
                assert forall|j: int| 0 <= j < old_entries.len() implies
                    all_metadata_changes(meta_view(#[trigger] old_entries[j]), old_entries[j].project(), ms.take(k as int + 1))
                    == (all_metadata_changes(meta_view(old_entries[j]), old_entries[j].project(), ms.take(k as int))
                        || metadata_changes(meta_view(before[j]), old_entries[j].project(), *m)) by {
                    assert(meta_filled(old_entries[j], before[j], with_all_metadata(meta_view(old_entries[j]), old_entries[j].project(), ms.take(k as int))));
                }
            }
            k = k + 1;
        }
        assert(ms.take(ms.len() as int) =~= ms);
        if changed {
            self.images_dirty = true;
        }
        changed
    }
}

// ---------------------------------------------------------------- visible provider projects

/// Projects ordered by provider, then project id, as strings compare.
pub open spec fn key_lt(a: crate::model::ProjectRef, b: crate::model::ProjectRef) -> bool {
    crate::order::seq_lt(a.provider, b.provider) || (a.provider == b.provider && crate::order::seq_lt(a.project_id, b.project_id))
}

pub open spec fn same_key(a: crate::model::ProjectRef, b: crate::model::ProjectRef) -> bool {
    a.provider == b.provider && a.project_id == b.project_id
}

proof fn lemma_key_total(a: crate::model::ProjectRef, b: crate::model::ProjectRef)
    ensures
        key_lt(a, b) || key_lt(b, a) || same_key(a, b),
        !(key_lt(a, b) && key_lt(b, a)),
        !(key_lt(a, b) && same_key(a, b)),
{
    crate::order::lemma_lt_total(a.provider, b.provider);
    crate::order::lemma_lt_total(a.project_id, b.project_id);
    crate::order::lemma_lt_asym(a.provider, b.provider);
    crate::order::lemma_lt_asym(a.project_id, b.project_id);
    crate::order::lemma_lt_irrefl(a.provider);
    crate::order::lemma_lt_irrefl(a.project_id);
}

proof fn lemma_key_trans(a: crate::model::ProjectRef, b: crate::model::ProjectRef, c: crate::model::ProjectRef)
    requires
        key_lt(a, b),
        key_lt(b, c),
    ensures
        key_lt(a, c),
{
    if crate::order::seq_lt(a.provider, b.provider) {
        if crate::order::seq_lt(b.provider, c.provider) {
            crate::order::lemma_lt_trans(a.provider, b.provider, c.provider);
        }
    } else if crate::order::seq_lt(b.provider, c.provider) {
    } else {
        crate::order::lemma_lt_trans(a.project_id, b.project_id, c.project_id);
    }
}

/// Keys strictly increase along `r`.
pub open spec fn keys_sorted(r: Seq<crate::model::ProjectRef>) -> bool {
    forall|a: int, b: int| 0 <= a < b < r.len() ==> key_lt(r[a], r[b])
}

/// No project before position `j` of `c` has the key of the one at `j`.
pub open spec fn first_with_key(c: Seq<crate::model::ProjectRef>, j: int) -> bool {
    forall|k: int| 0 <= k < j ==> !same_key(#[trigger] c[k], c[j])
}

/// `x` is a project of `c`, the first there with its key.
pub open spec fn is_first(c: Seq<crate::model::ProjectRef>, x: crate::model::ProjectRef) -> bool {
    exists|j: int| 0 <= j < c.len() && #[trigger] c[j] == x && first_with_key(c, j)
}

/// Some project of `r` has the key of `x`.
pub open spec fn has_key(r: Seq<crate::model::ProjectRef>, x: crate::model::ProjectRef) -> bool {
    exists|i: int| 0 <= i < r.len() && same_key(#[trigger] r[i], x)
}

/// Each project of `r` is the first of `c` with its key.
pub open spec fn firsts_of(r: Seq<crate::model::ProjectRef>, c: Seq<crate::model::ProjectRef>) -> bool {
    forall|i: int| 0 <= i < r.len() ==> is_first(c, #[trigger] r[i])
}

/// Every key of `c` is in `r`.
pub open spec fn covers(r: Seq<crate::model::ProjectRef>, c: Seq<crate::model::ProjectRef>) -> bool {
    forall|j: int| 0 <= j < c.len() ==> has_key(r, #[trigger] c[j])
}

/// `r` lists the keys of `c` once each, in key order, each as the first project
/// of `c` with that key.
pub open spec fn sorted_first_of_each(r: Seq<crate::model::ProjectRef>, c: Seq<crate::model::ProjectRef>) -> bool {
    keys_sorted(r) && firsts_of(r, c) && covers(r, c)
}

proof fn lemma_sorted_insert(before: Seq<crate::model::ProjectRef>, pos: int, p: crate::model::ProjectRef)
    requires
        keys_sorted(before),
        0 <= pos <= before.len(),
        forall|i: int| 0 <= i < pos ==> key_lt(#[trigger] before[i], p),
        pos < before.len() ==> key_lt(p, before[pos]),
    ensures
        keys_sorted(before.insert(pos, p)),
        forall|i: int| 0 <= i < before.len() ==> !same_key(#[trigger] before[i], p),
{
    let after = before.insert(pos, p);
    assert forall|i: int| 0 <= i < before.len() implies !same_key(#[trigger] before[i], p) by {
        lemma_key_total(before[i], p);
        lemma_key_total(p, before[i]);
        if i > pos {
            lemma_key_trans(p, before[pos], before[i]);
        }
    }
    assert forall|a: int, b: int| 0 <= a < b < after.len() implies key_lt(after[a], after[b]) by {
        if b < pos {
        } else if b == pos {
        } else if a == pos {
            if b - 1 > pos {
                lemma_key_trans(p, before[pos], before[b - 1]);
            }
        } else if a < pos {
            if b - 1 > pos {
                lemma_key_trans(p, before[pos], before[b - 1]);
            }
            lemma_key_trans(before[a], p, before[b - 1]);
        } else {
        }
    }
}

fn key_compare(a: &crate::model::ProviderProject, b: &crate::model::ProviderProject) -> (r: i8)
    ensures
        r == -1 <==> key_lt(a@, b@),
        r == 0 <==> same_key(a@, b@),
        r == 1 <==> key_lt(b@, a@),
        r == -1 || r == 0 || r == 1,
{
    proof {
        lemma_key_total(a@, b@);
        lemma_key_total(b@, a@);
        crate::order::lemma_lt_asym(a@.provider, b@.provider);
        crate::order::lemma_lt_irrefl(a@.provider);
    }
    let c = crate::order::compare_str(a.provider.as_str(), b.provider.as_str());
    if c != 0 {
        return c;
    }
    crate::order::compare_str(a.project_id.as_str(), b.project_id.as_str())
}

/// Adds `p` to the key-ordered `out` unless its key is already there.
fn insert_by_key(out: &mut Vec<crate::model::ProviderProject>, p: crate::model::ProviderProject)
    requires
        keys_sorted(crate::discovery::refs(old(out)@)),
    ensures
        keys_sorted(crate::discovery::refs(final(out)@)),
        (exists|i: int| 0 <= i < old(out)@.len() && same_key(old(out)@[i]@, p@)) ==> final(out)@ == old(out)@,
        !(exists|i: int| 0 <= i < old(out)@.len() && same_key(old(out)@[i]@, p@)) ==> exists|pos: int|
            0 <= pos <= old(out)@.len() && final(out)@ == old(out)@.insert(pos, p),
{
    let ghost v = crate::discovery::refs(out@);
    let mut pos: usize = 0;
    while pos < out.len()
        invariant_except_break
            forall|i: int| 0 <= i < pos ==> key_lt(#[trigger] v[i], p@),
        invariant
            pos <= out@.len(),
            out@ == old(out)@,
            v == crate::discovery::refs(out@),
            keys_sorted(v),
        ensures
            forall|i: int| 0 <= i < pos ==> key_lt(#[trigger] v[i], p@),
            pos < out@.len() ==> key_lt(p@, v[pos as int]),
        decreases out@.len() - pos,
    {
        let c = key_compare(&out[pos], &p);
        assert(v[pos as int] == out@[pos as int]@);
        if c == 0 {
            proof {
                assert(same_key(old(out)@[pos as int]@, p@));
            }
            return;
        }
        if c == 1 {
            break;
        }
        pos = pos + 1;
    }
    proof {
        lemma_sorted_insert(v, pos as int, p@);
        assert forall|i: int| 0 <= i < old(out)@.len() implies !same_key(old(out)@[i]@, p@) by {
            assert(v[i] == old(out)@[i]@);
        }
    }
    let ghost pv = p@;
    let ghost pp = p;
    out.insert(pos, p);
    assert(crate::discovery::refs(out@) =~= v.insert(pos as int, pv));
    assert(out@ == old(out)@.insert(pos as int, pp));
}

proof fn lemma_is_first_push(c: Seq<crate::model::ProjectRef>, p: crate::model::ProjectRef, x: crate::model::ProjectRef)
    requires
        is_first(c, x),
    ensures
        is_first(c.push(p), x),
{
    let j = choose|j: int| 0 <= j < c.len() && #[trigger] c[j] == x && first_with_key(c, j);
    let c2 = c.push(p);
    assert(c2[j] == c[j]);
    assert forall|k: int| 0 <= k < j implies !same_key(#[trigger] c2[k], c2[j]) by {
        assert(c2[k] == c[k]);
    }
}

proof fn lemma_is_first_new(c: Seq<crate::model::ProjectRef>, p: crate::model::ProjectRef)
    requires
        forall|k: int| 0 <= k < c.len() ==> !same_key(#[trigger] c[k], p),
    ensures
        is_first(c.push(p), p),
{
    let c2 = c.push(p);
    let n = c.len() as int;
    assert(c2[n] == p);
    assert forall|k: int| 0 <= k < n implies !same_key(#[trigger] c2[k], c2[n]) by {
        assert(c2[k] == c[k]);
    }
}

proof fn lemma_has_key_insert(r: Seq<crate::model::ProjectRef>, pos: int, p: crate::model::ProjectRef, x: crate::model::ProjectRef)
    requires
        0 <= pos <= r.len(),
    ensures
        has_key(r, x) ==> has_key(r.insert(pos, p), x),
        same_key(p, x) ==> has_key(r.insert(pos, p), x),
{
    let r2 = r.insert(pos, p);
    if has_key(r, x) {
        let i = choose|i: int| 0 <= i < r.len() && same_key(#[trigger] r[i], x);
        if i < pos {
            assert(r2[i] == r[i]);
        } else {
            assert(r2[i + 1] == r[i]);
        }
    }
    if same_key(p, x) {
        assert(r2[pos] == p);
    }
}

/// The merge of the projects seen so far is on its way: `r` is their sorted,
/// first-of-each list.
#[verifier::opaque]
spec fn dedup_progress(r: Seq<crate::model::ProjectRef>, seen: Seq<crate::model::ProjectRef>) -> bool {
    sorted_first_of_each(r, seen)
}

proof fn lemma_dedup_step(
    before: Seq<crate::model::ProjectRef>,
    after: Seq<crate::model::ProjectRef>,
    seen: Seq<crate::model::ProjectRef>,
    p: crate::model::ProjectRef,
)
    requires
        dedup_progress(before, seen),
        keys_sorted(after),
        (exists|i: int| 0 <= i < before.len() && same_key(before[i], p)) ==> after == before,
        !(exists|i: int| 0 <= i < before.len() && same_key(before[i], p)) ==> exists|pos: int|
            0 <= pos <= before.len() && after == before.insert(pos, p),
    ensures
        dedup_progress(after, seen.push(p)),
{
    reveal(dedup_progress);
    let s2 = seen.push(p);
    if exists|i: int| 0 <= i < before.len() && same_key(before[i], p) {
        assert forall|i: int| 0 <= i < after.len() implies is_first(s2, #[trigger] after[i]) by {
            lemma_is_first_push(seen, p, before[i]);
        }
        assert forall|j: int| 0 <= j < s2.len() implies has_key(after, #[trigger] s2[j]) by {
            if j < seen.len() {
                assert(s2[j] == seen[j]);
            } else {
                let x = choose|x: int| 0 <= x < before.len() && same_key(before[x], p);
                assert(s2[j] == p);
                assert(same_key(after[x], s2[j]));
            }
        }
    } else {
        let pos = choose|pos: int| 0 <= pos <= before.len() && after == before.insert(pos, p);
        assert forall|k: int| 0 <= k < seen.len() implies !same_key(#[trigger] seen[k], p) by {
            if same_key(seen[k], p) {
                assert(has_key(before, seen[k]));
                let x = choose|x: int| 0 <= x < before.len() && same_key(#[trigger] before[x], seen[k]);
                assert(same_key(before[x], p));
            }
        }
        lemma_is_first_new(seen, p);
        assert forall|i: int| 0 <= i < after.len() implies is_first(s2, #[trigger] after[i]) by {
            if i == pos {
                assert(after[i] == p);
            } else if i < pos {
                assert(after[i] == before[i]);
                lemma_is_first_push(seen, p, before[i]);
            } else {
                assert(after[i] == before[i - 1]);
                lemma_is_first_push(seen, p, before[i - 1]);
            }
        }
        assert forall|j: int| 0 <= j < s2.len() implies has_key(after, #[trigger] s2[j]) by {
            lemma_has_key_insert(before, pos, p, s2[j]);
            if j < seen.len() {
                assert(s2[j] == seen[j]);
            } else {
                assert(s2[j] == p);
            }
        }
    }
}

/// The provider projects of rows `filtered[vi..]` that still lack their icon or
/// description, for rows that show within `remaining` rows of the viewport; the
/// first of them (`vi == first`) is cut by `truncation` rows at the top.
pub open spec fn visible_candidates(
    entries: Seq<ContentEntry>,
    filtered: Seq<usize>,
    first: int,
    truncation: u16,
    remaining: int,
    vi: int,
) -> Seq<crate::model::ProjectRef>
    decreases filtered.len() - vi,
{
    if vi < 0 || vi >= filtered.len() {
        seq![]
    } else if filtered[vi] >= entries.len() {
        visible_candidates(entries, filtered, first, truncation, remaining, vi + 1)
    } else {
        let e = entries[filtered[vi] as int];
        let h = crate::rows::entry_height_spec(e) as int;
        let shown = if vi == first { if h > truncation { h - truncation } else { 0 } } else { h };
        if shown == 0 {
            visible_candidates(entries, filtered, first, truncation, remaining, vi + 1)
        } else {
            let here = if (e.icon_bytes is None || crate::text::trim_spec(e.description@).len() == 0) && e.provider_project is Some {
                seq![e.provider_project->0@]
            } else {
                seq![]
            };
            let rest = if remaining > shown { remaining - shown } else { 0 };
            here + (if rest == 0 { seq![] } else { visible_candidates(entries, filtered, first, truncation, rest, vi + 1) })
        }
    }
}

impl ContentListState {
    /// The provider projects whose metadata the rows on screen still need: from
    /// shown row `first` (cut by `truncation` rows at the top) on, as far as
    /// `viewport_height` rows reach, each project once, ordered by provider and id.
    pub fn visible_provider_projects(&self, filtered: &Vec<usize>, viewport_height: u16, first: usize, truncation: u16)
        -> (r: Vec<crate::model::ProviderProject>)
        ensures
            sorted_first_of_each(
                crate::discovery::refs(r@),
                visible_candidates(self.entries@, filtered@, first as int, truncation, viewport_height as int, first as int),
            ),
    {
        let ghost c = visible_candidates(self.entries@, filtered@, first as int, truncation, viewport_height as int, first as int);
        let mut out: Vec<crate::model::ProviderProject> = Vec::new();
        let ghost mut seen: Seq<crate::model::ProjectRef> = seq![];
        let mut remaining: u16 = viewport_height;
        let mut vi: usize = first;
        assert(c == seen + c);
        proof {
            reveal(dedup_progress);
            assert(crate::discovery::refs(out@) =~= Seq::<crate::model::ProjectRef>::empty());
        }
        while vi < filtered.len()
            invariant_except_break
                c == seen + visible_candidates(self.entries@, filtered@, first as int, truncation, remaining as int, vi as int),
            invariant
                first <= vi,
                keys_sorted(crate::discovery::refs(out@)),
                dedup_progress(crate::discovery::refs(out@), seen),
            ensures
                c == seen,
            decreases filtered@.len() - vi,
        {
            let index = filtered[vi];
            if index >= self.entries.len() {
                vi = vi + 1;
                continue;
            }
            let entry = &self.entries[index];
            let height = crate::rows::entry_height(entry);
            let shown: u16 = if vi == first { if height > truncation { height - truncation } else { 0 } } else { height };
            if shown == 0 {
                vi = vi + 1;
                continue;
            }
            let wants = (entry.icon_bytes.is_none() || crate::text::is_blank(entry.description.as_str()))
                && entry.provider_project.is_some();
            let ghost s0 = seen;
            if wants {
                match &entry.provider_project {
                    Some(p) => {
                        let ghost before = crate::discovery::refs(out@);
                        let ghost vec_before = out@;
                        let q = p.clone();
                        insert_by_key(&mut out, q);
                        proof {
                            let after = crate::discovery::refs(out@);
                            if exists|i: int| 0 <= i < before.len() && same_key(before[i], p@) {
                                let x = choose|x: int| 0 <= x < before.len() && same_key(before[x], p@);
                                assert(same_key(vec_before[x]@, p@));
                                assert(after == before);
                            } else {
                                assert forall|i: int| 0 <= i < vec_before.len() implies !same_key(vec_before[i]@, p@) by {
                                    assert(before[i] == vec_before[i]@);
                                }
                                let pos = choose|pos: int| 0 <= pos <= vec_before.len() && out@ == vec_before.insert(pos, q);
                                assert(after =~= before.insert(pos, p@));
                            }
                            lemma_dedup_step(before, after, s0, p@);
                            seen = s0.push(p@);
                        }
                    },
                    None => {},
                }
            }
            let rest: u16 = if remaining > shown { remaining - shown } else { 0 };
            proof {
                let here: Seq<crate::model::ProjectRef> = if wants { seq![entry.provider_project->0@] } else { seq![] };
                assert(seen == s0 + here);
                let tail = if rest == 0 { seq![] } else {
                    visible_candidates(self.entries@, filtered@, first as int, truncation, rest as int, vi + 1)
                };
                assert(visible_candidates(self.entries@, filtered@, first as int, truncation, remaining as int, vi as int)
                    == here + tail);
                assert(c == seen + tail);
            }
            remaining = rest;
            if remaining == 0 {
                break;
            }
            vi = vi + 1;
        }
        proof {
            reveal(dedup_progress);
        }
        out
    }
}


/// An icon image a row asks to have decoded.
#[derive(Debug)]
pub struct ImageLoadRequest {
    pub file_stem: String,
    pub path: String,
    pub bytes: Vec<u8>,
    /// Rows of the icon: those of the row's current icon, three without one.
    pub rows: u32,
    /// Columns of a square icon that many rows high.
    pub columns: u16,
}

/// A decoded icon for a row.
#[derive(Debug)]
pub struct PendingContentImage {
    pub file_stem: String,
    pub path: String,
    pub icon_lines: Vec<Vec<crate::model::IconCell>>,
    /// Whether a full image was kept to draw with the terminal's image protocol.
    pub has_image: bool,
}

/// The stems of the entries.
pub open spec fn entry_stems(entries: Seq<ContentEntry>) -> Set<Seq<char>> {
    Set::new(|x: Seq<char>| exists|j: int| 0 <= j < entries.len() && (#[trigger] entries[j]).file_stem@ == x)
}

/// The stems of the first `n` entries that carry icon bytes.
pub open spec fn icon_stems_upto(entries: Seq<ContentEntry>, n: int) -> Set<Seq<char>>
    decreases n,
{
    if n <= 0 {
        Set::empty()
    } else if entries[n - 1].icon_bytes is Some {
        icon_stems_upto(entries, n - 1).insert(entries[n - 1].file_stem@)
    } else {
        icon_stems_upto(entries, n - 1)
    }
}

/// Entry `i` asks for its image to be decoded: it carries icon bytes and its stem
/// was neither requested before nor taken by an earlier entry with bytes.
pub open spec fn asks_image(entries: Seq<ContentEntry>, requested: Set<Seq<char>>, i: int) -> bool {
    &&& entries[i].icon_bytes is Some
    &&& !requested.contains(entries[i].file_stem@)
    &&& !icon_stems_upto(entries, i).contains(entries[i].file_stem@)
}

/// The entries among the first `n` that ask for an image, in order.
pub open spec fn image_rows_upto(entries: Seq<ContentEntry>, requested: Set<Seq<char>>, n: int) -> Seq<int>
    decreases n,
{
    if n <= 0 {
        Seq::empty()
    } else if asks_image(entries, requested, n - 1) {
        image_rows_upto(entries, requested, n - 1).push(n - 1)
    } else {
        image_rows_upto(entries, requested, n - 1)
    }
}

/// The rows of an entry's icon: those it has, three without one.
pub open spec fn icon_rows(e: ContentEntry) -> u32 {
    (match e.icon_lines {
        Some(l) => l@.len() as int,
        None => 3,
    }) as u32
}

/// `r` asks to decode the icon bytes of entry `e`.
pub open spec fn image_request_for(r: ImageLoadRequest, e: ContentEntry, font_size: (u16, u16)) -> bool {
    &&& r.file_stem@ == e.file_stem@
    &&& r.path@ == e.path@
    &&& opt_bytes_view(e.icon_bytes) == Some(r.bytes@)
    &&& r.rows == icon_rows(e)
    &&& r.columns == (crate::rows::square_columns(icon_rows(e) as u16, font_size) as u16)
}

/// Entries with the icon of `img` given to the first entry (of `base`) with its stem and path.
pub open spec fn with_icon(entries: Seq<ContentEntry>, base: Seq<ContentEntry>, img: PendingContentImage) -> Seq<ContentEntry> {
    match find_spec(base, img.file_stem@, img.path@) {
        Some(k) => entries.update(k, ContentEntry { icon_lines: Some(img.icon_lines), ..entries[k] }),
        None => entries,
    }
}

/// Entries with the icons of `imgs` given in order.
pub open spec fn with_icons(entries: Seq<ContentEntry>, base: Seq<ContentEntry>, imgs: Seq<PendingContentImage>) -> Seq<ContentEntry>
    decreases imgs.len(),
{
    if imgs.len() == 0 {
        entries
    } else {
        with_icon(with_icons(entries, base, imgs.drop_last()), base, imgs.last())
    }
}

/// The stems of the icons of `imgs` that find their entry in `base` (and, with
/// `drawn`, that kept a full image).
pub open spec fn landed_stems(base: Seq<ContentEntry>, imgs: Seq<PendingContentImage>, drawn: bool) -> Set<Seq<char>>
    decreases imgs.len(),
{
    if imgs.len() == 0 {
        Set::empty()
    } else if find_spec(base, imgs.last().file_stem@, imgs.last().path@) is Some && (!drawn || imgs.last().has_image) {
        landed_stems(base, imgs.drop_last(), drawn).insert(imgs.last().file_stem@)
    } else {
        landed_stems(base, imgs.drop_last(), drawn)
    }
}

/// Two entry sequences with the same stems and paths.
pub open spec fn same_places(a: Seq<ContentEntry>, b: Seq<ContentEntry>) -> bool {
    &&& a.len() == b.len()
    &&& forall|j: int| 0 <= j < a.len() ==> (#[trigger] a[j]).file_stem@ == b[j].file_stem@ && a[j].path@ == b[j].path@
}

proof fn lemma_with_icons_places(entries: Seq<ContentEntry>, base: Seq<ContentEntry>, imgs: Seq<PendingContentImage>)
    requires
        entries.len() == base.len(),
    ensures
        same_places(with_icons(entries, base, imgs), entries),
    decreases imgs.len(),
{
    if imgs.len() > 0 {
        lemma_with_icons_places(entries, base, imgs.drop_last());
        let prev = with_icons(entries, base, imgs.drop_last());
        let next = with_icon(prev, base, imgs.last());
        assert(next == with_icons(entries, base, imgs));
        assert forall|j: int| 0 <= j < next.len() implies (#[trigger] next[j]).file_stem@ == entries[j].file_stem@
            && next[j].path@ == entries[j].path@ by {
            assert(prev[j].file_stem@ == entries[j].file_stem@);
        }
    }
}

impl ContentListState {
    /// When the rows changed since the last call, lists the icon images to decode:
    /// those of rows that carry icon bytes and were not asked for yet (one per
    /// stem). Decoded images of rows no longer listed are forgotten, and all of
    /// them when the terminal draws no images (`use_image_protocol` false).
    /// `font_size` is the terminal cell size in pixels.
    pub fn request_image_loads(&mut self, use_image_protocol: bool, font_size: (u16, u16)) -> (r: Vec<ImageLoadRequest>)
        ensures
            !old(self).images_need_loading() ==> r@.len() == 0 && *final(self) == *old(self),
            old(self).images_need_loading() ==> {
                let stems = entry_stems(old(self).entries@);
                let requested = old(self).requested_image_stems().intersect(stems);
                let rows = image_rows_upto(old(self).entries@, requested, old(self).entries@.len() as int);
                &&& !final(self).images_need_loading()
                &&& final(self).requested_image_stems() == requested.union(icon_stems_upto(old(self).entries@, old(self).entries@.len() as int))
                &&& final(self).ready_image_stems() == (if use_image_protocol {
                    old(self).ready_image_stems().intersect(stems)
                } else {
                    Set::empty()
                })
                &&& r@.len() == rows.len()
                &&& forall|k: int| 0 <= k < r@.len() ==> image_request_for(#[trigger] r@[k], old(self).entries@[rows[k]], font_size)
                &&& *final(self) == (ContentListState {
                    requested_images: final(self).requested_images,
                    ready_images: final(self).ready_images,
                    images_dirty: final(self).images_dirty,
                    ..*old(self)
                })
            },
    {
        if !self.images_dirty {
            return Vec::new();
        }
        self.images_dirty = false;
        if !use_image_protocol {
            self.ready_images.clear();
        }
        let ghost entries = self.entries@;
        let mut stems: Vec<String> = Vec::new();
        let mut i: usize = 0;
        while i < self.entries.len()
            invariant
                i <= self.entries@.len(),
                entries == self.entries@,
                stems@.len() == i,
                forall|j: int| 0 <= j < i ==> (#[trigger] stems@[j])@ == entries[j].file_stem@,
            decreases self.entries@.len() - i,
        {
            stems.push(self.entries[i].file_stem.clone());
            i = i + 1;
        }
        let valid = StemSet::from_vec(stems);
        assert forall|x: Seq<char>| valid@.contains(x) == entry_stems(entries).contains(x) by {
            if valid@.contains(x) {
                let j = choose|j: int| 0 <= j < stems@.len() && (#[trigger] stems@[j])@ == x;
                assert(entries[j].file_stem@ == x);
            }
            if entry_stems(entries).contains(x) {
                let j = choose|j: int| 0 <= j < entries.len() && (#[trigger] entries[j]).file_stem@ == x;
                assert(stems@[j]@ == x);
            }
        }
        assert(valid@ =~= entry_stems(entries));
        self.ready_images.retain_in(&valid);
        self.requested_images.retain_in(&valid);
        let ghost requested = self.requested_images@;
        let ghost mid = *self;
        let mut out: Vec<ImageLoadRequest> = Vec::new();
        let mut i: usize = 0;
        while i < self.entries.len()
            invariant
                i <= self.entries@.len(),
                entries == self.entries@,
                *self == (ContentListState { requested_images: self.requested_images, ..mid }),
                self.requested_images@ == requested.union(icon_stems_upto(entries, i as int)),
                out@.len() == image_rows_upto(entries, requested, i as int).len(),
                forall|k: int| 0 <= k < out@.len() ==> image_request_for(#[trigger] out@[k],
                    entries[image_rows_upto(entries, requested, i as int)[k]], font_size),
            decreases self.entries@.len() - i,
        {
            let ghost before = out@;
            if let Some(bytes) = &self.entries[i].icon_bytes {
                let stem = self.entries[i].file_stem.clone();
                let fresh = self.requested_images.insert(stem);
                if fresh {
                    let rows: u32 = match &self.entries[i].icon_lines {
                        Some(l) => l.len() as u32,
                        None => 3,
                    };
                    let columns = crate::rows::square_icon_columns(rows as u16, font_size);
                    let copy = bytes.clone();
                    assert(copy@ =~= bytes@);
                    out.push(ImageLoadRequest {
                        file_stem: self.entries[i].file_stem.clone(),
                        path: self.entries[i].path.clone(),
                        bytes: copy,
                        rows,
                        columns,
                    });
                }
            }
            proof {
                let rows_next = image_rows_upto(entries, requested, i + 1);
                let rows_now = image_rows_upto(entries, requested, i as int);
                if asks_image(entries, requested, i as int) {
                    assert(rows_next == rows_now.push(i as int));
                    assert forall|k: int| 0 <= k < out@.len() implies image_request_for(#[trigger] out@[k], entries[rows_next[k]], font_size) by {
                        if k < before.len() {
                            assert(out@[k] == before[k]);
                        }
                    }
                } else {
                    assert(rows_next == rows_now);
                }
                assert(self.requested_images@ =~= requested.union(icon_stems_upto(entries, i + 1)));
            }
            i = i + 1;
        }
        out
    }

    /// Takes in decoded icons, in order: the first row with an icon's stem and
    /// path takes its icon lines and is no longer hidden, and with a full image
    /// kept its image is ready to draw. Icons of rows no longer listed are dropped.
    pub fn drain_image_loads(&mut self, images: Vec<PendingContentImage>)
        ensures
            final(self).entries@ == with_icons(old(self).entries@, old(self).entries@, images@),
            final(self).hidden_stems() == old(self).hidden_stems().difference(landed_stems(old(self).entries@, images@, false)),
            final(self).ready_image_stems() == old(self).ready_image_stems().union(landed_stems(old(self).entries@, images@, true)),
            *final(self) == (ContentListState {
                entries: final(self).entries,
                pending_entry_images: final(self).pending_entry_images,
                ready_images: final(self).ready_images,
                ..*old(self)
            }),
    {
        let ghost base = self.entries@;
        let ghost all = images@;
        let mut images = images;
        let total = images.len();
        assert(all.len() == total);
        let mut done: usize = 0;
        while images.len() > 0
            invariant
                done + images@.len() == all.len(),
                all.len() <= usize::MAX,
                images@ == all.skip(done as int),
                self.entries@ == with_icons(base, base, all.take(done as int)),
                self.pending_entry_images@ == old(self).pending_entry_images@.difference(landed_stems(base, all.take(done as int), false)),
                self.ready_images@ == old(self).ready_images@.union(landed_stems(base, all.take(done as int), true)),
                *self == (ContentListState {
                    entries: self.entries,
                    pending_entry_images: self.pending_entry_images,
                    ready_images: self.ready_images,
                    ..*old(self)
                }),
            decreases images@.len(),
        {
            let img = images.remove(0);
            proof {
                assert(img == all[done as int]);
                assert(all.take(done + 1).drop_last() =~= all.take(done as int));
                assert(all.take(done + 1).last() == img);
                lemma_with_icons_places(base, base, all.take(done as int));
            }
            let ghost cur = self.entries@;
            let found = find_stem_path(&self.entries, img.file_stem.as_str(), img.path.as_str());
            match found {
                Some(k) => {
                    proof {
                        assert forall|j: int| 0 <= j < k implies !(base[j].file_stem@ == img.file_stem@ && base[j].path@ == img.path@) by {
                            assert(cur[j].file_stem@ == base[j].file_stem@);
                        }
                        assert(cur[k as int].file_stem@ == base[k as int].file_stem@);
                        lemma_find_spec(base, img.file_stem@, img.path@, k as int);
                    }
                    self.pending_entry_images.remove(img.file_stem.as_str());
                    if img.has_image {
                        self.ready_images.insert(img.file_stem.clone());
                    }
                    let mut e = self.entries.remove(k);
                    e.icon_lines = Some(img.icon_lines);
                    self.entries.insert(k, e);
                    assert(self.entries@ =~= cur.update(k as int, ContentEntry { icon_lines: Some(img.icon_lines), ..cur[k as int] }));
                },
                None => {
                    proof {
                        assert forall|j: int| 0 <= j < base.len() implies !(base[j].file_stem@ == img.file_stem@ && base[j].path@ == img.path@) by {
                            assert(cur[j].file_stem@ == base[j].file_stem@);
                        }
                        lemma_find_spec_none(base, img.file_stem@, img.path@);
                    }
                },
            }
            proof {
                assert(self.pending_entry_images@ =~= old(self).pending_entry_images@.difference(landed_stems(base, all.take(done + 1), false)));
                assert(self.ready_images@ =~= old(self).ready_images@.union(landed_stems(base, all.take(done + 1), true)));
            }
            done = done + 1;
            proof {
                assert(images@ =~= all.skip(done as int));
            }
        }
        proof {
            assert(all.take(done as int) =~= all);
        }
    }
}


/// The characters of a (provider, project id) pair.
pub open spec fn key_view(k: (String, String)) -> (Seq<char>, Seq<char>) {
    (k.0@, k.1@)
}

/// The (provider, project id) pair naming a project.
pub open spec fn icon_key(p: crate::model::ProjectRef) -> (Seq<char>, Seq<char>) {
    (p.provider, p.project_id)
}

/// The keys of the first `n` projects of `ps`.
pub open spec fn icon_keys_upto(ps: Seq<crate::model::ProjectRef>, n: int) -> Set<(Seq<char>, Seq<char>)> {
    Set::new(|k: (Seq<char>, Seq<char>)| exists|j: int| 0 <= j < n && icon_key(#[trigger] ps[j]) == k)
}

/// The projects of `ps`, in order, whose metadata was not asked for yet: neither
/// in `requested` nor named by an earlier project of `ps`.
pub open spec fn fresh_icon_projects(ps: Seq<crate::model::ProjectRef>, requested: Set<(Seq<char>, Seq<char>)>) -> Seq<crate::model::ProjectRef>
    decreases ps.len(),
{
    if ps.len() == 0 {
        Seq::empty()
    } else {
        let n = ps.len() - 1;
        let rest = fresh_icon_projects(ps.drop_last(), requested);
        if requested.contains(icon_key(ps[n])) || icon_keys_upto(ps, n).contains(icon_key(ps[n])) {
            rest
        } else {
            rest.push(ps[n])
        }
    }
}

proof fn lemma_icon_keys_prefix(ps: Seq<crate::model::ProjectRef>, n: int)
    requires
        0 <= n <= ps.len(),
    ensures
        icon_keys_upto(ps.take(n), n) == icon_keys_upto(ps, n),
{
    assert forall|k: (Seq<char>, Seq<char>)| icon_keys_upto(ps.take(n), n).contains(k) == icon_keys_upto(ps, n).contains(k) by {
        if icon_keys_upto(ps.take(n), n).contains(k) {
            let j = choose|j: int| 0 <= j < n && icon_key(#[trigger] ps.take(n)[j]) == k;
            assert(ps[j] == ps.take(n)[j]);
        }
        if icon_keys_upto(ps, n).contains(k) {
            let j = choose|j: int| 0 <= j < n && icon_key(#[trigger] ps[j]) == k;
            assert(ps[j] == ps.take(n)[j]);
        }
    }
    assert(icon_keys_upto(ps.take(n), n) =~= icon_keys_upto(ps, n));
}

impl ContentListState {
    /// Where provider metadata is cached, once provider icons are enabled.
    pub closed spec fn provider_icon_dir_spec(&self) -> Option<Seq<char>> {
        opt_view(self.provider_icon_dir)
    }

    /// Lets the list load the icons and descriptions of provider projects,
    /// caching them under `meta_dir`.
    pub fn enable_provider_icons(&mut self, meta_dir: String)
        ensures
            final(self).provider_icon_dir_spec() == Some(meta_dir@),
            *final(self) == (ContentListState { provider_icon_dir: final(self).provider_icon_dir, ..*old(self) }),
    {
        self.provider_icon_dir = Some(meta_dir);
    }

    /// Of `projects`, in order, those whose metadata was not asked for yet (each
    /// once); they are noted as asked for.
    pub fn request_provider_icons(&mut self, projects: &Vec<crate::model::ProviderProject>) -> (r: Vec<crate::model::ProviderProject>)
        ensures
            crate::discovery::refs(r@) == fresh_icon_projects(crate::discovery::refs(projects@), old(self).requested_icon_keys()),
            final(self).requested_icon_keys() == old(self).requested_icon_keys().union(
                icon_keys_upto(crate::discovery::refs(projects@), projects@.len() as int)),
            *final(self) == (ContentListState { requested_provider_icons: final(self).requested_provider_icons, ..*old(self) }),
    {
        let ghost ps = crate::discovery::refs(projects@);
        let ghost requested = self.requested_icon_keys();
        let mut out: Vec<crate::model::ProviderProject> = Vec::new();
        let mut i: usize = 0;
        proof {
            assert(crate::discovery::refs(out@) =~= fresh_icon_projects(ps.take(0), requested));
            assert(self.requested_icon_keys() =~= requested.union(icon_keys_upto(ps, 0)));
        }
        while i < projects.len()
            invariant
                i <= projects@.len(),
                ps == crate::discovery::refs(projects@),
                requested == old(self).requested_icon_keys(),
                *self == (ContentListState { requested_provider_icons: self.requested_provider_icons, ..*old(self) }),
                self.requested_icon_keys() == requested.union(icon_keys_upto(ps, i as int)),
                crate::discovery::refs(out@) == fresh_icon_projects(ps.take(i as int), requested),
            decreases projects@.len() - i,
        {
            let p = &projects[i];
            let ghost key = icon_key(ps[i as int]);
            let mut known = false;
            let mut j: usize = 0;
            while j < self.requested_provider_icons.len()
                invariant
                    j <= self.requested_provider_icons@.len(),
                    known == exists|m: int| 0 <= m < j && key_view(#[trigger] self.requested_provider_icons@[m]) == key,
                    key == (p.provider@, p.project_id@),
                decreases self.requested_provider_icons@.len() - j,
            {
                let k = &self.requested_provider_icons[j];
                if str_eq(k.0.as_str(), p.provider.as_str()) && str_eq(k.1.as_str(), p.project_id.as_str()) {
                    known = true;
                }
                j = j + 1;
            }
            assert(known == self.requested_icon_keys().contains(key));
            let ghost before_out = out@;
            let ghost before_keys = self.requested_provider_icons@;
            proof {
                let t = ps.take(i as int + 1);
                assert(t.drop_last() =~= ps.take(i as int));
                assert(t[i as int] == ps[i as int]);
                lemma_icon_keys_prefix(ps, i as int);
                assert(ps.take(i as int + 1).take(i as int) =~= ps.take(i as int));
                lemma_icon_keys_prefix(t, i as int);
            }
            if !known {
                self.requested_provider_icons.push((p.provider.clone(), p.project_id.clone()));
                out.push(p.clone());
                proof {
                    assert(crate::discovery::refs(out@) =~= crate::discovery::refs(before_out).push(ps[i as int]));
                }
            }
            proof {
                assert forall|k: (Seq<char>, Seq<char>)| self.requested_icon_keys().contains(k)
                    == requested.union(icon_keys_upto(ps, i + 1)).contains(k) by {
                    if icon_keys_upto(ps, i + 1).contains(k) {
                        let m = choose|m: int| 0 <= m < i + 1 && icon_key(#[trigger] ps[m]) == k;
                        if m < i {
                            assert(icon_keys_upto(ps, i as int).contains(k));
                        }
                    }
                    if icon_keys_upto(ps, i as int).contains(k) {
                        let m = choose|m: int| 0 <= m < i && icon_key(#[trigger] ps[m]) == k;
                        assert(icon_keys_upto(ps, i + 1).contains(k));
                    }
                    if k == key {
                        assert(icon_key(ps[i as int]) == k);
                        assert(icon_keys_upto(ps, i + 1).contains(k));
                    }
                    if self.requested_icon_keys().contains(k) {
                        let m = choose|m: int| 0 <= m < self.requested_provider_icons@.len()
                            && key_view(#[trigger] self.requested_provider_icons@[m]) == k;
                        if m < before_keys.len() {
                            assert(self.requested_provider_icons@[m] == before_keys[m]);
                        }
                    }
                    if requested.union(icon_keys_upto(ps, i as int)).contains(k) && !known {
                        let m = choose|m: int| 0 <= m < before_keys.len() && key_view(#[trigger] before_keys[m]) == k;
                        assert(self.requested_provider_icons@[m] == before_keys[m]);
                    }
                    if k == key && !known {
                        assert(key_view(self.requested_provider_icons@[before_keys.len() as int]) == k);
                    }
                }
                assert(self.requested_icon_keys() =~= requested.union(icon_keys_upto(ps, i + 1)));
            }
            i = i + 1;
        }
        proof {
            assert(ps.take(projects@.len() as int) =~= ps);
        }
        out
    }

    /// The provider projects whose metadata the rows on screen need (see
    /// `visible_provider_projects`) and that were not asked for yet, once provider
    /// icons are enabled; they are noted as asked for.
    pub fn request_visible_provider_icons(&mut self, filtered: &Vec<usize>, viewport_height: u16, first: usize, truncation: u16)
        -> (r: Vec<crate::model::ProviderProject>)
        ensures
            old(self).provider_icon_dir_spec() is None ==> r@.len() == 0 && *final(self) == *old(self),
            old(self).provider_icon_dir_spec() is Some ==> exists|vis: Seq<crate::model::ProjectRef>| {
                &&& sorted_first_of_each(vis, visible_candidates(old(self).entries@, filtered@, first as int, truncation,
                    viewport_height as int, first as int))
                &&& crate::discovery::refs(r@) == fresh_icon_projects(vis, old(self).requested_icon_keys())
                &&& final(self).requested_icon_keys() == old(self).requested_icon_keys().union(icon_keys_upto(vis, vis.len() as int))
            },
            *final(self) == (ContentListState { requested_provider_icons: final(self).requested_provider_icons, ..*old(self) }),
    {
        if self.provider_icon_dir.is_none() {
            return Vec::new();
        }
        let projects = self.visible_provider_projects(filtered, viewport_height, first, truncation);
        let r = self.request_provider_icons(&projects);
        proof {
            let vis = crate::discovery::refs(projects@);
            assert(vis.len() == projects@.len());
        }
        r
    }
}

/// A key with a cached list occurs among the keys.
proof fn lemma_first_cached_key(cache: Seq<(String, CachedList)>, k: Seq<char>)
    requires
        first_cached(cache, k) is Some,
    ensures
        exists|j: int| 0 <= j < cache.len() && cache[j].0@ == k,
    decreases cache.len(),
{
    if first_cached(cache.drop_last(), k) is Some {
        lemma_first_cached_key(cache.drop_last(), k);
        let j = choose|j: int| 0 <= j < cache.drop_last().len() && cache.drop_last()[j].0@ == k;
        assert(cache[j] == cache.drop_last()[j]);
    } else {
        assert(cache[cache.len() - 1].0@ == k);
    }
}

} // verus!
