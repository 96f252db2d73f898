//! The log tab: a list of an instance's log files (with its live log while the
//! instance runs) beside a viewer of the selected log. Scanning and reading
//! files is the caller's: the state says which directory to scan and which file
//! to read, and takes in what came back.

use vstd::prelude::*;
use crate::keys::{KeyCode, KeyEvent};
use crate::list::{ListState, PendingContentDelete, ScrollbarState};
use crate::search::{SearchState, search_matches, backspace_spec};
use crate::text::{opt_view, str_eq};

verus! {

/// A log file of an instance.
#[derive(Debug)]
pub struct LogFileEntry {
    pub name: String,
    pub path: String,
}

/// The log tab.
pub struct LogsState {
    pub entries: Vec<LogFileEntry>,
    pub list_state: ListState,
    pub loaded_for: Option<String>,
    pub loading: bool,
    pub viewer_focused: bool,
    pub viewer_lines: Vec<String>,
    pub viewer_scroll: usize,
    pub viewer_max_scroll: usize,
    pub scrollbar_state: ScrollbarState,
    pub viewer_scrollbar_state: ScrollbarState,
    pub search: SearchState,
    pub viewer_search: SearchState,
    /// The file whose lines the viewer shows.
    pub selected_path: Option<String>,
    /// When the files were last scanned, in milliseconds.
    pub last_rescan_ms: u64,
    pub instances_dir_cache: Option<String>,
    pub was_live: bool,
    /// The instance runs, starts or has just crashed: its live log is offered
    /// first in the list.
    pub live: bool,
}

/// The milliseconds between two scans of a running instance's log files.
pub const RESCAN_INTERVAL_MS: u64 = 2000;

// ---------------------------------------------------------------- model

pub open spec fn log_ext() -> Seq<char> {
    seq!['.', 'l', 'o', 'g']
}

/// A file name without every trailing ".log".
pub open spec fn strip_log(s: Seq<char>) -> Seq<char>
    decreases s.len(),
{
    if s.len() >= 4 && s.subrange(s.len() - 4, s.len() as int) == log_ext() {
        strip_log(s.subrange(0, s.len() - 4))
    } else {
        s
    }
}

/// The files below `n` whose shown name matches the query, as list items.
pub open spec fn files_upto(entries: Seq<LogFileEntry>, query: Seq<char>, n: int) -> Seq<Option<usize>>
    decreases n,
{
    if n <= 0 {
        seq![]
    } else if search_matches(query, strip_log(entries[n - 1].name@)) {
        files_upto(entries, query, n - 1).push(Some((n - 1) as usize))
    } else {
        files_upto(entries, query, n - 1)
    }
}

/// The name of the live log: the newest file's name, or "Live" without files.
pub open spec fn live_name(entries: Seq<LogFileEntry>) -> Seq<char> {
    if entries.len() > 0 {
        strip_log(entries[0].name@)
    } else {
        "Live"@
    }
}

/// The selection after it is brought into range: none for an empty list, the
/// last row when there is none or it lies past the end.
pub open spec fn settle_last(sel: Option<usize>, count: int) -> Option<usize> {
    if count == 0 {
        None
    } else {
        match sel {
            None => Some((count - 1) as usize),
            Some(k) => if k >= count { Some((count - 1) as usize) } else { Some(k) },
        }
    }
}

/// A scrollbar over `max + 1` positions at `pos`.
pub open spec fn bar(max: int, pos: int) -> ScrollbarState {
    ScrollbarState { content_length: max as usize, position: pos as usize }
}

impl LogsState {
    /// The list items: `None` for the live log, `Some(i)` for file `i`.
    pub open spec fn display(&self) -> Seq<Option<usize>> {
        let files = files_upto(self.entries@, self.search.query@, self.entries@.len() as int);
        if self.live && search_matches(self.search.query@, live_name(self.entries@)) {
            seq![None::<usize>] + files
        } else {
            files
        }
    }

    /// The selected list item.
    pub open spec fn selected_item(&self) -> Option<Option<usize>> {
        item_for(*self, self.list_state.selected)
    }

    /// What decides the list items is as in `other`.
    pub open spec fn same_list(&self, other: &LogsState) -> bool {
        &&& self.entries@ == other.entries@
        &&& self.loaded_for == other.loaded_for
        &&& self.loading == other.loading
        &&& self.search.query@ == other.search.query@
        &&& self.search.active == other.search.active
        &&& self.live == other.live
    }

    /// The viewer is as in `other`.
    pub open spec fn same_viewer(&self, other: &LogsState) -> bool {
        &&& self.viewer_focused == other.viewer_focused
        &&& self.viewer_lines@ == other.viewer_lines@
        &&& self.viewer_scroll == other.viewer_scroll
        &&& self.viewer_max_scroll == other.viewer_max_scroll
        &&& self.viewer_scrollbar_state == other.viewer_scrollbar_state
        &&& self.viewer_search.query@ == other.viewer_search.query@
        &&& self.viewer_search.active == other.viewer_search.active
        &&& self.selected_path == other.selected_path
    }

    /// The scan bookkeeping is as in `other`.
    pub open spec fn same_scan(&self, other: &LogsState) -> bool {
        &&& self.last_rescan_ms == other.last_rescan_ms
        &&& self.instances_dir_cache == other.instances_dir_cache
        &&& self.was_live == other.was_live
    }

    /// The selection and its scrollbar are as in `other`.
    pub open spec fn same_selection(&self, other: &LogsState) -> bool {
        &&& self.list_state == other.list_state
        &&& self.scrollbar_state == other.scrollbar_state
    }

    /// The selection is `sel` brought into range, with its scrollbar.
    pub open spec fn settled_from(&self, sel: Option<usize>) -> bool {
        let count = self.display().len() as int;
        &&& self.list_state.selected == settle_last(sel, count)
        &&& self.scrollbar_state == bar(
            if count == 0 { 0 } else { count - 1 },
            match self.list_state.selected { Some(k) => k as int, None => 0 },
        )
    }
}

/// The list item that selection `sel` names in `s`.
pub open spec fn item_for(s: LogsState, sel: Option<usize>) -> Option<Option<usize>> {
    match sel {
        Some(k) => if (k as int) < s.display().len() { Some(s.display()[k as int]) } else { None },
        None => None,
    }
}

/// The path of the file that list item `item` names in `s`.
pub open spec fn item_path(s: LogsState, item: Option<Option<usize>>) -> Option<Seq<char>> {
    match item {
        Some(Some(i)) => Some(s.entries@[i as int].path@),
        _ => None,
    }
}

/// The viewer of `after` follows list item `item`, starting from the viewer of
/// `before`, and `read` is the file the caller must read into it: the live log
/// clears the viewer, another file clears it and asks for that file, and the
/// file already shown changes nothing.
pub open spec fn viewer_follows(before: LogsState, after: LogsState, item: Option<Option<usize>>, read: Option<String>) -> bool {
    &&& after.viewer_focused == before.viewer_focused
    &&& after.viewer_max_scroll == before.viewer_max_scroll
    &&& after.viewer_scrollbar_state == before.viewer_scrollbar_state
    &&& after.viewer_search.query@ == before.viewer_search.query@
    &&& after.viewer_search.active == before.viewer_search.active
    &&& if item == Some(None::<usize>) {
        &&& after.selected_path is None
        &&& after.viewer_lines@.len() == 0
        &&& after.viewer_scroll == 0
        &&& read is None
    } else if item_path(after, item) == opt_view(before.selected_path) {
        &&& after.selected_path == before.selected_path
        &&& after.viewer_lines@ == before.viewer_lines@
        &&& after.viewer_scroll == before.viewer_scroll
        &&& read is None
    } else {
        &&& opt_view(after.selected_path) == item_path(after, item)
        &&& after.viewer_lines@.len() == 0
        &&& after.viewer_scroll == 0
        &&& opt_view(read) == item_path(after, item)
    }
}

/// `after` is `before` once the viewer follows the selection.
pub open spec fn follows_selection(before: LogsState, after: LogsState, read: Option<String>) -> bool {
    &&& after.same_list(&before)
    &&& after.same_scan(&before)
    &&& after.same_selection(&before)
    &&& viewer_follows(before, after, before.selected_item(), read)
}

// ---------------------------------------------------------------- helpers

proof fn lemma_files_bounded(entries: Seq<LogFileEntry>, query: Seq<char>, n: int)
    requires
        0 <= n <= entries.len(),
    ensures
        files_upto(entries, query, n).len() <= n,
        forall|k: int| 0 <= k < files_upto(entries, query, n).len()
            ==> (#[trigger] files_upto(entries, query, n)[k] matches Some(i) && (i as int) < n),
    decreases n,
{
    if n > 0 {
        lemma_files_bounded(entries, query, n - 1);
    }
}

/// The name of a log file without every trailing ".log".
pub fn strip_log_exec(name: &str) -> (r: String)
    ensures
        r@ == strip_log(name@),
{
    proof {
        reveal_strlit(".log");
        assert(".log"@ =~= log_ext());
    }
    let mut t = String::from_str(name);
    assert(strip_log(t@) == strip_log(name@));
    while crate::text::ends_with(t.as_str(), ".log")
        invariant
            strip_log(t@) == strip_log(name@),
            ".log"@ == log_ext(),
        decreases t@.len(),
    {
        let n = t.as_str().unicode_len();
        t = crate::text::substring(t.as_str(), 0, n - 4);
    }
    t
}

impl LogsState {
    /// The list items: `None` for the live log, `Some(i)` for file `i`.
    pub fn display_indices(&self) -> (r: Vec<Option<usize>>)
        ensures
            r@ == self.display(),
    {
        let mut r: Vec<Option<usize>> = Vec::new();
        if self.live {
            let name = if self.entries.len() > 0 {
                strip_log_exec(self.entries[0].name.as_str())
            } else {
                String::from_str("Live")
            };
            if self.search.matches(name.as_str()) {
                r.push(None);
            }
        }
        let ghost head = r@;
        let mut i: usize = 0;
        while i < self.entries.len()
            invariant
                i <= self.entries@.len(),
                r@ == head + files_upto(self.entries@, self.search.query@, i as int),
            decreases self.entries@.len() - i,
        {
            let shown = strip_log_exec(self.entries[i].name.as_str());
            if self.search.matches(shown.as_str()) {
                r.push(Some(i));
                assert(r@ =~= head + files_upto(self.entries@, self.search.query@, i as int + 1));
            }
            i = i + 1;
        }
        proof {
            if !(self.live && search_matches(self.search.query@, live_name(self.entries@))) {
                assert(r@ =~= files_upto(self.entries@, self.search.query@, self.entries@.len() as int));
            }
        }
        r
    }

    /// The number of list items.
    pub fn display_count(&self) -> (r: usize)
        ensures
            r == self.display().len(),
    {
        self.display_indices().len()
    }

    /// The selected list item.
    fn selected_item_exec(&self) -> (r: Option<Option<usize>>)
        ensures
            r == self.selected_item(),
            match r {
                Some(Some(i)) => i < self.entries@.len(),
                _ => true,
            },
    {
        let items = self.display_indices();
        proof {
            lemma_files_bounded(self.entries@, self.search.query@, self.entries@.len() as int);
            let files = files_upto(self.entries@, self.search.query@, self.entries@.len() as int);
            assert forall|k: int| 0 <= k < items@.len() implies (#[trigger] items@[k] matches Some(i) ==> (i as int)
                < self.entries@.len()) by {
                if self.live && search_matches(self.search.query@, live_name(self.entries@)) {
                    if k > 0 {
                        assert(items@[k] == files[k - 1]);
                    }
                } else {
                    assert(items@[k] == files[k]);
                }
            }
        }
        match self.list_state.selected {
            Some(k) => if k < items.len() {
                Some(items[k])
            } else {
                None
            },
            None => None,
        }
    }

    /// Makes the viewer follow the selection; returns the file to read into it.
    fn load_selected_content(&mut self) -> (read: Option<String>)
        ensures
            follows_selection(*old(self), *final(self), read),
    {
        let item = self.selected_item_exec();
        match item {
            Some(None) => {
                self.selected_path = None;
                self.viewer_lines = Vec::new();
                self.viewer_scroll = 0;
                return None;
            },
            _ => {},
        }
        let path: Option<String> = match item {
            Some(Some(i)) => Some(self.entries[i].path.clone()),
            _ => None,
        };
        if crate::text::opt_eq(&path, &self.selected_path) {
            return None;
        }
        self.selected_path = crate::text::opt_clone(&path);
        self.viewer_scroll = 0;
        self.viewer_lines = Vec::new();
        path
    }

    /// Brings the selection into range and recomputes the list's scrollbar.
    fn update_scrollbar(&mut self)
        ensures
            final(self).same_list(&*old(self)),
            final(self).same_viewer(&*old(self)),
            final(self).same_scan(&*old(self)),
            final(self).settled_from(old(self).list_state.selected),
    {
        let count = self.display_count();
        let max: usize = if count == 0 { 0 } else { count - 1 };
        if count == 0 {
            self.list_state.selected = None;
        } else {
            match self.list_state.selected {
                None => self.list_state.selected = Some(max),
                Some(k) => if k >= count {
                    self.list_state.selected = Some(max);
                },
            }
        }
        let pos = match self.list_state.selected { Some(k) => k, None => 0 };
        self.scrollbar_state = ScrollbarState { content_length: max, position: pos };
    }
}

impl LogsState {
    /// An empty log tab with nothing loaded.
    pub fn new() -> (r: LogsState)
        ensures
            r.entries@.len() == 0,
            r.list_state.selected is None,
            r.loaded_for is None,
            !r.loading,
            !r.viewer_focused,
            r.viewer_lines@.len() == 0,
            r.viewer_scroll == 0,
            r.viewer_max_scroll == 0,
            r.search.query@.len() == 0,
            !r.search.active,
            r.viewer_search.query@.len() == 0,
            !r.viewer_search.active,
            r.selected_path is None,
            r.instances_dir_cache is None,
            !r.was_live,
            !r.live,
            r.scrollbar_state == (ScrollbarState { content_length: 0, position: 0 }),
            r.viewer_scrollbar_state == (ScrollbarState { content_length: 0, position: 0 }),
            r.last_rescan_ms == 0,
    {
        LogsState {
            entries: Vec::new(),
            list_state: ListState { selected: None },
            loaded_for: None,
            loading: false,
            viewer_focused: false,
            viewer_lines: Vec::new(),
            viewer_scroll: 0,
            viewer_max_scroll: 0,
            scrollbar_state: ScrollbarState { content_length: 0, position: 0 },
            viewer_scrollbar_state: ScrollbarState { content_length: 0, position: 0 },
            search: SearchState::new(),
            viewer_search: SearchState::new(),
            selected_path: None,
            last_rescan_ms: 0,
            instances_dir_cache: None,
            was_live: false,
            live: false,
        }
    }

    /// Starts loading the logs of `instance_name` under `instances_dir` at time
    /// `now_ms`: the list and the viewer empty until the caller's scan of that
    /// directory comes back through `drain_pending`.
    pub fn start_load(&mut self, instances_dir: &str, instance_name: &str, now_ms: u64)
        ensures
            final(self).loading,
            opt_view(final(self).loaded_for) == Some(instance_name@),
            opt_view(final(self).instances_dir_cache) == Some(instances_dir@),
            final(self).entries@.len() == 0,
            final(self).list_state.selected is None,
            final(self).viewer_lines@.len() == 0,
            final(self).viewer_scroll == 0,
            !final(self).viewer_focused,
            final(self).selected_path is None,
            final(self).last_rescan_ms == now_ms,
            final(self).scrollbar_state == old(self).scrollbar_state,
            final(self).viewer_max_scroll == old(self).viewer_max_scroll,
            final(self).viewer_scrollbar_state == old(self).viewer_scrollbar_state,
            final(self).search.query@ == old(self).search.query@,
            final(self).search.active == old(self).search.active,
            final(self).viewer_search.query@ == old(self).viewer_search.query@,
            final(self).viewer_search.active == old(self).viewer_search.active,
            final(self).was_live == old(self).was_live,
            final(self).live == old(self).live,
    {
        self.loading = true;
        self.loaded_for = Some(String::from_str(instance_name));
        self.instances_dir_cache = Some(String::from_str(instances_dir));
        self.entries = Vec::new();
        self.list_state = ListState { selected: None };
        self.viewer_lines = Vec::new();
        self.viewer_scroll = 0;
        self.viewer_focused = false;
        self.selected_path = None;
        self.last_rescan_ms = now_ms;
    }

    /// Whether the instance's live log is offered (it runs, starts or has just
    /// crashed); the caller tells it from the instance's run state.
    pub fn set_live(&mut self, live: bool)
        ensures
            final(self).live == live,
            final(self).same_viewer(&*old(self)),
            final(self).same_scan(&*old(self)),
            final(self).same_selection(&*old(self)),
            final(self).entries@ == old(self).entries@,
            final(self).loaded_for == old(self).loaded_for,
            final(self).loading == old(self).loading,
            final(self).search.query@ == old(self).search.query@,
            final(self).search.active == old(self).search.active,
    {
        self.live = live;
    }

    /// Takes in a finished scan: files for the instance still loaded replace the
    /// list, a first file is selected when nothing was, and a selection past the
    /// end moves to the last row. Returns the file to read into the viewer.
    pub fn drain_pending(&mut self, taken: Option<(String, Vec<LogFileEntry>)>) -> (read: Option<String>)
        ensures
            final(self).was_live == old(self).live,
            final(self).live == old(self).live,
            final(self).last_rescan_ms == old(self).last_rescan_ms,
            final(self).instances_dir_cache == old(self).instances_dir_cache,
            final(self).loaded_for == old(self).loaded_for,
            final(self).search.query@ == old(self).search.query@,
            final(self).search.active == old(self).search.active,
            match taken {
                Some(t) if opt_view(old(self).loaded_for) == Some(t.0@) => {
                    let count = final(self).display().len() as int;
                    let prev = old(self).list_state.selected;
                    &&& final(self).entries@ == t.1@
                    &&& !final(self).loading
                    &&& if count > 0 && prev is None {
                        &&& final(self).settled_from(Some(0usize))
                        &&& viewer_follows(*old(self), *final(self), item_for(*final(self), Some(0usize)), read)
                    } else {
                        &&& final(self).settled_from(prev)
                        &&& final(self).same_viewer(&*old(self))
                        &&& read is None
                    }
                },
                _ => {
                    &&& final(self).entries@ == old(self).entries@
                    &&& final(self).loading == old(self).loading
                    &&& final(self).same_selection(&*old(self))
                    &&& final(self).same_viewer(&*old(self))
                    &&& read is None
                },
            },
    {
        self.was_live = self.live;
        let taken = match taken {
            Some(t) => {
                let current = match &self.loaded_for {
                    Some(name) => str_eq(name.as_str(), t.0.as_str()),
                    None => false,
                };
                if current { Some(t) } else { None }
            },
            None => None,
        };
        match taken {
            Some((_name, entries)) => {
                let prev = self.list_state.selected;
                self.entries = entries;
                self.loading = false;
                let count = self.display_count();
                let mut read: Option<String> = None;
                if count > 0 && prev.is_none() {
                    self.list_state.selected = Some(0);
                    read = self.load_selected_content();
                } else {
                    match prev {
                        Some(sel) => if sel >= count && count > 0 {
                            self.list_state.selected = Some(count - 1);
                        },
                        None => {},
                    }
                }
                self.update_scrollbar();
                read
            },
            None => None,
        }
    }

    /// Decides a rescan at time `now_ms`: at most one per interval, and only
    /// while the loaded instance runs. Returns the directory and instance to scan.
    pub fn try_rescan(&mut self, now_ms: u64, running: bool) -> (r: Option<(String, String)>)
        ensures
            now_ms < old(self).last_rescan_ms + RESCAN_INTERVAL_MS ==> {
                &&& final(self).last_rescan_ms == old(self).last_rescan_ms
                &&& r is None
            },
            now_ms >= old(self).last_rescan_ms + RESCAN_INTERVAL_MS ==> {
                &&& final(self).last_rescan_ms == now_ms
                &&& match r {
                    Some(d) => running && opt_view(old(self).instances_dir_cache) == Some(d.0@)
                        && opt_view(old(self).loaded_for) == Some(d.1@),
                    None => !running || old(self).instances_dir_cache is None || old(self).loaded_for is None,
                }
            },
            final(self).same_list(&*old(self)),
            final(self).same_viewer(&*old(self)),
            final(self).same_selection(&*old(self)),
            final(self).instances_dir_cache == old(self).instances_dir_cache,
            final(self).was_live == old(self).was_live,
    {
        if now_ms < self.last_rescan_ms || now_ms - self.last_rescan_ms < RESCAN_INTERVAL_MS {
            return None;
        }
        self.last_rescan_ms = now_ms;
        match (&self.instances_dir_cache, &self.loaded_for) {
            (Some(dir), Some(name)) => if running {
                Some((dir.clone(), name.clone()))
            } else {
                None
            },
            _ => None,
        }
    }

    /// The selected log file, to be deleted once the user confirms; the live
    /// log cannot be deleted.
    pub fn pending_delete(&self) -> (r: Option<PendingContentDelete>)
        ensures
            match r {
                Some(d) => self.selected_item() matches Some(Some(i)) && (i as int) < self.entries@.len()
                    && d.name@ == self.entries@[i as int].name@ && d.path@ == self.entries@[i as int].path@,
                None => !(self.selected_item() is Some && self.selected_item()->0 is Some),
            },
    {
        match self.selected_item_exec() {
            Some(Some(i)) => Some(PendingContentDelete {
                name: self.entries[i].name.clone(),
                path: self.entries[i].path.clone(),
            }),
            _ => None,
        }
    }

    /// Shows the lines read from `path`, when that file is still the one selected.
    pub fn show_file_lines(&mut self, path: &str, lines: Vec<String>)
        ensures
            opt_view(old(self).selected_path) == Some(path@) ==> final(self).viewer_lines@ == lines@,
            opt_view(old(self).selected_path) != Some(path@) ==> final(self).viewer_lines@ == old(self).viewer_lines@,
            final(self).same_list(&*old(self)),
            final(self).same_scan(&*old(self)),
            final(self).same_selection(&*old(self)),
            final(self).selected_path == old(self).selected_path,
            final(self).viewer_scroll == old(self).viewer_scroll,
            final(self).viewer_focused == old(self).viewer_focused,
    {
        let current = match &self.selected_path {
            Some(p) => str_eq(p.as_str(), path),
            None => false,
        };
        if current {
            self.viewer_lines = lines;
        }
    }

    /// Sizes the viewer's scrolling for `line_count` lines in `visible_height`
    /// rows, pulling the scroll position back into range.
    pub fn update_viewer_scrollbar(&mut self, visible_height: usize, line_count: usize)
        ensures
            final(self).viewer_max_scroll == (if line_count > visible_height { line_count - visible_height } else { 0 }),
            final(self).viewer_scroll == (if old(self).viewer_scroll > final(self).viewer_max_scroll {
                final(self).viewer_max_scroll
            } else {
                old(self).viewer_scroll
            }),
            final(self).viewer_scrollbar_state == bar(final(self).viewer_max_scroll as int, final(self).viewer_scroll as int),
            final(self).same_list(&*old(self)),
            final(self).same_scan(&*old(self)),
            final(self).same_selection(&*old(self)),
            final(self).selected_path == old(self).selected_path,
            final(self).viewer_lines@ == old(self).viewer_lines@,
            final(self).viewer_focused == old(self).viewer_focused,
            final(self).viewer_search.query@ == old(self).viewer_search.query@,
            final(self).viewer_search.active == old(self).viewer_search.active,
    {
        self.viewer_max_scroll = if line_count > visible_height { line_count - visible_height } else { 0 };
        if self.viewer_scroll > self.viewer_max_scroll {
            self.viewer_scroll = self.viewer_max_scroll;
        }
        self.viewer_scrollbar_state = ScrollbarState { content_length: self.viewer_max_scroll, position: self.viewer_scroll };
    }
}

/// The files of `s` whose path is not `path`, in order.
pub open spec fn files_without(s: Seq<LogFileEntry>, path: Seq<char>) -> Seq<LogFileEntry>
    decreases s.len(),
{
    if s.len() == 0 {
        s
    } else if s.last().path@ == path {
        files_without(s.drop_last(), path)
    } else {
        files_without(s.drop_last(), path).push(s.last())
    }
}

/// Removes the files whose path is `path`, keeping the order of the rest.
fn remove_files_at(v: &mut Vec<LogFileEntry>, path: &str)
    ensures
        final(v)@ == files_without(old(v)@, path@),
{
    let ghost orig = v@;
    let len0 = v.len();
    assert(orig.len() == len0);
    let mut rest: Vec<LogFileEntry> = Vec::new();
    std::mem::swap(v, &mut rest);
    let mut k: usize = 0;
    let ghost total = orig.len();
    while rest.len() > 0
        invariant
            k + rest@.len() == total,
            total == orig.len(),
            total <= usize::MAX,
            rest@ == orig.subrange(k as int, total as int),
            v@ == files_without(orig.take(k as int), path@),
        decreases rest@.len(),
    {
        let item = rest.remove(0);
        assert(orig.take(k as int + 1).drop_last() =~= orig.take(k as int));
        assert(orig.take(k as int + 1).last() == item);
        if !str_eq(item.path.as_str(), path) {
            v.push(item);
        }
        k = k + 1;
        assert(rest@ =~= orig.subrange(k as int, total as int));
    }
    assert(orig.take(total as int) =~= orig);
}

impl LogsState {
    /// Forgets the deleted file at `path`. Without rows left the viewer closes;
    /// otherwise the selection stays in range and the viewer follows it.
    /// Returns the file to read into the viewer.
    pub fn remove_path(&mut self, path: &str) -> (read: Option<String>)
        ensures
            final(self).entries@ == files_without(old(self).entries@, path@),
            final(self).loaded_for == old(self).loaded_for,
            final(self).loading == old(self).loading,
            final(self).live == old(self).live,
            final(self).search.query@ == old(self).search.query@,
            final(self).search.active == old(self).search.active,
            final(self).same_scan(&*old(self)),
            ({
                let count = final(self).display().len() as int;
                if count == 0 {
                    &&& final(self).list_state.selected is None
                    &&& final(self).scrollbar_state == bar(0, 0)
                    &&& !final(self).viewer_focused
                    &&& final(self).selected_path is None
                    &&& final(self).viewer_lines@.len() == 0
                    &&& final(self).viewer_scroll == 0
                    &&& read is None
                } else {
                    match old(self).list_state.selected {
                        Some(k) => {
                            let sel = Some((if (k as int) < count - 1 { k as int } else { count - 1 }) as usize);
                            &&& final(self).settled_from(sel)
                            &&& viewer_follows(*old(self), *final(self), item_for(*final(self), sel), read)
                        },
                        None => {
                            &&& final(self).settled_from(None)
                            &&& final(self).same_viewer(&*old(self))
                            &&& read is None
                        },
                    }
                }
            }),
    {
        remove_files_at(&mut self.entries, path);
        let count = self.display_count();
        let mut read: Option<String> = None;
        if count == 0 {
            self.list_state.selected = None;
            self.viewer_focused = false;
            self.selected_path = None;
            self.viewer_lines = Vec::new();
            self.viewer_scroll = 0;
        } else {
            match self.list_state.selected {
                Some(sel) => {
                    self.list_state.selected = Some(if sel < count - 1 { sel } else { count - 1 });
                    read = self.load_selected_content();
                },
                None => {},
            }
        }
        self.update_scrollbar();
        read
    }

    /// Selects the first row when none is selected but some are shown, as the
    /// tab does before it draws. Returns the file to read into the viewer.
    pub fn ensure_selection(&mut self) -> (read: Option<String>)
        ensures
            old(self).list_state.selected is None && old(self).display().len() > 0 ==> {
                &&& final(self).list_state.selected == Some(0usize)
                &&& final(self).scrollbar_state == old(self).scrollbar_state
                &&& final(self).same_list(&*old(self))
                &&& final(self).same_scan(&*old(self))
                &&& viewer_follows(*old(self), *final(self), item_for(*final(self), Some(0usize)), read)
            },
            !(old(self).list_state.selected is None && old(self).display().len() > 0) ==> {
                &&& *final(self) == *old(self)
                &&& read is None
            },
    {
        if self.list_state.selected.is_none() && self.display_count() > 0 {
            self.list_state.selected = Some(0);
            self.load_selected_content()
        } else {
            None
        }
    }
}

/// How a log line is coloured, by the severity its text mentions.
#[derive(Clone, Copy, Debug, PartialEq, Eq, Structural)]
pub enum LineLevel {
    Error,
    Warn,
    Dim,
    Plain,
}

/// The severity a log line's uppercased text mentions: errors (ERROR, FATAL or
/// [STDERR]) before warnings before DEBUG or TRACE.
pub open spec fn line_level_spec(line: Seq<char>) -> LineLevel {
    let upper = crate::text::str_uppercase(line);
    if crate::text::contains_seq(upper, "ERROR"@) || crate::text::contains_seq(upper, "FATAL"@)
        || crate::text::contains_seq(upper, "[STDERR]"@) {
        LineLevel::Error
    } else if crate::text::contains_seq(upper, "WARN"@) {
        LineLevel::Warn
    } else if crate::text::contains_seq(upper, "DEBUG"@) || crate::text::contains_seq(upper, "TRACE"@) {
        LineLevel::Dim
    } else {
        LineLevel::Plain
    }
}

/// A line is coloured by the most severe word its uppercased text holds: any of
/// ERROR, FATAL, [STDERR] makes it an error; otherwise WARN a warning; otherwise
/// DEBUG or TRACE dims it; a line with none of these is plain.
pub proof fn lemma_line_level_follows_severity(line: Seq<char>)
    ensures
        ({
            let upper = crate::text::str_uppercase(line);
            let error = crate::text::contains_seq(upper, "ERROR"@) || crate::text::contains_seq(upper, "FATAL"@)
                || crate::text::contains_seq(upper, "[STDERR]"@);
            let warn = crate::text::contains_seq(upper, "WARN"@);
            let dim = crate::text::contains_seq(upper, "DEBUG"@) || crate::text::contains_seq(upper, "TRACE"@);
            &&& crate::text::contains_seq(upper, "ERROR"@) ==> line_level_spec(line) == LineLevel::Error
            &&& crate::text::contains_seq(upper, "FATAL"@) ==> line_level_spec(line) == LineLevel::Error
            &&& crate::text::contains_seq(upper, "[STDERR]"@) ==> line_level_spec(line) == LineLevel::Error
            &&& line_level_spec(line) == LineLevel::Error ==> error
            &&& (!error && warn) ==> line_level_spec(line) == LineLevel::Warn
            &&& line_level_spec(line) == LineLevel::Warn ==> !error && warn
            &&& (!error && !warn && dim) ==> line_level_spec(line) == LineLevel::Dim
            &&& line_level_spec(line) == LineLevel::Dim ==> !error && !warn && dim
            &&& line_level_spec(line) == LineLevel::Plain <==> (!error && !warn && !dim)
        }),
{
}

/// The colour class of a log line read from a file.
pub fn line_level(line: &str) -> (r: LineLevel)
    ensures
        r == line_level_spec(line@),
{
    let upper = crate::text::to_uppercase(line);
    let u = upper.as_str();
    if crate::text::contains_str(u, "ERROR") || crate::text::contains_str(u, "FATAL")
        || crate::text::contains_str(u, "[STDERR]") {
        LineLevel::Error
    } else if crate::text::contains_str(u, "WARN") {
        LineLevel::Warn
    } else if crate::text::contains_str(u, "DEBUG") || crate::text::contains_str(u, "TRACE") {
        LineLevel::Dim
    } else {
        LineLevel::Plain
    }
}

/// The indices, below `n`, of the lines that match the viewer's search.
pub open spec fn matching_lines(lines: Seq<String>, query: Seq<char>, n: int) -> Seq<usize>
    decreases n,
{
    if n <= 0 {
        seq![]
    } else if search_matches(query, lines[n - 1]@) {
        matching_lines(lines, query, n - 1).push((n - 1) as usize)
    } else {
        matching_lines(lines, query, n - 1)
    }
}

/// The lines the viewer's search keeps among the first `n`: in order, each once,
/// and a line is kept exactly when the query is empty or the line holds it,
/// ignoring case.
pub proof fn lemma_matching_lines_are_the_lines_holding_the_query(lines: Seq<String>, query: Seq<char>, n: int)
    requires
        0 <= n <= lines.len(),
        lines.len() <= usize::MAX,
    ensures
        forall|a: int, b: int| 0 <= a < b < matching_lines(lines, query, n).len()
            ==> matching_lines(lines, query, n)[a] < matching_lines(lines, query, n)[b],
        forall|a: int| 0 <= a < matching_lines(lines, query, n).len() ==> (#[trigger] matching_lines(lines, query, n)[a]) < n,
        forall|u: usize| (u as int) < n ==> (#[trigger] matching_lines(lines, query, n).contains(u) <==> (
            query.len() == 0
            || crate::text::contains_seq(crate::text::str_lowercase(lines[u as int]@), crate::text::str_lowercase(query)))),
    decreases n,
{
    if n > 0 {
        lemma_matching_lines_are_the_lines_holding_the_query(lines, query, n - 1);
        let p = matching_lines(lines, query, n - 1);
        let q = matching_lines(lines, query, n);
        if search_matches(query, lines[n - 1]@) {
            assert(q == p.push((n - 1) as usize));
            assert forall|a: int, b: int| 0 <= a < b < q.len() implies q[a] < q[b] by {
                if b < p.len() {
                    assert(q[a] == p[a] && q[b] == p[b]);
                } else {
                    assert(q[a] == p[a]);
                }
            }
            assert forall|a: int| 0 <= a < q.len() implies (#[trigger] q[a]) < n by {
                if a < p.len() {
                    assert(q[a] == p[a]);
                }
            }
            assert forall|u: usize| (u as int) < n implies (#[trigger] q.contains(u) <==> (query.len() == 0
                || crate::text::contains_seq(crate::text::str_lowercase(lines[u as int]@), crate::text::str_lowercase(query)))) by {
                let i = u as int;
                if i < n - 1 {
                    if p.contains(u) {
                        let k = choose|k: int| 0 <= k < p.len() && p[k] == u;
                        assert(q[k] == u);
                    }
                    if q.contains(u) {
                        let k = choose|k: int| 0 <= k < q.len() && q[k] == u;
                        if k < p.len() {
                            assert(p[k] == u);
                        } else {
                            assert(q[k] == (n - 1) as usize);
                            assert(false);
                        }
                    }
                    assert(p.contains(u) <==> (query.len() == 0
                        || crate::text::contains_seq(crate::text::str_lowercase(lines[i]@), crate::text::str_lowercase(query))));
                } else {
                    assert(i == n - 1);
                    assert(q[q.len() - 1] == u);
                    assert(q.contains(u));
                }
            }
        } else {
            assert(q == p);
            assert forall|u: usize| (u as int) < n implies (#[trigger] q.contains(u) <==> (query.len() == 0
                || crate::text::contains_seq(crate::text::str_lowercase(lines[u as int]@), crate::text::str_lowercase(query)))) by {
                let i = u as int;
                if i == n - 1 && q.contains(u) {
                    let k = choose|k: int| 0 <= k < q.len() && q[k] == u;
                    assert(q[k] < n - 1);
                }
            }
        }
    }
}

impl LogsState {
    /// The viewer shows the live log: it is offered and its row is selected.
    pub open spec fn showing_live(&self) -> bool {
        self.live && self.list_state.selected == Some(0usize)
    }

    /// Lays out the viewer over `all_lines` (the live log's lines while it is
    /// shown, else the file's) in `visible_height` rows: only lines matching the
    /// viewer's search count, the scroll range follows their number, and the live
    /// log keeps following new lines when it was scrolled to the bottom and no
    /// search is being typed. Returns the indices of the lines to draw, in order.
    pub fn viewer_window(&mut self, all_lines: &Vec<String>, visible_height: usize) -> (r: Vec<usize>)
        ensures
            ({
                let shown = matching_lines(all_lines@, old(self).viewer_search.query@, all_lines@.len() as int);
                let max = if shown.len() > visible_height { shown.len() - visible_height } else { 0 };
                let at_bottom = old(self).viewer_scroll + 1 >= old(self).viewer_max_scroll;
                let follow = old(self).showing_live() && at_bottom && !old(self).viewer_search.active;
                let scroll = if follow {
                    max
                } else if old(self).viewer_scroll > max {
                    max
                } else {
                    old(self).viewer_scroll as int
                };
                &&& final(self).viewer_max_scroll == max
                &&& final(self).viewer_scroll == scroll
                &&& final(self).viewer_scrollbar_state == bar(max, scroll)
                &&& r@ == shown.subrange(
                    if scroll < shown.len() { scroll } else { shown.len() as int },
                    if scroll + visible_height < shown.len() { scroll + visible_height } else { shown.len() as int },
                )
            }),
            final(self).same_list(&*old(self)),
            final(self).same_scan(&*old(self)),
            final(self).same_selection(&*old(self)),
            final(self).selected_path == old(self).selected_path,
            final(self).viewer_lines@ == old(self).viewer_lines@,
            final(self).viewer_focused == old(self).viewer_focused,
            final(self).viewer_search.query@ == old(self).viewer_search.query@,
            final(self).viewer_search.active == old(self).viewer_search.active,
    {
        let mut shown: Vec<usize> = Vec::new();
        let mut i: usize = 0;
        while i < all_lines.len()
            invariant
                i <= all_lines@.len(),
                shown@ == matching_lines(all_lines@, self.viewer_search.query@, i as int),
                shown@.len() <= i,
            decreases all_lines@.len() - i,
        {
            if self.viewer_search.matches(all_lines[i].as_str()) {
                shown.push(i);
            }
            i = i + 1;
        }
        let is_live = self.live && self.list_state.selected == Some(0usize);
        let was_at_bottom = self.viewer_max_scroll == 0 || self.viewer_scroll >= self.viewer_max_scroll - 1;
        self.update_viewer_scrollbar(visible_height, shown.len());
        if is_live && was_at_bottom && !self.viewer_search.active {
            self.viewer_scroll = self.viewer_max_scroll;
            self.viewer_scrollbar_state = ScrollbarState {
                content_length: self.viewer_max_scroll,
                position: self.viewer_scroll,
            };
        }
        let start = if self.viewer_scroll < shown.len() { self.viewer_scroll } else { shown.len() };
        let end = if visible_height < shown.len() - start { start + visible_height } else { shown.len() };
        let mut r: Vec<usize> = Vec::new();
        let mut j: usize = start;
        while j < end
            invariant
                start <= j <= end,
                end <= shown@.len(),
                r@ == shown@.subrange(start as int, j as int),
            decreases end - j,
        {
            r.push(shown[j]);
            assert(shown@.subrange(start as int, j + 1) =~= shown@.subrange(start as int, j as int).push(shown@[j as int]));
            j = j + 1;
        }
        r
    }
}

/// What a key press in the log tab asks of the caller.
#[derive(Debug)]
pub struct LogsKeyOutcome {
    /// The tab used the key.
    pub handled: bool,
    /// The file to read into the viewer.
    pub read: Option<String>,
}

/// `after` is `before` with its viewer scrolled to `scroll`.
pub open spec fn viewer_scrolled(before: LogsState, after: LogsState, scroll: int) -> bool {
    &&& after.same_list(&before)
    &&& after.same_scan(&before)
    &&& after.same_selection(&before)
    &&& after.viewer_focused == before.viewer_focused
    &&& after.viewer_lines@ == before.viewer_lines@
    &&& after.viewer_max_scroll == before.viewer_max_scroll
    &&& after.viewer_search.query@ == before.viewer_search.query@
    &&& after.viewer_search.active == before.viewer_search.active
    &&& after.selected_path == before.selected_path
    &&& after.viewer_scroll == scroll
    &&& after.viewer_scrollbar_state == bar(before.viewer_max_scroll as int, scroll)
}

/// `after` is `before` with the viewer's search at `query` (typed into when
/// `active`) and the viewer back at its top.
pub open spec fn viewer_searched(before: LogsState, after: LogsState, query: Seq<char>, active: bool) -> bool {
    &&& after.same_list(&before)
    &&& after.same_scan(&before)
    &&& after.same_selection(&before)
    &&& after.viewer_focused == before.viewer_focused
    &&& after.viewer_lines@ == before.viewer_lines@
    &&& after.viewer_max_scroll == before.viewer_max_scroll
    &&& after.viewer_scrollbar_state == before.viewer_scrollbar_state
    &&& after.selected_path == before.selected_path
    &&& after.viewer_search.query@ == query
    &&& after.viewer_search.active == active
    &&& after.viewer_scroll == 0
}

/// `after` is `before` with only the focus between list and viewer set to `focused`.
pub open spec fn focus_set(before: LogsState, after: LogsState, focused: bool) -> bool {
    &&& after.same_list(&before)
    &&& after.same_scan(&before)
    &&& after.same_selection(&before)
    &&& after.viewer_focused == focused
    &&& after.viewer_lines@ == before.viewer_lines@
    &&& after.viewer_scroll == before.viewer_scroll
    &&& after.viewer_max_scroll == before.viewer_max_scroll
    &&& after.viewer_scrollbar_state == before.viewer_scrollbar_state
    &&& after.viewer_search.query@ == before.viewer_search.query@
    &&& after.viewer_search.active == before.viewer_search.active
    &&& after.selected_path == before.selected_path
}

/// `after` is `before` with the list's search at `query` (typed into when
/// `active`), selection `sel` brought into range, and the viewer following it.
pub open spec fn list_reselected(
    before: LogsState,
    after: LogsState,
    query: Seq<char>,
    active: bool,
    sel: Option<usize>,
    read: Option<String>,
) -> bool {
    &&& after.entries@ == before.entries@
    &&& after.loaded_for == before.loaded_for
    &&& after.loading == before.loading
    &&& after.live == before.live
    &&& after.search.query@ == query
    &&& after.search.active == active
    &&& after.same_scan(&before)
    &&& after.settled_from(sel)
    &&& viewer_follows(before, after, item_for(after, sel), read)
}

/// `after` is `before` unchanged.
pub open spec fn logs_unchanged(before: LogsState, after: LogsState) -> bool {
    &&& after.same_list(&before)
    &&& after.same_scan(&before)
    &&& after.same_selection(&before)
    &&& after.same_viewer(&before)
    &&& after.viewer_lines@ == before.viewer_lines@
}

/// What a key press does in the log tab.
pub open spec fn logs_key_applied(before: LogsState, after: LogsState, key: KeyEvent, r: LogsKeyOutcome) -> bool {
    let shift = key.modifiers.shift;
    let current = match before.list_state.selected { Some(k) => k as int, None => 0 };
    let count = before.display().len() as int;
    if before.viewer_focused {
        &&& r.read is None
        &&& if before.viewer_search.active {
            &&& r.handled
            &&& match key.code {
                KeyCode::Enter => viewer_searched(before, after, before.viewer_search.query@, false),
                KeyCode::Esc => viewer_searched(before, after, Seq::empty(), false),
                KeyCode::Backspace => viewer_searched(
                    before,
                    after,
                    backspace_spec(before.viewer_search.query@, key.modifiers.control || key.modifiers.alt),
                    true,
                ),
                KeyCode::Char(c) => viewer_searched(before, after, before.viewer_search.query@.push(c), true),
                _ => logs_unchanged(before, after),
            }
        } else if key.code == KeyCode::Char('/') {
            r.handled && viewer_searched(before, after, before.viewer_search.query@, true)
        } else {
            match key.code {
                KeyCode::Char('j') | KeyCode::Down => r.handled && if before.viewer_scroll < before.viewer_max_scroll {
                    viewer_scrolled(before, after, before.viewer_scroll + 1)
                } else {
                    logs_unchanged(before, after)
                },
                KeyCode::Char('k') | KeyCode::Up => r.handled && viewer_scrolled(
                    before,
                    after,
                    if before.viewer_scroll == 0 { 0 } else { before.viewer_scroll - 1 },
                ),
                KeyCode::Char('G') => r.handled && viewer_scrolled(before, after, before.viewer_max_scroll as int),
                KeyCode::Char('g') => r.handled && viewer_scrolled(before, after, 0),
                KeyCode::Esc => r.handled && focus_set(before, after, false),
                KeyCode::Char('H') | KeyCode::Left => if shift {
                    r.handled && focus_set(before, after, false)
                } else {
                    !r.handled && logs_unchanged(before, after)
                },
                _ => !r.handled && logs_unchanged(before, after),
            }
        }
    } else if before.search.active {
        &&& r.handled
        &&& match key.code {
            KeyCode::Enter => list_reselected(before, after, before.search.query@, false, Some(0usize), r.read),
            KeyCode::Esc => list_reselected(before, after, Seq::empty(), false, Some(0usize), r.read),
            KeyCode::Backspace => list_reselected(
                before,
                after,
                backspace_spec(before.search.query@, key.modifiers.control || key.modifiers.alt),
                true,
                Some(0usize),
                r.read,
            ),
            KeyCode::Char(c) => list_reselected(before, after, before.search.query@.push(c), true, Some(0usize), r.read),
            _ => logs_unchanged(before, after) && r.read is None,
        }
    } else if key.code == KeyCode::Char('/') {
        &&& r.handled
        &&& r.read is None
        &&& after.entries@ == before.entries@
        &&& after.loaded_for == before.loaded_for
        &&& after.loading == before.loading
        &&& after.live == before.live
        &&& after.search.query@ == before.search.query@
        &&& after.search.active
        &&& after.same_scan(&before)
        &&& after.same_viewer(&before)
        &&& after.viewer_lines@ == before.viewer_lines@
        &&& after.settled_from(Some(0usize))
    } else {
        match key.code {
            KeyCode::Char('j') | KeyCode::Down => r.handled && if count == 0 {
                logs_unchanged(before, after) && r.read is None
            } else {
                list_reselected(
                    before,
                    after,
                    before.search.query@,
                    false,
                    Some((if current + 1 < count - 1 { current + 1 } else { count - 1 }) as usize),
                    r.read,
                )
            },
            KeyCode::Char('k') | KeyCode::Up => r.handled && list_reselected(
                before,
                after,
                before.search.query@,
                false,
                Some((if current == 0 { 0 } else { current - 1 }) as usize),
                r.read,
            ),
            KeyCode::Enter => r.handled && r.read is None && focus_set(before, after, true),
            KeyCode::Char('L') | KeyCode::Right => if shift {
                r.handled && r.read is None && focus_set(before, after, true)
            } else {
                !r.handled && r.read is None && logs_unchanged(before, after)
            },
            _ => !r.handled && r.read is None && logs_unchanged(before, after),
        }
    }
}

impl LogsState {
    fn set_viewer_scroll(&mut self, scroll: usize)
        ensures
            viewer_scrolled(*old(self), *final(self), scroll as int),
    {
        self.viewer_scroll = scroll;
        self.viewer_scrollbar_state = ScrollbarState { content_length: self.viewer_max_scroll, position: scroll };
    }

    fn reselect(&mut self, sel: usize) -> (read: Option<String>)
        ensures
            list_reselected(*old(self), *final(self), old(self).search.query@, old(self).search.active, Some(sel), read),
    {
        self.list_state.selected = Some(sel);
        let read = self.load_selected_content();
        self.update_scrollbar();
        read
    }
}

/// Handles a key in the log tab: typing into the viewer's or the list's search,
/// scrolling the viewer, moving through the list, and moving the focus between
/// list and viewer.
pub fn handle_key(key: &KeyEvent, state: &mut LogsState) -> (r: LogsKeyOutcome)
    ensures
        logs_key_applied(*old(state), *final(state), *key, r),
{
    let shift = key.modifiers.shift;
    if state.viewer_focused {
        if state.viewer_search.active {
            match key.code {
                KeyCode::Enter => {
                    state.viewer_search.confirm();
                    state.viewer_scroll = 0;
                },
                KeyCode::Esc => {
                    state.viewer_search.deactivate();
                    assert(state.viewer_search.query@ =~= Seq::<char>::empty());
                    state.viewer_scroll = 0;
                },
                KeyCode::Backspace => {
                    state.viewer_search.backspace(key.modifiers);
                    state.viewer_scroll = 0;
                },
                KeyCode::Char(c) => {
                    state.viewer_search.push(c);
                    state.viewer_scroll = 0;
                },
                _ => {},
            }
            return LogsKeyOutcome { handled: true, read: None };
        }
        if key.code == KeyCode::Char('/') {
            state.viewer_search.activate();
            state.viewer_scroll = 0;
            return LogsKeyOutcome { handled: true, read: None };
        }
        let handled = match key.code {
            KeyCode::Char('j') | KeyCode::Down => {
                if state.viewer_scroll < state.viewer_max_scroll {
                    let next = state.viewer_scroll + 1;
                    state.set_viewer_scroll(next);
                }
                true
            },
            KeyCode::Char('k') | KeyCode::Up => {
                let next = if state.viewer_scroll == 0 { 0 } else { state.viewer_scroll - 1 };
                state.set_viewer_scroll(next);
                true
            },
            KeyCode::Char('G') => {
                let max = state.viewer_max_scroll;
                state.set_viewer_scroll(max);
                true
            },
            KeyCode::Char('g') => {
                state.set_viewer_scroll(0);
                true
            },
            KeyCode::Esc => {
                state.viewer_focused = false;
                true
            },
            KeyCode::Char('H') | KeyCode::Left => {
                if shift {
                    state.viewer_focused = false;
                }
                shift
            },
            _ => false,
        };
        return LogsKeyOutcome { handled, read: None };
    }
    if state.search.active {
        let read = match key.code {
            KeyCode::Enter => {
                state.search.confirm();
                state.reselect(0)
            },
            KeyCode::Esc => {
                state.search.deactivate();
                assert(state.search.query@ =~= Seq::<char>::empty());
                state.reselect(0)
            },
            KeyCode::Backspace => {
                state.search.backspace(key.modifiers);
                state.reselect(0)
            },
            KeyCode::Char(c) => {
                state.search.push(c);
                state.reselect(0)
            },
            _ => None,
        };
        return LogsKeyOutcome { handled: true, read };
    }
    if key.code == KeyCode::Char('/') {
        state.search.activate();
        state.list_state.selected = Some(0);
        state.update_scrollbar();
        return LogsKeyOutcome { handled: true, read: None };
    }
    let count = state.display_count();
    let current = match state.list_state.selected { Some(k) => k, None => 0 };
    match key.code {
        KeyCode::Char('j') | KeyCode::Down => {
            if count == 0 {
                return LogsKeyOutcome { handled: true, read: None };
            }
            let next = if current < count - 1 { current + 1 } else { count - 1 };
            let read = state.reselect(next);
            LogsKeyOutcome { handled: true, read }
        },
        KeyCode::Char('k') | KeyCode::Up => {
            let next = if current == 0 { 0 } else { current - 1 };
            let read = state.reselect(next);
            LogsKeyOutcome { handled: true, read }
        },
        KeyCode::Enter => {
            state.viewer_focused = true;
            LogsKeyOutcome { handled: true, read: None }
        },
        KeyCode::Char('L') | KeyCode::Right => {
            if shift {
                state.viewer_focused = true;
            }
            LogsKeyOutcome { handled: shift, read: None }
        },
        _ => LogsKeyOutcome { handled: false, read: None },
    }
}

} // verus!
