//! The instance list on the left of the screen: search filtering, the
//! selection and its scrollbar, the popups it asks for, and the modpack
//! updates that background checks report.

use vstd::prelude::*;
use crate::keys::{KeyCode, KeyEvent};
use crate::list::{ListState, ScrollbarState};
use crate::model::{InstanceConfig, ProjectRef, ProviderProject, VersionInfo, opt_project_view};
use crate::search::{SearchState, search_matches};

verus! {

/// A modpack update check that finished: the instance, the modpack source it
/// checked and the newer version it found, if any.
pub type PendingModpackUpdate = (String, ProviderProject, Option<VersionInfo>);

/// The instance list.
pub struct State {
    pub instances: Vec<InstanceConfig>,
    pub list_state: ListState,
    pub scrollbar_state: ScrollbarState,
    pub show_popup: bool,
    pub show_import_popup: bool,
    pub search: SearchState,
    pub renaming: Option<String>,
    /// Known modpack updates by instance name; a later entry for a name wins.
    pub modpack_updates: Vec<(String, VersionInfo)>,
}

// ---------------------------------------------------------------- model

/// The indices, below `n`, of the instances whose name matches the query.
pub open spec fn shown_upto(instances: Seq<InstanceConfig>, query: Seq<char>, n: int) -> Seq<usize>
    decreases n,
{
    if n <= 0 {
        seq![]
    } else if search_matches(query, instances[n - 1].name@) {
        shown_upto(instances, query, n - 1).push((n - 1) as usize)
    } else {
        shown_upto(instances, query, n - 1)
    }
}

/// The indices of the instances shown for `query`, in order.
pub open spec fn shown(instances: Seq<InstanceConfig>, query: Seq<char>) -> Seq<usize> {
    shown_upto(instances, query, instances.len() as int)
}

/// The selection after it is brought into range: none for an empty list, the
/// first row for none, the last row for one past the end.
pub open spec fn settle(sel: Option<usize>, count: int) -> Option<usize> {
    if count == 0 {
        None
    } else {
        match sel {
            None => Some(0usize),
            Some(k) => if k > count - 1 { Some((count - 1) as usize) } else { Some(k) },
        }
    }
}

/// The scrollbar for `count` rows with `sel` selected.
pub open spec fn scrollbar_of(sel: Option<usize>, count: int) -> ScrollbarState {
    ScrollbarState {
        content_length: (if count == 0 { 0 } else { count - 1 }) as usize,
        position: match sel { Some(k) => k, None => 0usize },
    }
}

/// The row below `sel`, wrapping to the first.
pub open spec fn next_row(sel: Option<usize>, count: int) -> Option<usize> {
    match sel {
        Some(i) => if i + 1 >= count { Some(0usize) } else { Some((i + 1) as usize) },
        None => Some(0usize),
    }
}

/// The row above `sel`, wrapping to the last.
pub open spec fn previous_row(sel: Option<usize>, count: int) -> Option<usize> {
    match sel {
        Some(i) => if i == 0 { Some((count - 1) as usize) } else { Some((i - 1) as usize) },
        None => Some((count - 1) as usize),
    }
}

/// The known updates, by instance name; a later entry for a name wins.
pub open spec fn updates_map(s: Seq<(String, VersionInfo)>) -> Map<Seq<char>, VersionInfo>
    decreases s.len(),
{
    if s.len() == 0 {
        Map::empty()
    } else {
        updates_map(s.drop_last()).insert(s.last().0@, s.last().1)
    }
}

/// The entries of `s` not named `name`, in order.
pub open spec fn without_name(s: Seq<(String, VersionInfo)>, name: Seq<char>) -> Seq<(String, VersionInfo)>
    decreases s.len(),
{
    if s.len() == 0 {
        s
    } else if s.last().0@ == name {
        without_name(s.drop_last(), name)
    } else {
        without_name(s.drop_last(), name).push(s.last())
    }
}

/// The instances of `s` not named `name`, in order.
pub open spec fn instances_without(s: Seq<InstanceConfig>, name: Seq<char>) -> Seq<InstanceConfig>
    decreases s.len(),
{
    if s.len() == 0 {
        s
    } else if s.last().name@ == name {
        instances_without(s.drop_last(), name)
    } else {
        instances_without(s.drop_last(), name).push(s.last())
    }
}

/// `k` is the first instance of `s` that satisfies `named`.
pub open spec fn first_named(s: Seq<InstanceConfig>, name: Seq<char>, k: int) -> bool {
    &&& 0 <= k < s.len()
    &&& s[k].name@ == name
    &&& forall|j: int| 0 <= j < k ==> s[j].name@ != name
}

/// The first instance named `name` was installed from exactly `source`.
pub open spec fn source_still_current(s: Seq<InstanceConfig>, name: Seq<char>, source: ProjectRef) -> bool {
    exists|k: int| first_named(s, name, k) && opt_project_view(#[trigger] s[k].modpack_source) == Some(source)
}

/// The updates after one finished check: it counts only while the instance
/// still has the modpack source that was checked.
pub open spec fn apply_check(
    m: Map<Seq<char>, VersionInfo>,
    instances: Seq<InstanceConfig>,
    check: PendingModpackUpdate,
) -> Map<Seq<char>, VersionInfo> {
    if source_still_current(instances, check.0@, check.1@) {
        match check.2 {
            Some(v) => m.insert(check.0@, v),
            None => m.remove(check.0@),
        }
    } else {
        m
    }
}

/// The updates after the finished checks `p`, in order.
pub open spec fn apply_checks(
    m: Map<Seq<char>, VersionInfo>,
    instances: Seq<InstanceConfig>,
    p: Seq<PendingModpackUpdate>,
) -> Map<Seq<char>, VersionInfo>
    decreases p.len(),
{
    if p.len() == 0 {
        m
    } else {
        apply_check(apply_checks(m, instances, p.drop_last()), instances, p.last())
    }
}

/// `k` is the first instance named `a` or `b`.
pub open spec fn first_named_either(s: Seq<InstanceConfig>, a: Seq<char>, b: Seq<char>, k: int) -> bool {
    &&& 0 <= k < s.len()
    &&& (s[k].name@ == a || s[k].name@ == b)
    &&& forall|j: int| 0 <= j < k ==> s[j].name@ != a && s[j].name@ != b
}

/// The instances after `instance` replaces the first one named `old_name` or
/// named like `instance`, or joins the end when there is none.
pub open spec fn replaced(s: Seq<InstanceConfig>, old_name: Seq<char>, instance: InstanceConfig) -> Seq<InstanceConfig> {
    if exists|k: int| first_named_either(s, old_name, instance.name@, k) {
        s.update(choose|k: int| first_named_either(s, old_name, instance.name@, k), instance)
    } else {
        s.push(instance)
    }
}

/// Every field of two versions reads the same.
pub open spec fn same_version(a: VersionInfo, b: VersionInfo) -> bool {
    &&& a.id@ == b.id@
    &&& a.project_id@ == b.project_id@
    &&& a.name@ == b.name@
    &&& a.version_number@ == b.version_number@
    &&& a.game_versions@ == b.game_versions@
    &&& a.loaders@ == b.loaders@
    &&& a.date_published@ == b.date_published@
}

// ---------------------------------------------------------------- lemmas

proof fn lemma_shown_bounded(instances: Seq<InstanceConfig>, query: Seq<char>, n: int)
    requires
        0 <= n <= instances.len(),
    ensures
        shown_upto(instances, query, n).len() <= n,
        forall|k: int| 0 <= k < shown_upto(instances, query, n).len()
            ==> #[trigger] shown_upto(instances, query, n)[k] < n,
    decreases n,
{
    if n > 0 {
        lemma_shown_bounded(instances, query, n - 1);
    }
}

proof fn lemma_without_map(s: Seq<(String, VersionInfo)>, name: Seq<char>)
    ensures
        updates_map(without_name(s, name)) == updates_map(s).remove(name),
    decreases s.len(),
{
    if s.len() == 0 {
        assert(updates_map(s).remove(name) =~= Map::<Seq<char>, VersionInfo>::empty());
    } else {
        lemma_without_map(s.drop_last(), name);
        if s.last().0@ == name {
            assert(updates_map(s).remove(name) =~= updates_map(s.drop_last()).remove(name));
        } else {
            let w = without_name(s.drop_last(), name);
            assert(w.push(s.last()).drop_last() =~= w);
            assert(updates_map(s).remove(name) =~= updates_map(s.drop_last()).remove(name).insert(
                s.last().0@,
                s.last().1,
            ));
        }
    }
}

proof fn lemma_map_last(s: Seq<(String, VersionInfo)>, name: Seq<char>, k: int)
    requires
        0 <= k < s.len(),
        s[k].0@ == name,
        forall|j: int| k < j < s.len() ==> s[j].0@ != name,
    ensures
        updates_map(s).contains_key(name),
        updates_map(s)[name] == s[k].1,
    decreases s.len(),
{
    if k < s.len() - 1 {
        lemma_map_last(s.drop_last(), name, k);
    }
}

proof fn lemma_map_absent(s: Seq<(String, VersionInfo)>, name: Seq<char>)
    requires
        forall|j: int| 0 <= j < s.len() ==> s[j].0@ != name,
    ensures
        !updates_map(s).contains_key(name),
    decreases s.len(),
{
    if s.len() > 0 {
        lemma_map_absent(s.drop_last(), name);
    }
}

proof fn lemma_first_named_unique(s: Seq<InstanceConfig>, name: Seq<char>, a: int, b: int)
    requires
        first_named(s, name, a),
        first_named(s, name, b),
    ensures
        a == b,
{
    if a < b {
        assert(s[a].name@ != name);
    } else if b < a {
        assert(s[b].name@ != name);
    }
}

proof fn lemma_first_either_unique(s: Seq<InstanceConfig>, x: Seq<char>, y: Seq<char>, a: int, b: int)
    requires
        first_named_either(s, x, y, a),
        first_named_either(s, x, y, b),
    ensures
        a == b,
{
    if a < b {
        assert(s[a].name@ != x && s[a].name@ != y);
    } else if b < a {
        assert(s[b].name@ != x && s[b].name@ != y);
    }
}

// ---------------------------------------------------------------- helpers

/// The first instance named `name`.
fn find_named(instances: &Vec<InstanceConfig>, name: &str) -> (r: Option<usize>)
    ensures
        match r {
            Some(k) => first_named(instances@, name@, k as int),
            None => forall|j: int| 0 <= j < instances@.len() ==> instances@[j].name@ != name@,
        },
{
    let mut i: usize = 0;
    while i < instances.len()
        invariant
            i <= instances@.len(),
            forall|j: int| 0 <= j < i ==> instances@[j].name@ != name@,
        decreases instances@.len() - i,
    {
        if crate::text::str_eq(instances[i].name.as_str(), name) {
            return Some(i);
        }
        i = i + 1;
    }
    None
}

/// Removes every entry named `name` from `v`, keeping the order of the rest.
fn remove_named(v: &mut Vec<(String, VersionInfo)>, name: &str)
    ensures
        final(v)@ == without_name(old(v)@, name@),
        updates_map(final(v)@) == updates_map(old(v)@).remove(name@),
{
    let ghost orig = v@;
    let len0 = v.len();
    assert(orig.len() == len0);
    let mut rest: Vec<(String, VersionInfo)> = Vec::new();
    std::mem::swap(v, &mut rest);
    let mut k: usize = 0;
    let ghost total = orig.len();
    while rest.len() > 0
        invariant
            k + rest@.len() == total,
            total == orig.len(),
            total <= usize::MAX,
            rest@ == orig.subrange(k as int, total as int),
            v@ == without_name(orig.take(k as int), name@),
        decreases rest@.len(),
    {
        let item = rest.remove(0);
        assert(orig.take(k as int + 1).drop_last() =~= orig.take(k as int));
        assert(orig.take(k as int + 1).last() == item);
        if !crate::text::str_eq(item.0.as_str(), name) {
            v.push(item);
        }
        k = k + 1;
        assert(rest@ =~= orig.subrange(k as int, total as int));
    }
    assert(orig.take(total as int) =~= orig);
    proof {
        lemma_without_map(orig, name@);
    }
}

/// Records `update` for `name`, replacing what was known for it.
fn set_update(v: &mut Vec<(String, VersionInfo)>, name: String, update: VersionInfo)
    ensures
        updates_map(final(v)@) == updates_map(old(v)@).insert(name@, update),
{
    remove_named(v, name.as_str());
    let ghost mid = v@;
    let ghost n = name@;
    v.push((name, update));
    proof {
        assert(v@.drop_last() == mid);
        assert(updates_map(old(v)@).remove(n).insert(n, update) =~= updates_map(old(v)@).insert(n, update));
    }
}

/// The version known for `name`: the last entry with that name.
fn lookup_update<'a>(v: &'a Vec<(String, VersionInfo)>, name: &str) -> (r: Option<&'a VersionInfo>)
    ensures
        match r {
            Some(x) => updates_map(v@).contains_key(name@) && *x == updates_map(v@)[name@],
            None => !updates_map(v@).contains_key(name@),
        },
{
    let mut i: usize = v.len();
    while i > 0
        invariant
            i <= v@.len(),
            forall|j: int| i <= j < v@.len() ==> v@[j].0@ != name@,
        decreases i,
    {
        if crate::text::str_eq(v[i - 1].0.as_str(), name) {
            proof {
                lemma_map_last(v@, name@, i - 1);
            }
            return Some(&v[i - 1].1);
        }
        i = i - 1;
    }
    proof {
        lemma_map_absent(v@, name@);
    }
    None
}

proof fn lemma_shown_all(instances: Seq<InstanceConfig>, query: Seq<char>, n: int)
    requires
        0 <= n <= instances.len(),
        query.len() == 0,
    ensures
        shown_upto(instances, query, n).len() == n,
    decreases n,
{
    if n > 0 {
        lemma_shown_all(instances, query, n - 1);
    }
}

/// The modpack update checks to start for `instances`: one per instance
/// installed from a modpack, with its name and source.
pub open spec fn checks_for(instances: Seq<InstanceConfig>) -> Seq<(Seq<char>, ProjectRef)>
    decreases instances.len(),
{
    if instances.len() == 0 {
        seq![]
    } else {
        let rest = checks_for(instances.drop_last());
        match instances.last().modpack_source {
            Some(src) => rest.push((instances.last().name@, src@)),
            None => rest,
        }
    }
}

/// The check to start for one instance: none when checks are off or the
/// instance was not installed from a modpack.
pub fn spawn_modpack_update_check(instance: &InstanceConfig, enabled: bool) -> (r: Option<(String, ProviderProject)>)
    ensures
        match r {
            Some(c) => enabled && (instance.modpack_source matches Some(src) && c.0@ == instance.name@ && c.1@ == src@),
            None => !enabled || instance.modpack_source is None,
        },
{
    if !enabled {
        return None;
    }
    match &instance.modpack_source {
        Some(src) => Some((instance.name.clone(), src.clone())),
        None => None,
    }
}

/// The modpack update checks to start, in the order of the instances: none when
/// checks are turned off in the settings.
pub fn spawn_modpack_update_checks(instances: &Vec<InstanceConfig>, enabled: bool) -> (r: Vec<(String, ProviderProject)>)
    ensures
        r@.map_values(|c: (String, ProviderProject)| (c.0@, c.1@)) == (if enabled {
            checks_for(instances@)
        } else {
            Seq::<(Seq<char>, ProjectRef)>::empty()
        }),
{
    let mut r: Vec<(String, ProviderProject)> = Vec::new();
    if !enabled {
        assert(r@.map_values(|c: (String, ProviderProject)| (c.0@, c.1@)) =~= Seq::<(Seq<char>, ProjectRef)>::empty());
        return r;
    }
    let mut i: usize = 0;
    while i < instances.len()
        invariant
            i <= instances@.len(),
            enabled,
            r@.map_values(|c: (String, ProviderProject)| (c.0@, c.1@)) == checks_for(instances@.take(i as int)),
        decreases instances@.len() - i,
    {
        assert(instances@.take(i as int + 1).drop_last() =~= instances@.take(i as int));
        assert(instances@.take(i as int + 1).last() == instances@[i as int]);
        let ghost before = r@;
        match spawn_modpack_update_check(&instances[i], enabled) {
            Some(c) => {
                r.push(c);
                assert(r@.map_values(|c: (String, ProviderProject)| (c.0@, c.1@)) =~= before.map_values(
                    |c: (String, ProviderProject)| (c.0@, c.1@),
                ).push((instances@[i as int].name@, instances@[i as int].modpack_source->0@)));
            },
            None => {},
        }
        i = i + 1;
    }
    assert(instances@.take(instances@.len() as int) =~= instances@);
    r
}

impl State {
    /// The indices of the shown instances.
    pub open spec fn filtered(&self) -> Seq<usize> {
        shown(self.instances@, self.search.query@)
    }

    /// The instance index of the selected row.
    pub open spec fn selected_row(&self) -> Option<int> {
        match self.list_state.selected {
            Some(k) => if (k as int) < self.filtered().len() {
                Some(self.filtered()[k as int] as int)
            } else {
                None
            },
            None => None,
        }
    }

    /// The known modpack updates by instance name.
    pub open spec fn updates(&self) -> Map<Seq<char>, VersionInfo> {
        updates_map(self.modpack_updates@)
    }

    /// Everything but the selection and the scrollbar is as in `other`.
    pub open spec fn same_but_selection(&self, other: &State) -> bool {
        &&& self.instances@ == other.instances@
        &&& self.search.query@ == other.search.query@
        &&& self.search.active == other.search.active
        &&& self.show_popup == other.show_popup
        &&& self.show_import_popup == other.show_import_popup
        &&& self.renaming == other.renaming
        &&& self.modpack_updates@ == other.modpack_updates@
    }

    /// The scrollbar matches the selection and the number of shown rows.
    pub open spec fn scrollbar_synced(&self) -> bool {
        self.scrollbar_state == scrollbar_of(self.list_state.selected, self.filtered().len() as int)
    }

    /// The selection is `sel` brought into range, with its scrollbar.
    pub open spec fn settled_from(&self, sel: Option<usize>) -> bool {
        &&& self.list_state.selected == settle(sel, self.filtered().len() as int)
        &&& self.scrollbar_synced()
    }

    /// The indices of the shown instances, in order.
    pub fn filtered_indices(&self) -> (r: Vec<usize>)
        ensures
            r@ == self.filtered(),
    {
        let mut r: Vec<usize> = Vec::new();
        let mut i: usize = 0;
        while i < self.instances.len()
            invariant
                i <= self.instances@.len(),
                r@ == shown_upto(self.instances@, self.search.query@, i as int),
            decreases self.instances@.len() - i,
        {
            if self.search.matches(self.instances[i].name.as_str()) {
                r.push(i);
            }
            i = i + 1;
        }
        r
    }

    /// Brings the selection into range and recomputes the scrollbar.
    pub fn update_scrollbar(&mut self)
        ensures
            final(self).same_but_selection(&*old(self)),
            final(self).settled_from(old(self).list_state.selected),
    {
        let count = self.filtered_indices().len();
        let items: usize = if count == 0 { 0 } else { count - 1 };
        let index = match self.list_state.selected { Some(k) => k, None => 0 };
        if count == 0 {
            self.list_state.selected = None;
        } else if self.list_state.selected.is_none() {
            self.list_state.selected = Some(0);
        } else if index > items {
            self.list_state.selected = Some(items);
        }
        let position = match self.list_state.selected { Some(k) => k, None => 0 };
        self.scrollbar_state = ScrollbarState { content_length: items, position };
    }

    /// A list of `instances` with the first one selected.
    pub fn with_instances(instances: Vec<InstanceConfig>) -> (r: State)
        ensures
            r.instances@ == instances@,
            r.list_state.selected == (if instances@.len() > 0 { Some(0usize) } else { None }),
            r.scrollbar_synced(),
            r.filtered().len() == instances@.len(),
            !r.show_popup,
            !r.show_import_popup,
            r.search.query@.len() == 0,
            !r.search.active,
            r.renaming is None,
            r.updates() == Map::<Seq<char>, VersionInfo>::empty(),
    {
        let count = instances.len();
        let mut s = State {
            instances,
            list_state: ListState { selected: None },
            scrollbar_state: ScrollbarState { content_length: 0, position: 0 },
            show_popup: false,
            show_import_popup: false,
            search: SearchState::new(),
            renaming: None,
            modpack_updates: Vec::new(),
        };
        if count > 0 {
            s.list_state.selected = Some(0);
        }
        proof {
            lemma_shown_all(s.instances@, s.search.query@, s.instances@.len() as int);
        }
        s.update_scrollbar();
        s
    }

    /// The selected instance.
    pub fn selected_instance(&self) -> (r: Option<&InstanceConfig>)
        ensures
            match r {
                Some(x) => self.selected_row() matches Some(i) && 0 <= i < self.instances@.len()
                    && *x == self.instances@[i],
                None => self.selected_row() is None,
            },
    {
        let filtered = self.filtered_indices();
        proof {
            lemma_shown_bounded(self.instances@, self.search.query@, self.instances@.len() as int);
        }
        match self.list_state.selected {
            Some(k) => if k < filtered.len() {
                let idx = filtered[k];
                Some(&self.instances[idx])
            } else {
                None
            },
            None => None,
        }
    }

    /// Moves the selection one row down, wrapping to the first.
    fn next(&mut self)
        ensures
            final(self).same_but_selection(&*old(self)),
            old(self).filtered().len() == 0 ==> *final(self) == *old(self),
            old(self).filtered().len() > 0 ==> final(self).settled_from(
                next_row(old(self).list_state.selected, old(self).filtered().len() as int),
            ),
    {
        let count = self.filtered_indices().len();
        if count == 0 {
            return;
        }
        let next = match self.list_state.selected {
            Some(i) => if i >= count - 1 { 0 } else { i + 1 },
            None => 0,
        };
        self.list_state.selected = Some(next);
        self.update_scrollbar();
    }

    /// Moves the selection one row up, wrapping to the last.
    fn previous(&mut self)
        ensures
            final(self).same_but_selection(&*old(self)),
            old(self).filtered().len() == 0 ==> *final(self) == *old(self),
            old(self).filtered().len() > 0 ==> final(self).settled_from(
                previous_row(old(self).list_state.selected, old(self).filtered().len() as int),
            ),
    {
        let count = self.filtered_indices().len();
        if count == 0 {
            return;
        }
        let previous = match self.list_state.selected {
            Some(i) => if i == 0 { count - 1 } else { i - 1 },
            None => count - 1,
        };
        self.list_state.selected = Some(previous);
        self.update_scrollbar();
    }

    /// Whether the new-instance popup was asked for.
    pub fn wants_popup(&self) -> (r: bool)
        ensures
            r == self.show_popup,
    {
        self.show_popup
    }

    /// Whether the modpack import popup was asked for.
    pub fn wants_import_popup(&self) -> (r: bool)
        ensures
            r == self.show_import_popup,
    {
        self.show_import_popup
    }
}

proof fn lemma_instances_without_len(s: Seq<InstanceConfig>, name: Seq<char>)
    ensures
        instances_without(s, name).len() <= s.len(),
        instances_without(s, name).len() == s.len() <==> forall|j: int| 0 <= j < s.len() ==> s[j].name@ != name,
    decreases s.len(),
{
    if s.len() > 0 {
        lemma_instances_without_len(s.drop_last(), name);
        if s.last().name@ == name {
            assert(!(forall|j: int| 0 <= j < s.len() ==> s[j].name@ != name)) by {
                assert(s[s.len() - 1].name@ == name);
            }
        } else {
            assert((forall|j: int| 0 <= j < s.len() ==> s[j].name@ != name) <==> (forall|j: int|
                0 <= j < s.drop_last().len() ==> s.drop_last()[j].name@ != name)) by {
                assert forall|j: int| 0 <= j < s.drop_last().len() implies s.drop_last()[j] == s[j] by {}
            }
        }
    }
}

/// Removes every instance named `name`, keeping the order of the rest.
fn remove_instances_named(v: &mut Vec<InstanceConfig>, name: &str)
    ensures
        final(v)@ == instances_without(old(v)@, name@),
{
    let ghost orig = v@;
    let len0 = v.len();
    assert(orig.len() == len0);
    let mut rest: Vec<InstanceConfig> = Vec::new();
    std::mem::swap(v, &mut rest);
    let mut k: usize = 0;
    let ghost total = orig.len();
    while rest.len() > 0
        invariant
            k + rest@.len() == total,
            total == orig.len(),
            total <= usize::MAX,
            rest@ == orig.subrange(k as int, total as int),
            v@ == instances_without(orig.take(k as int), name@),
        decreases rest@.len(),
    {
        let item = rest.remove(0);
        assert(orig.take(k as int + 1).drop_last() =~= orig.take(k as int));
        assert(orig.take(k as int + 1).last() == item);
        if !crate::text::str_eq(item.name.as_str(), name) {
            v.push(item);
        }
        k = k + 1;
        assert(rest@ =~= orig.subrange(k as int, total as int));
    }
    assert(orig.take(total as int) =~= orig);
}

impl State {
    /// Removes the instances named `name`; when one was removed, its known
    /// modpack update is dropped too and the selection is brought into range.
    pub fn remove_instance(&mut self, name: &str)
        ensures
            final(self).instances@ == instances_without(old(self).instances@, name@),
            final(self).instances@.len() < old(self).instances@.len() ==> {
                &&& final(self).updates() == old(self).updates().remove(name@)
                &&& final(self).settled_from(old(self).list_state.selected)
            },
            final(self).instances@.len() == old(self).instances@.len() ==> {
                &&& final(self).modpack_updates@ == old(self).modpack_updates@
                &&& final(self).list_state == old(self).list_state
                &&& final(self).scrollbar_state == old(self).scrollbar_state
            },
            final(self).search.query@ == old(self).search.query@,
            final(self).search.active == old(self).search.active,
            final(self).show_popup == old(self).show_popup,
            final(self).show_import_popup == old(self).show_import_popup,
            final(self).renaming == old(self).renaming,
    {
        let before = self.instances.len();
        remove_instances_named(&mut self.instances, name);
        proof {
            lemma_instances_without_len(old(self).instances@, name@);
        }
        let after = self.instances.len();
        if after < before {
            remove_named(&mut self.modpack_updates, name);
            self.update_scrollbar();
        }
    }

    /// Takes in the finished modpack update checks, in order: a check counts only
    /// while the instance still has the modpack source it checked, and then
    /// records its newer version or forgets the instance's update.
    pub fn drain_modpack_updates(&mut self, pending: Vec<PendingModpackUpdate>)
        ensures
            final(self).updates() == apply_checks(old(self).updates(), old(self).instances@, pending@),
            final(self).instances@ == old(self).instances@,
            final(self).list_state == old(self).list_state,
            final(self).scrollbar_state == old(self).scrollbar_state,
            final(self).search.query@ == old(self).search.query@,
            final(self).search.active == old(self).search.active,
            final(self).show_popup == old(self).show_popup,
            final(self).show_import_popup == old(self).show_import_popup,
            final(self).renaming == old(self).renaming,
    {
        let ghost orig = pending@;
        let mut rest = pending;
        let len0 = rest.len();
        let ghost total = orig.len();
        let mut k: usize = 0;
        while rest.len() > 0
            invariant
                k + rest@.len() == total,
                total == orig.len(),
                total == len0,
                rest@ == orig.subrange(k as int, total as int),
                self.updates() == apply_checks(old(self).updates(), old(self).instances@, orig.take(k as int)),
                self.instances@ == old(self).instances@,
                self.list_state == old(self).list_state,
                self.scrollbar_state == old(self).scrollbar_state,
                self.search.query@ == old(self).search.query@,
                self.search.active == old(self).search.active,
                self.show_popup == old(self).show_popup,
                self.show_import_popup == old(self).show_import_popup,
                self.renaming == old(self).renaming,
            decreases rest@.len(),
        {
            let check = rest.remove(0);
            assert(orig.take(k as int + 1).drop_last() =~= orig.take(k as int));
            assert(orig.take(k as int + 1).last() == check);
            let ghost m0 = self.updates();
            let (name, source, update) = check;
            let current = match find_named(&self.instances, name.as_str()) {
                Some(i) => match &self.instances[i].modpack_source {
                    Some(src) => {
                        proof {
                            if src@ == source@ {
                                assert(opt_project_view(self.instances@[i as int].modpack_source) == Some(source@));
                            } else {
                                assert forall|j: int| first_named(self.instances@, name@, j) implies opt_project_view(
                                    self.instances@[j].modpack_source,
                                ) != Some(source@) by {
                                    lemma_first_named_unique(self.instances@, name@, i as int, j);
                                }
                            }
                        }
                        src.equals(&source)
                    },
                    None => {
                        proof {
                            assert forall|j: int| first_named(self.instances@, name@, j) implies opt_project_view(
                                self.instances@[j].modpack_source,
                            ) != Some(source@) by {
                                lemma_first_named_unique(self.instances@, name@, i as int, j);
                            }
                        }
                        false
                    },
                },
                None => false,
            };
            assert(current == source_still_current(self.instances@, name@, source@));
            if current {
                match update {
                    Some(v) => set_update(&mut self.modpack_updates, name, v),
                    None => remove_named(&mut self.modpack_updates, name.as_str()),
                }
            }
            k = k + 1;
            assert(rest@ =~= orig.subrange(k as int, total as int));
        }
        assert(orig.take(total as int) =~= orig);
    }

    /// Adds an instance and selects the last shown row.
    pub fn add_instance(&mut self, instance: InstanceConfig)
        ensures
            final(self).instances@ == old(self).instances@.push(instance),
            final(self).list_state.selected == (if final(self).filtered().len() == 0 {
                None
            } else {
                Some((final(self).filtered().len() - 1) as usize)
            }),
            final(self).scrollbar_synced(),
            final(self).modpack_updates@ == old(self).modpack_updates@,
            final(self).search.query@ == old(self).search.query@,
            final(self).search.active == old(self).search.active,
            final(self).show_popup == old(self).show_popup,
            final(self).show_import_popup == old(self).show_import_popup,
            final(self).renaming == old(self).renaming,
    {
        self.instances.push(instance);
        let count = self.filtered_indices().len();
        self.list_state.selected = if count == 0 { None } else { Some(count - 1) };
        self.update_scrollbar();
    }

    /// The newer version known for the selected instance's modpack.
    pub fn selected_modpack_update(&self) -> (r: Option<VersionInfo>)
        ensures
            match r {
                Some(v) => self.selected_row() matches Some(i) && 0 <= i < self.instances@.len()
                    && self.updates().contains_key(self.instances@[i].name@)
                    && same_version(v, self.updates()[self.instances@[i].name@]),
                None => self.selected_row() matches Some(i) ==> 0 <= i < self.instances@.len()
                    && !self.updates().contains_key(self.instances@[i].name@),
            },
    {
        match self.selected_instance() {
            Some(instance) => match lookup_update(&self.modpack_updates, instance.name.as_str()) {
                Some(v) => Some(v.clone()),
                None => None,
            },
            None => None,
        }
    }

    /// Puts `instance` in place of the first instance named `old_name` or named
    /// like `instance`, or adds it at the end; then brings the selection into range.
    pub fn replace_instance(&mut self, old_name: &str, instance: InstanceConfig)
        ensures
            final(self).instances@ == replaced(old(self).instances@, old_name@, instance),
            final(self).settled_from(old(self).list_state.selected),
            final(self).modpack_updates@ == old(self).modpack_updates@,
            final(self).search.query@ == old(self).search.query@,
            final(self).search.active == old(self).search.active,
            final(self).show_popup == old(self).show_popup,
            final(self).show_import_popup == old(self).show_import_popup,
            final(self).renaming == old(self).renaming,
    {
        let ghost s0 = self.instances@;
        let ghost inst = instance;
        let mut i: usize = 0;
        let mut found: Option<usize> = None;
        while i < self.instances.len()
            invariant_except_break
                found is None,
            invariant
                i <= self.instances@.len(),
                self.instances@ == s0,
                instance == inst,
                forall|j: int| 0 <= j < i ==> s0[j].name@ != old_name@ && s0[j].name@ != inst.name@,
            ensures
                match found {
                    Some(k) => first_named_either(s0, old_name@, inst.name@, k as int),
                    None => forall|j: int| 0 <= j < s0.len() ==> s0[j].name@ != old_name@ && s0[j].name@ != inst.name@,
                },
            decreases self.instances@.len() - i,
        {
            if crate::text::str_eq(self.instances[i].name.as_str(), old_name)
                || crate::text::str_eq(self.instances[i].name.as_str(), instance.name.as_str()) {
                found = Some(i);
                break;
            }
            i = i + 1;
        }
        match found {
            Some(k) => {
                proof {
                    let c = choose|c: int| first_named_either(s0, old_name@, inst.name@, c);
                    lemma_first_either_unique(s0, old_name@, inst.name@, k as int, c);
                }
                self.instances.set(k, instance);
            },
            None => {
                proof {
                    assert(!exists|c: int| first_named_either(s0, old_name@, inst.name@, c));
                }
                self.instances.push(instance);
            },
        }
        self.update_scrollbar();
    }
}

/// The instances, popups, rename and updates are as in `b`.
pub open spec fn same_core(a: State, b: State) -> bool {
    &&& a.instances@ == b.instances@
    &&& a.show_popup == b.show_popup
    &&& a.show_import_popup == b.show_import_popup
    &&& a.renaming == b.renaming
    &&& a.modpack_updates@ == b.modpack_updates@
}

/// `after` is `before` once the search is `query` (typing into it when `active`)
/// and the first row is selected again.
pub open spec fn searched(before: State, after: State, query: Seq<char>, active: bool) -> bool {
    &&& same_core(after, before)
    &&& after.search.query@ == query
    &&& after.search.active == active
    &&& after.settled_from(Some(0usize))
}

/// `after` is `before` with nothing changed that a caller can see.
pub open spec fn unchanged(before: State, after: State) -> bool {
    &&& same_core(after, before)
    &&& after.search.query@ == before.search.query@
    &&& after.search.active == before.search.active
    &&& after.list_state == before.list_state
    &&& after.scrollbar_state == before.scrollbar_state
}

/// What a key press does to the instance list.
pub open spec fn instances_key_applied(before: State, after: State, key: KeyEvent) -> bool {
    let count = before.filtered().len() as int;
    if before.search.active {
        match key.code {
            KeyCode::Enter => searched(before, after, before.search.query@, false),
            KeyCode::Esc => searched(before, after, Seq::empty(), false),
            KeyCode::Backspace => searched(
                before,
                after,
                crate::search::backspace_spec(before.search.query@, key.modifiers.control || key.modifiers.alt),
                true,
            ),
            KeyCode::Char(c) => searched(before, after, before.search.query@.push(c), true),
            _ => unchanged(before, after),
        }
    } else {
        match key.code {
            KeyCode::Char('/') => searched(before, after, before.search.query@, true),
            KeyCode::Char('a') => {
                &&& after.show_popup
                &&& after.instances@ == before.instances@
                &&& after.show_import_popup == before.show_import_popup
                &&& after.renaming == before.renaming
                &&& after.modpack_updates@ == before.modpack_updates@
                &&& after.search.query@ == before.search.query@
                &&& after.search.active == before.search.active
                &&& after.settled_from(before.list_state.selected)
            },
            KeyCode::Char('m') => {
                &&& after.show_import_popup
                &&& after.instances@ == before.instances@
                &&& after.show_popup == before.show_popup
                &&& after.renaming == before.renaming
                &&& after.modpack_updates@ == before.modpack_updates@
                &&& after.search.query@ == before.search.query@
                &&& after.search.active == before.search.active
                &&& after.list_state == before.list_state
                &&& after.scrollbar_state == before.scrollbar_state
            },
            KeyCode::Char('j') | KeyCode::Down => if count == 0 {
                unchanged(before, after)
            } else {
                &&& same_core(after, before)
                &&& after.search.query@ == before.search.query@
                &&& !after.search.active
                &&& after.settled_from(next_row(before.list_state.selected, count))
            },
            KeyCode::Char('k') | KeyCode::Up => if count == 0 {
                unchanged(before, after)
            } else {
                &&& same_core(after, before)
                &&& after.search.query@ == before.search.query@
                &&& !after.search.active
                &&& after.settled_from(previous_row(before.list_state.selected, count))
            },
            _ => unchanged(before, after),
        }
    }
}

impl State {
    /// Handles a key while the instance list has the focus: typing into an active
    /// search, or the list's own keys.
    pub fn handle_key(&mut self, key: &KeyEvent)
        ensures
            instances_key_applied(*old(self), *final(self), *key),
    {
        if self.search.active {
            match key.code {
                KeyCode::Enter => {
                    self.search.confirm();
                    self.list_state.selected = Some(0);
                    self.update_scrollbar();
                },
                KeyCode::Esc => {
                    self.search.deactivate();
                    assert(self.search.query@ =~= Seq::<char>::empty());
                    self.list_state.selected = Some(0);
                    self.update_scrollbar();
                },
                KeyCode::Backspace => {
                    self.search.backspace(key.modifiers);
                    self.list_state.selected = Some(0);
                    self.update_scrollbar();
                },
                KeyCode::Char(c) => {
                    self.search.push(c);
                    self.list_state.selected = Some(0);
                    self.update_scrollbar();
                },
                _ => {},
            }
            return;
        }
        match key.code {
            KeyCode::Char('/') => {
                self.search.activate();
                self.list_state.selected = Some(0);
                self.update_scrollbar();
            },
            KeyCode::Char('a') => {
                self.show_popup = true;
                self.update_scrollbar();
            },
            KeyCode::Char('m') => {
                self.show_import_popup = true;
            },
            KeyCode::Char('j') | KeyCode::Down => self.next(),
            KeyCode::Char('k') | KeyCode::Up => self.previous(),
            _ => {},
        }
    }
}

impl State {
    /// Types into the name being edited: Enter ends the edit and returns the new
    /// name (the caller renames the instance on disk, then calls `apply_rename`),
    /// Esc drops the edit, Backspace and characters edit the name.
    pub fn rename_key(&mut self, key: &KeyEvent) -> (r: Option<String>)
        requires
            old(self).renaming is Some,
        ensures
            final(self).instances@ == old(self).instances@,
            final(self).list_state == old(self).list_state,
            final(self).scrollbar_state == old(self).scrollbar_state,
            final(self).search.query@ == old(self).search.query@,
            final(self).search.active == old(self).search.active,
            final(self).show_popup == old(self).show_popup,
            final(self).show_import_popup == old(self).show_import_popup,
            final(self).modpack_updates@ == old(self).modpack_updates@,
            match key.code {
                KeyCode::Enter => final(self).renaming is None && (r matches Some(n) && n@ == old(self).renaming->0@),
                KeyCode::Esc => final(self).renaming is None && r is None,
                KeyCode::Backspace => r is None && (final(self).renaming matches Some(n)
                    && n@ == crate::search::backspace_spec(old(self).renaming->0@, key.modifiers.control || key.modifiers.alt)),
                KeyCode::Char(c) => r is None && (final(self).renaming matches Some(n) && n@ == old(self).renaming->0@.push(c)),
                _ => r is None && final(self).renaming == old(self).renaming,
            },
    {
        match key.code {
            KeyCode::Enter => self.renaming.take(),
            KeyCode::Esc => {
                self.renaming = None;
                None
            },
            KeyCode::Backspace => {
                let mut name = match self.renaming.take() { Some(n) => n, None => String::new() };
                crate::search::backspace(&mut name, key.modifiers);
                self.renaming = Some(name);
                None
            },
            KeyCode::Char(c) => {
                let mut name = match self.renaming.take() { Some(n) => n, None => String::new() };
                crate::text::push_char(&mut name, c);
                self.renaming = Some(name);
                None
            },
            _ => None,
        }
    }

    /// Gives the first instance named `old_name` its new name, trimmed, once the
    /// rename on disk succeeded.
    pub fn apply_rename(&mut self, old_name: &str, new_name: &str)
        ensures
            final(self).instances@.len() == old(self).instances@.len(),
            match find_first_named(old(self).instances@, old_name@) {
                Some(k) => forall|i: int| 0 <= i < old(self).instances@.len() ==> {
                    let e = old(self).instances@[i];
                    let f = #[trigger] final(self).instances@[i];
                    if i == k { f == (InstanceConfig { name: f.name, ..e }) && f.name@ == crate::text::trim_spec(new_name@) } else { f == e }
                },
                None => final(self).instances@ == old(self).instances@,
            },
            final(self).list_state == old(self).list_state,
            final(self).scrollbar_state == old(self).scrollbar_state,
            final(self).search.query@ == old(self).search.query@,
            final(self).search.active == old(self).search.active,
            final(self).show_popup == old(self).show_popup,
            final(self).show_import_popup == old(self).show_import_popup,
            final(self).renaming == old(self).renaming,
            final(self).modpack_updates@ == old(self).modpack_updates@,
    {
        match find_named(&self.instances, old_name) {
            Some(k) => {
                proof { lemma_find_first_named(self.instances@, old_name@, k as int); }
                let mut instance = self.instances.remove(k);
                instance.name = crate::text::trim(new_name);
                self.instances.insert(k, instance);
            },
            None => {
                proof { lemma_find_first_none(self.instances@, old_name@); }
            },
        }
    }
}

/// The first instance named `name`, if any.
pub open spec fn find_first_named(s: Seq<InstanceConfig>, name: Seq<char>) -> Option<int> {
    if exists|k: int| first_named(s, name, k) {
        Some(choose|k: int| first_named(s, name, k))
    } else {
        None
    }
}

proof fn lemma_find_first_named(s: Seq<InstanceConfig>, name: Seq<char>, k: int)
    requires
        first_named(s, name, k),
    ensures
        find_first_named(s, name) == Some(k),
{
    let c = choose|c: int| first_named(s, name, c);
    lemma_first_named_unique(s, name, k, c);
}

proof fn lemma_find_first_none(s: Seq<InstanceConfig>, name: Seq<char>)
    requires
        forall|j: int| 0 <= j < s.len() ==> s[j].name@ != name,
    ensures
        find_first_named(s, name) is None,
{
}


/// Moving up (`k` or Up, outside the search) from a shown row `i` above which
/// there are rows selects row `i - 1`; from the first row it wraps to the last.
pub proof fn lemma_up_selects_the_row_above(before: State, after: State, key: KeyEvent, i: usize)
    requires
        instances_key_applied(before, after, key),
        !before.search.active,
        key.code == KeyCode::Char('k') || key.code == KeyCode::Up,
        before.list_state.selected == Some(i),
        (i as int) < before.filtered().len(),
    ensures
        after.filtered() == before.filtered(),
        i > 0 ==> after.list_state.selected == Some((i - 1) as usize),
        i == 0 ==> after.list_state.selected == Some((before.filtered().len() - 1) as usize),
        before.filtered().len() <= usize::MAX,
{
    assert(after.filtered() =~= before.filtered());
    lemma_shown_bounded(before.instances@, before.search.query@, before.instances@.len() as int);
    assert(before.instances@.len() == before.instances.len());
}

/// Moving down (`j` or Down, outside the search) from a shown row `i` below which
/// there are rows selects row `i + 1`; from the last row it wraps to the first.
pub proof fn lemma_down_selects_the_row_below(before: State, after: State, key: KeyEvent, i: usize)
    requires
        instances_key_applied(before, after, key),
        !before.search.active,
        key.code == KeyCode::Char('j') || key.code == KeyCode::Down,
        before.list_state.selected == Some(i),
        (i as int) < before.filtered().len(),
    ensures
        after.filtered() == before.filtered(),
        i + 1 < before.filtered().len() ==> after.list_state.selected == Some((i + 1) as usize),
        i + 1 == before.filtered().len() ==> after.list_state.selected == Some(0usize),
{
    assert(after.filtered() =~= before.filtered());
}

/// Moving up and then down from a shown row, outside the search, comes back to it.
pub proof fn lemma_up_then_down_returns(s0: State, s1: State, s2: State, up: KeyEvent, down: KeyEvent, i: usize)
    requires
        instances_key_applied(s0, s1, up),
        instances_key_applied(s1, s2, down),
        !s0.search.active,
        up.code == KeyCode::Char('k') || up.code == KeyCode::Up,
        down.code == KeyCode::Char('j') || down.code == KeyCode::Down,
        s0.list_state.selected == Some(i),
        (i as int) < s0.filtered().len(),
    ensures
        s2.list_state.selected == Some(i),
{
    lemma_up_selects_the_row_above(s0, s1, up, i);
    assert(!s1.search.active);
    let j = s1.list_state.selected->0;
    assert(s1.list_state.selected == Some(j));
    assert((j as int) < s1.filtered().len());
    lemma_down_selects_the_row_below(s1, s2, down, j);
    if i > 0 {
        assert(j == i - 1);
        assert(j + 1 < s1.filtered().len());
    } else {
        assert(j + 1 == s1.filtered().len());
    }
}

/// The instances the list's search shows among the first `n`: in order, each
/// once, and an instance is shown exactly when the query is empty or its name
/// holds it, ignoring case.
pub proof fn lemma_shown_instances_are_those_named_by_the_query(instances: Seq<InstanceConfig>, query: Seq<char>, n: int)
    requires
        0 <= n <= instances.len(),
        instances.len() <= usize::MAX,
    ensures
        forall|a: int, b: int| 0 <= a < b < shown_upto(instances, query, n).len()
            ==> shown_upto(instances, query, n)[a] < shown_upto(instances, query, n)[b],
        forall|a: int| 0 <= a < shown_upto(instances, query, n).len() ==> (#[trigger] shown_upto(instances, query, n)[a]) < n,
        forall|u: usize| (u as int) < n ==> (#[trigger] shown_upto(instances, query, n).contains(u) <==> (
            query.len() == 0
            || crate::text::contains_seq(crate::text::str_lowercase(instances[u as int].name@), crate::text::str_lowercase(query)))),
    decreases n,
{
    if n > 0 {
        lemma_shown_instances_are_those_named_by_the_query(instances, query, n - 1);
        let p = shown_upto(instances, query, n - 1);
        let q = shown_upto(instances, query, n);
        if search_matches(query, instances[n - 1].name@) {
            assert(q == p.push((n - 1) as usize));
            assert forall|a: int, b: int| 0 <= a < b < q.len() implies q[a] < q[b] by {
                if b < p.len() {
                    assert(q[a] == p[a] && q[b] == p[b]);
                } else {
                    assert(q[a] == p[a]);
                }
            }
            assert forall|a: int| 0 <= a < q.len() implies (#[trigger] q[a]) < n by {
                if a < p.len() {
                    assert(q[a] == p[a]);
                }
            }
            assert forall|u: usize| (u as int) < n implies (#[trigger] q.contains(u) <==> (query.len() == 0
                || crate::text::contains_seq(crate::text::str_lowercase(instances[u as int].name@), crate::text::str_lowercase(query)))) by {
                let i = u as int;
                if i < n - 1 {
                    if p.contains(u) {
                        let k = choose|k: int| 0 <= k < p.len() && p[k] == u;
                        assert(q[k] == u);
                    }
                    if q.contains(u) {
                        let k = choose|k: int| 0 <= k < q.len() && q[k] == u;
                        if k < p.len() {
                            assert(p[k] == u);
                        } else {
                            assert(q[k] == (n - 1) as usize);
                            assert(false);
                        }
                    }
                    assert(p.contains(u) <==> (query.len() == 0
                        || crate::text::contains_seq(crate::text::str_lowercase(instances[i].name@), crate::text::str_lowercase(query))));
                } else {
                    assert(i == n - 1);
                    assert(q[q.len() - 1] == u);
                    assert(q.contains(u));
                }
            }
        } else {
            assert(q == p);
            assert forall|u: usize| (u as int) < n implies (#[trigger] q.contains(u) <==> (query.len() == 0
                || crate::text::contains_seq(crate::text::str_lowercase(instances[u as int].name@), crate::text::str_lowercase(query)))) by {
                let i = u as int;
                if i == n - 1 && q.contains(u) {
                    let k = choose|k: int| 0 <= k < q.len() && q[k] == u;
                    assert(q[k] < n - 1);
                }
            }
        }
    }
}

} // verus!
