//! Changes to a watched content directory: which files were toggled, removed or
//! added, worked out from what the directory held before and what it holds now.

use vstd::prelude::*;
use crate::model::ContentEntry;
use crate::order::{seq_lt, compare_str};
use crate::text::{concat, owned, str_eq, strip_suffix};

verus! {

/// The files that changed since the last look: toggled files (stem, whether now
/// enabled, new path), removed stems and newly scanned rows.
#[derive(Debug)]
pub struct WatcherDiff {
    pub toggled: Vec<(String, bool, String)>,
    pub removed: Vec<String>,
    pub added: Vec<ContentEntry>,
}

/// A value ordered and deduplicated by a text key.
pub trait Keyed: Sized {
    spec fn key(&self) -> Seq<char>;

    fn key_str(&self) -> (r: &str)
        ensures
            r@ == self.key();
}

impl Keyed for (String, bool, String) {
    open spec fn key(&self) -> Seq<char> {
        self.0@
    }

    fn key_str(&self) -> (r: &str) {
        self.0.as_str()
    }
}

impl Keyed for String {
    open spec fn key(&self) -> Seq<char> {
        self@
    }

    fn key_str(&self) -> (r: &str) {
        self.as_str()
    }
}

impl Keyed for ContentEntry {
    open spec fn key(&self) -> Seq<char> {
        self.file_stem@
    }

    fn key_str(&self) -> (r: &str) {
        self.file_stem.as_str()
    }
}

/// Keys strictly ascending: sorted, and each key once.
pub open spec fn strictly_sorted<T: Keyed>(s: Seq<T>) -> bool {
    forall|a: int, b: int| 0 <= a < b < s.len() ==> seq_lt(s[a].key(), s[b].key())
}

/// Whether some item of `s` has key `x`.
pub open spec fn has_key<T: Keyed>(s: Seq<T>, x: Seq<char>) -> bool {
    exists|a: int| 0 <= a < s.len() && s[a].key() == x
}

/// The position of the last item of `s` with key `x`.
pub open spec fn last_pos<T: Keyed>(s: Seq<T>, x: Seq<char>) -> Option<int>
    decreases s.len(),
{
    if s.len() == 0 {
        None
    } else if s.last().key() == x {
        Some(s.len() - 1)
    } else {
        last_pos(s.drop_last(), x)
    }
}

proof fn lemma_last_pos<T: Keyed>(s: Seq<T>, x: Seq<char>)
    ensures
        match last_pos(s, x) {
            Some(k) => 0 <= k < s.len() && s[k].key() == x,
            None => !has_key(s, x),
        },
    decreases s.len(),
{
    if s.len() > 0 && s.last().key() != x {
        lemma_last_pos(s.drop_last(), x);
        if has_key(s, x) {
            let a = choose|a: int| 0 <= a < s.len() && s[a].key() == x;
            assert(s.drop_last()[a] == s[a]);
        }
    }
}

/// `r` holds, sorted by key, the last item of `all` for each key.
pub open spec fn last_of_each<T: Keyed>(r: Seq<T>, all: Seq<T>) -> bool {
    &&& strictly_sorted(r)
    &&& forall|x: Seq<char>| #[trigger] has_key(r, x) <==> has_key(all, x)
    &&& forall|a: int| 0 <= a < r.len() ==> (last_pos(all, (#[trigger] r[a]).key()) matches Some(k) && r[a] == all[k])
}

/// Puts `item` at its key's place in `r`, replacing an item with the same key.
fn upsert_sorted<T: Keyed>(r: &mut Vec<T>, item: T, Ghost(all): Ghost<Seq<T>>)
    requires
        last_of_each(old(r)@, all),
    ensures
        last_of_each(final(r)@, all.push(item)),
{
    let ghost before = r@;
    let ghost x = item.key();
    let ghost next = all.push(item);
    let mut j: usize = 0;
    while j < r.len()
        invariant
            j <= r@.len(),
            r@ == before,
            x == item.key(),
            forall|a: int| 0 <= a < j ==> seq_lt(r@[a].key(), x),
        ensures
            j <= r@.len(),
            r@ == before,
            forall|a: int| 0 <= a < j ==> seq_lt(r@[a].key(), x),
            j < r@.len() ==> !seq_lt(r@[j as int].key(), x),
        decreases r@.len() - j,
    {
        let c = compare_str(r[j].key_str(), item.key_str());
        if c != -1 {
            break;
        }
        assert(seq_lt(r@[j as int].key(), x));
        j = j + 1;
    }
    proof {
        crate::order::lemma_lt_irrefl(x);
        assert forall|y: Seq<char>| y != x implies last_pos(next, y) == last_pos(all, y) by {
            assert(next.drop_last() =~= all);
        }
        assert(last_pos(next, x) == Some(all.len() as int)) by {
            assert(next.last() == item);
        }
        assert forall|y: Seq<char>| #[trigger] has_key(next, y) <==> has_key(all, y) || y == x by {
            if has_key(next, y) {
                let a = choose|a: int| 0 <= a < next.len() && next[a].key() == y;
                if a < all.len() {
                    assert(next[a] == all[a]);
                }
            }
            if has_key(all, y) {
                let a = choose|a: int| 0 <= a < all.len() && all[a].key() == y;
                assert(next[a] == all[a]);
            }
            if y == x {
                assert(next[all.len() as int] == item);
            }
        }
    }
    if j < r.len() && str_eq(r[j].key_str(), item.key_str()) {
        let ghost it = item;
        r.set(j, item);
        proof {
            assert(r@ == before.update(j as int, it));
            assert forall|a: int, b: int| 0 <= a < b < r@.len() implies seq_lt(r@[a].key(), r@[b].key()) by {
                if a == j {
                    assert(r@[a].key() == before[a].key());
                } else if b == j {
                    assert(r@[b].key() == before[b].key());
                }
            }
            assert forall|y: Seq<char>| #[trigger] has_key(r@, y) <==> has_key(next, y) by {
                if has_key(r@, y) {
                    let a = choose|a: int| 0 <= a < r@.len() && r@[a].key() == y;
                    if a != j {
                        assert(before[a] == r@[a]);
                        assert(has_key(before, y));
                    }
                }
                if has_key(before, y) {
                    let a = choose|a: int| 0 <= a < before.len() && before[a].key() == y;
                    if a == j {
                        assert(r@[a].key() == y);
                    } else {
                        assert(r@[a] == before[a]);
                    }
                }
            }
            assert forall|a: int| 0 <= a < r@.len() implies (last_pos(next, (#[trigger] r@[a]).key()) matches Some(k) && r@[a] == next[k]) by {
                lemma_last_pos(next, r@[a].key());
                lemma_last_pos(all, r@[a].key());
                if a != j {
                    assert(r@[a] == before[a]);
                    assert(before[a].key() != x);
                }
            }
        }
    } else {
        let ghost it = item;
        r.insert(j, item);
        proof {
            assert(r@ == before.insert(j as int, it));
            if j < before.len() {
                crate::order::lemma_lt_total(before[j as int].key(), x);
            }
            assert forall|a: int, b: int| 0 <= a < b < r@.len() implies seq_lt(r@[a].key(), r@[b].key()) by {
                if b < j {
                    assert(r@[a] == before[a] && r@[b] == before[b]);
                } else if b == j {
                    assert(r@[a] == before[a]);
                } else if a < j {
                    assert(r@[a] == before[a] && r@[b] == before[b - 1]);
                    if b - 1 == j {
                        crate::order::lemma_lt_trans(before[a].key(), x, before[b - 1].key());
                    } else {
                        crate::order::lemma_lt_trans(x, before[j as int].key(), before[b - 1].key());
                        crate::order::lemma_lt_trans(before[a].key(), x, before[b - 1].key());
                    }
                } else if a == j {
                    assert(r@[b] == before[b - 1]);
                    if b - 1 > j {
                        crate::order::lemma_lt_trans(x, before[j as int].key(), before[b - 1].key());
                    }
                } else {
                    assert(r@[a] == before[a - 1] && r@[b] == before[b - 1]);
                }
            }
            assert(!has_key(before, x)) by {
                if has_key(before, x) {
                    let a = choose|a: int| 0 <= a < before.len() && before[a].key() == x;
                    if a < j {
                        assert(seq_lt(before[a].key(), x));
                    } else if a > j {
                        crate::order::lemma_lt_trans(x, before[j as int].key(), before[a].key());
                    }
                }
            }
            assert forall|y: Seq<char>| #[trigger] has_key(r@, y) <==> has_key(next, y) by {
                if has_key(r@, y) {
                    let a = choose|a: int| 0 <= a < r@.len() && r@[a].key() == y;
                    if a < j {
                        assert(before[a] == r@[a]);
                        assert(has_key(before, y));
                    } else if a > j {
                        assert(before[a - 1] == r@[a]);
                        assert(has_key(before, y));
                    }
                }
                if has_key(before, y) {
                    let a = choose|a: int| 0 <= a < before.len() && before[a].key() == y;
                    if a < j {
                        assert(r@[a] == before[a]);
                    } else {
                        assert(r@[a + 1] == before[a]);
                    }
                }
                if y == x {
                    assert(r@[j as int].key() == x);
                }
            }
            assert forall|a: int| 0 <= a < r@.len() implies (last_pos(next, (#[trigger] r@[a]).key()) matches Some(k) && r@[a] == next[k]) by {
                lemma_last_pos(next, r@[a].key());
                lemma_last_pos(all, r@[a].key());
                if a < j {
                    assert(r@[a] == before[a]);
                    assert(has_key(before, before[a].key()));
                } else if a > j {
                    assert(r@[a] == before[a - 1]);
                    assert(has_key(before, before[a - 1].key()));
                }
            }
        }
    }
}

/// All of `items`, last item of each key kept, sorted by key.
fn dedup_last<T: Keyed>(items: Vec<T>) -> (r: Vec<T>)
    ensures
        last_of_each(r@, items@),
{
    let ghost orig = items@;
    assert(orig.len() == items.len());
    assert(orig.subrange(0, orig.len() as int) =~= orig);
    let mut rest = items;
    let mut r: Vec<T> = Vec::new();
    let mut done: usize = 0;
    proof {
        assert(orig.take(0) =~= Seq::<T>::empty());
        assert forall|x: Seq<char>| #[trigger] has_key(r@, x) <==> has_key(orig.take(0), x) by {}
    }
    while rest.len() > 0
        invariant
            done + rest@.len() == orig.len(),
            orig.len() <= usize::MAX,
            rest@ == orig.subrange(done as int, orig.len() as int),
            last_of_each(r@, orig.take(done as int)),
        decreases rest@.len(),
    {
        let item = rest.remove(0);
        assert(item == orig[done as int]);
        assert(orig.take(done + 1) =~= orig.take(done as int).push(item));
        upsert_sorted(&mut r, item, Ghost(orig.take(done as int)));
        done = done + 1;
        assert(rest@ =~= orig.subrange(done as int, orig.len() as int));
    }
    assert(orig.take(orig.len() as int) =~= orig);
    r
}

/// The diff of the given changes, or nothing when there are none.
pub fn watcher_diff(toggled: Vec<(String, bool, String)>, removed: Vec<String>, added: Vec<ContentEntry>)
    -> (r: Option<WatcherDiff>)
    ensures
        match r {
            Some(d) => d.toggled == toggled && d.removed == removed && d.added == added
                && (toggled@.len() > 0 || removed@.len() > 0 || added@.len() > 0),
            None => toggled@.len() == 0 && removed@.len() == 0 && added@.len() == 0,
        },
{
    if toggled.len() == 0 && removed.len() == 0 && added.len() == 0 {
        None
    } else {
        Some(WatcherDiff { toggled, removed, added })
    }
}

/// Folds a newer diff into a pending one: for each stem the latest toggle and the
/// latest added row win; removed stems are kept once. All three are sorted by stem.
pub fn merge_watcher_diff(pending: &mut WatcherDiff, next: WatcherDiff)
    ensures
        last_of_each(final(pending).toggled@, old(pending).toggled@ + next.toggled@),
        last_of_each(final(pending).removed@, old(pending).removed@ + next.removed@),
        last_of_each(final(pending).added@, old(pending).added@ + next.added@),
{
    let WatcherDiff { toggled: mut t, removed: mut rm, added: mut ad } = next;
    let mut toggled: Vec<(String, bool, String)> = Vec::new();
    let mut removed: Vec<String> = Vec::new();
    let mut added: Vec<ContentEntry> = Vec::new();
    std::mem::swap(&mut toggled, &mut pending.toggled);
    std::mem::swap(&mut removed, &mut pending.removed);
    std::mem::swap(&mut added, &mut pending.added);
    let ghost t0 = toggled@;
    let ghost r0 = removed@;
    let ghost a0 = added@;
    let ghost t1 = t@;
    let ghost r1 = rm@;
    let ghost a1 = ad@;
    toggled.append(&mut t);
    removed.append(&mut rm);
    added.append(&mut ad);
    assert(toggled@ =~= t0 + t1);
    assert(removed@ =~= r0 + r1);
    assert(added@ =~= a0 + a1);
    pending.toggled = dedup_last(toggled);
    pending.removed = dedup_last(removed);
    pending.added = dedup_last(added);
}

/// How a directory name says whether it is enabled: a `.disabled` suffix turns it off.
pub open spec fn enabled_stem_dir(name: Seq<char>) -> (bool, Seq<char>) {
    if crate::text::is_suffix(".disabled"@, name) {
        (false, name.subrange(0, name.len() - 9))
    } else {
        (true, name)
    }
}

/// Whether a directory name is enabled, and its stem.
pub fn parse_enabled_stem_dir(name: &str) -> (r: (bool, String))
    ensures
        (r.0, r.1@) == enabled_stem_dir(name@),
{
    proof { reveal_strlit(".disabled"); }
    match strip_suffix(name, ".disabled") {
        Some(stem) => (false, stem),
        None => (true, owned(name)),
    }
}

/// The stem of a content file and whether it is enabled: `<stem><ext>` is enabled,
/// `<stem><ext>.disabled` is not. Directories, and all entries when there is no
/// extension (worlds), follow the directory rule.
pub open spec fn watched_stem_spec(name: Seq<char>, is_dir: bool, ext: Seq<char>) -> Option<(Seq<char>, bool)> {
    if is_dir || ext.len() == 0 {
        Some((enabled_stem_dir(name).1, enabled_stem_dir(name).0))
    } else if crate::text::is_suffix(ext + ".disabled"@, name) {
        Some((name.subrange(0, name.len() - (ext.len() + 9)), false))
    } else if crate::text::is_suffix(ext, name) {
        Some((name.subrange(0, name.len() - ext.len()), true))
    } else {
        None
    }
}

/// The stem of the file named `name` and whether it is enabled, if it is content.
pub fn watched_stem(name: &str, is_dir: bool, ext: &str) -> (r: Option<(String, bool)>)
    ensures
        match r {
            Some((stem, enabled)) => watched_stem_spec(name@, is_dir, ext@) == Some((stem@, enabled)),
            None => watched_stem_spec(name@, is_dir, ext@) is None,
        },
{
    if is_dir || ext.unicode_len() == 0 {
        let (enabled, stem) = parse_enabled_stem_dir(name);
        return Some((stem, enabled));
    }
    let disabled_ext = concat(ext, ".disabled");
    proof { reveal_strlit(".disabled"); }
    match strip_suffix(name, disabled_ext.as_str()) {
        Some(stem) => Some((stem, false)),
        None => match strip_suffix(name, ext) {
            Some(stem) => Some((stem, true)),
            None => None,
        },
    }
}

/// The path a file had before it was toggled: with `.disabled` added when it is
/// now enabled, removed when it is now disabled.
pub open spec fn opposite_toggle_spec(path: Seq<char>, enabled: bool) -> Seq<char> {
    let name = crate::path::file_name_spec(path);
    let dir = match crate::path::last_slash(path) { Some(i) => path.subrange(0, i + 1), None => Seq::empty() };
    if enabled {
        dir + name + ".disabled"@
    } else if crate::text::is_suffix(".disabled"@, name) {
        dir + name.subrange(0, name.len() - 9)
    } else {
        path
    }
}

/// The other path of a toggled file.
pub fn opposite_toggle_path(path: &str, enabled: bool) -> (r: String)
    ensures
        r@ == opposite_toggle_spec(path@, enabled),
{
    proof {
        reveal_strlit(".disabled");
        crate::path::lemma_last_slash(path@);
    }
    let name = crate::path::file_name(path);
    let n = path.unicode_len();
    let m = name.unicode_len();
    proof {
        match crate::path::last_slash(path@) {
            Some(i) => {
                assert(path@ =~= path@.subrange(0, i + 1) + name@);
            },
            None => {
                assert(path@ =~= Seq::<char>::empty() + name@);
            },
        }
    }
    let dir = crate::text::substring(path, 0, n - m);
    proof {
        match crate::path::last_slash(path@) {
            Some(i) => assert(dir@ =~= path@.subrange(0, i + 1)),
            None => assert(dir@ =~= Seq::<char>::empty()),
        }
    }
    if enabled {
        let with = concat(name.as_str(), ".disabled");
        let r = concat(dir.as_str(), with.as_str());
        assert(r@ =~= dir@ + name@ + ".disabled"@);
        r
    } else {
        match strip_suffix(name.as_str(), ".disabled") {
            Some(base) => {
                let r = concat(dir.as_str(), base.as_str());
                r
            },
            None => owned(path),
        }
    }
}


/// What the watcher found out about the files: toggled files, removed stems, and
/// the files to scan into rows (path, stem, whether enabled).
#[derive(Debug)]
pub struct WatcherPlan {
    pub toggled: Vec<(String, bool, String)>,
    pub removed: Vec<String>,
    pub to_scan: Vec<(String, String, bool)>,
}

/// A directory's content files by stem: path and whether enabled.
pub type KnownFiles = Vec<(String, (String, bool))>;

/// The characters of a directory listing.
pub open spec fn files_view(l: Seq<(String, (String, bool))>) -> Seq<(Seq<char>, Seq<char>, bool)> {
    l.map_values(|e: (String, (String, bool))| (e.0@, e.1.0@, e.1.1))
}

/// The path and state recorded for `stem` (the first record with it).
pub open spec fn file_get(l: Seq<(Seq<char>, Seq<char>, bool)>, stem: Seq<char>) -> Option<(Seq<char>, bool)>
    decreases l.len(),
{
    if l.len() == 0 {
        None
    } else if l[0].0 == stem {
        Some((l[0].1, l[0].2))
    } else {
        file_get(l.drop_first(), stem)
    }
}

/// The files of `known` whose path or state differ on disk: stem, state and path on disk.
pub open spec fn dir_toggled(known: Seq<(Seq<char>, Seq<char>, bool)>, disk: Seq<(Seq<char>, Seq<char>, bool)>)
    -> Seq<(Seq<char>, bool, Seq<char>)>
    decreases known.len(),
{
    if known.len() == 0 {
        Seq::empty()
    } else {
        let rest = dir_toggled(known.drop_last(), disk);
        let k = known.last();
        match file_get(disk, k.0) {
            Some((p, e)) => if e != k.2 || p != k.1 { rest.push((k.0, e, p)) } else { rest },
            None => rest,
        }
    }
}

/// The stems of `known` no longer on disk.
pub open spec fn dir_removed(known: Seq<(Seq<char>, Seq<char>, bool)>, disk: Seq<(Seq<char>, Seq<char>, bool)>) -> Seq<Seq<char>>
    decreases known.len(),
{
    if known.len() == 0 {
        Seq::empty()
    } else {
        let rest = dir_removed(known.drop_last(), disk);
        if file_get(disk, known.last().0) is None { rest.push(known.last().0) } else { rest }
    }
}

/// The files on disk that were not known: path, stem and state.
pub open spec fn dir_added(known: Seq<(Seq<char>, Seq<char>, bool)>, disk: Seq<(Seq<char>, Seq<char>, bool)>) -> Seq<(Seq<char>, Seq<char>, bool)>
    decreases disk.len(),
{
    if disk.len() == 0 {
        Seq::empty()
    } else {
        let rest = dir_added(known, disk.drop_last());
        let d = disk.last();
        if file_get(known, d.0) is None { rest.push((d.1, d.0, d.2)) } else { rest }
    }
}

fn file_lookup(l: &KnownFiles, stem: &str) -> (r: Option<(String, bool)>)
    ensures
        match r {
            Some((p, e)) => file_get(files_view(l@), stem@) == Some((p@, e)),
            None => file_get(files_view(l@), stem@) is None,
        },
{
    let ghost v = files_view(l@);
    let mut i: usize = 0;
    assert(v.subrange(0, v.len() as int) =~= v);
    while i < l.len()
        invariant
            i <= l@.len(),
            v == files_view(l@),
            file_get(v, stem@) == file_get(v.subrange(i as int, v.len() as int), stem@),
        decreases l@.len() - i,
    {
        assert(v.subrange(i as int, v.len() as int).drop_first() =~= v.subrange(i + 1, v.len() as int));
        if str_eq(l[i].0.as_str(), stem) {
            return Some((l[i].1.0.clone(), l[i].1.1));
        }
        i = i + 1;
    }
    None
}

pub open spec fn toggled_view(t: Seq<(String, bool, String)>) -> Seq<(Seq<char>, bool, Seq<char>)> {
    t.map_values(|e: (String, bool, String)| (e.0@, e.1, e.2@))
}

pub open spec fn stems_view(t: Seq<String>) -> Seq<Seq<char>> {
    t.map_values(|e: String| e@)
}

pub open spec fn scan_view(t: Seq<(String, String, bool)>) -> Seq<(Seq<char>, Seq<char>, bool)> {
    t.map_values(|e: (String, String, bool)| (e.0@, e.1@, e.2))
}

/// Compares what a directory held with what it holds now, and takes the new
/// listing as known. New files are scanned only when a scanner is available.
pub fn diff_directory(known: &mut KnownFiles, on_disk: KnownFiles, can_scan: bool) -> (r: WatcherPlan)
    ensures
        files_view(final(known)@) == files_view(on_disk@),
        toggled_view(r.toggled@) == dir_toggled(files_view(old(known)@), files_view(on_disk@)),
        stems_view(r.removed@) == dir_removed(files_view(old(known)@), files_view(on_disk@)),
        scan_view(r.to_scan@) == (if can_scan { dir_added(files_view(old(known)@), files_view(on_disk@)) } else { Seq::empty() }),
{
    let ghost kv = files_view(known@);
    let ghost dv = files_view(on_disk@);
    let mut toggled: Vec<(String, bool, String)> = Vec::new();
    let mut removed: Vec<String> = Vec::new();
    let mut i: usize = 0;
    while i < known.len()
        invariant
            i <= known@.len(),
            kv == files_view(known@),
            dv == files_view(on_disk@),
            toggled_view(toggled@) == dir_toggled(kv.take(i as int), dv),
            stems_view(removed@) == dir_removed(kv.take(i as int), dv),
        decreases known@.len() - i,
    {
        assert(kv.take(i + 1).drop_last() =~= kv.take(i as int));
        assert(kv.take(i + 1).last() == kv[i as int]);
        let stem = &known[i].0;
        match file_lookup(&on_disk, stem.as_str()) {
            Some((p, e)) => {
                if e != known[i].1.1 || !str_eq(p.as_str(), known[i].1.0.as_str()) {
                    let ghost t0 = toggled@;
                    let ghost pv = p@;
                    toggled.push((stem.clone(), e, p));
                    assert(toggled_view(toggled@) =~= toggled_view(t0).push((stem@, e, pv)));
                }
            },
            None => {
                let ghost r0 = removed@;
                removed.push(stem.clone());
                assert(stems_view(removed@) =~= stems_view(r0).push(stem@));
            },
        }
        i = i + 1;
    }
    assert(kv.take(kv.len() as int) =~= kv);
    let mut to_scan: Vec<(String, String, bool)> = Vec::new();
    if can_scan {
        let mut k: usize = 0;
        while k < on_disk.len()
            invariant
                k <= on_disk@.len(),
                kv == files_view(known@),
                dv == files_view(on_disk@),
                scan_view(to_scan@) == dir_added(kv, dv.take(k as int)),
            decreases on_disk@.len() - k,
        {
            assert(dv.take(k + 1).drop_last() =~= dv.take(k as int));
            assert(dv.take(k + 1).last() == dv[k as int]);
            if file_lookup(known, on_disk[k].0.as_str()).is_none() {
                let ghost s0 = to_scan@;
                to_scan.push((on_disk[k].1.0.clone(), on_disk[k].0.clone(), on_disk[k].1.1));
                assert(scan_view(to_scan@) =~= scan_view(s0).push((dv[k as int].1, dv[k as int].0, dv[k as int].2)));
            }
            k = k + 1;
        }
        assert(dv.take(dv.len() as int) =~= dv);
    } else {
        assert(scan_view(to_scan@) =~= Seq::<(Seq<char>, Seq<char>, bool)>::empty());
    }
    *known = on_disk;
    WatcherPlan { toggled, removed, to_scan }
}


/// What the watcher has found out while going through events.
pub ghost struct EventState {
    pub known: Seq<(Seq<char>, Seq<char>, bool)>,
    pub toggled: Seq<(Seq<char>, bool, Seq<char>)>,
    pub removed: Seq<Seq<char>>,
    pub to_scan: Seq<(Seq<char>, Seq<char>, bool)>,
}

/// Records `stem` at `path` in state `enabled`, replacing its first record.
pub open spec fn file_insert(l: Seq<(Seq<char>, Seq<char>, bool)>, stem: Seq<char>, path: Seq<char>, enabled: bool)
    -> Seq<(Seq<char>, Seq<char>, bool)>
    decreases l.len(),
{
    if l.len() == 0 {
        seq![(stem, path, enabled)]
    } else if l[0].0 == stem {
        l.update(0, (stem, path, enabled))
    } else {
        seq![l[0]] + file_insert(l.drop_first(), stem, path, enabled)
    }
}

/// One file event taken in: events outside the directory and files that are not
/// content are passed over; an existing file is compared with what is known
/// (an unchanged file is scanned again, when a scanner is available); a file
/// that is gone removes every stem recorded at its path.
pub open spec fn event_step(s: EventState, path: Seq<char>, exists: bool, is_dir: bool, dir: Seq<char>, ext: Seq<char>, can_scan: bool) -> EventState {
    if crate::path::parent_spec(path) != Some(dir) {
        s
    } else if exists {
        match watched_stem_spec(crate::path::file_name_spec(path), is_dir, ext) {
            None => s,
            Some((stem, enabled)) => {
                let s1 = match file_get(s.known, stem) {
                    Some((kp, ke)) => if kp == path && ke == enabled {
                        if can_scan {
                            EventState { removed: s.removed.push(stem), to_scan: s.to_scan.push((path, stem, enabled)), ..s }
                        } else { s }
                    } else {
                        EventState { toggled: s.toggled.push((stem, enabled, path)), ..s }
                    },
                    None => if can_scan { EventState { to_scan: s.to_scan.push((path, stem, enabled)), ..s } } else { s },
                };
                EventState { known: file_insert(s1.known, stem, path, enabled), ..s1 }
            },
        }
    } else {
        EventState {
            known: s.known.filter(|k: (Seq<char>, Seq<char>, bool)| k.1 != path),
            removed: s.removed + s.known.filter(|k: (Seq<char>, Seq<char>, bool)| k.1 == path)
                .map_values(|k: (Seq<char>, Seq<char>, bool)| k.0),
            ..s
        }
    }
}

/// The events taken in one after the other.
pub open spec fn events_fold(s: EventState, events: Seq<(Seq<char>, bool, bool)>, dir: Seq<char>, ext: Seq<char>, can_scan: bool) -> EventState
    decreases events.len(),
{
    if events.len() == 0 {
        s
    } else {
        let e = events.last();
        event_step(events_fold(s, events.drop_last(), dir, ext, can_scan), e.0, e.1, e.2, dir, ext, can_scan)
    }
}

pub open spec fn events_view(e: Seq<(String, bool, bool)>) -> Seq<(Seq<char>, bool, bool)> {
    e.map_values(|x: (String, bool, bool)| (x.0@, x.1, x.2))
}

fn file_set(l: &mut KnownFiles, stem: String, path: String, enabled: bool)
    ensures
        files_view(final(l)@) == file_insert(files_view(old(l)@), stem@, path@, enabled),
{
    let ghost v = files_view(l@);
    let ghost row = (stem@, path@, enabled);
    let mut i: usize = 0;
    let mut found = false;
    assert(v.subrange(0, v.len() as int) =~= v);
    assert(v.take(0) =~= Seq::<(Seq<char>, Seq<char>, bool)>::empty());
    while i < l.len()
        invariant_except_break
            !found,
        invariant
            i <= l@.len(),
            v == files_view(l@),
            row == (stem@, path@, enabled),
            file_insert(v, row.0, row.1, row.2) == v.take(i as int) + file_insert(v.subrange(i as int, v.len() as int), row.0, row.1, row.2),
        ensures
            v == files_view(l@),
            i <= l@.len(),
            file_insert(v, row.0, row.1, row.2) == v.take(i as int) + file_insert(v.subrange(i as int, v.len() as int), row.0, row.1, row.2),
            found ==> i < l@.len() && v[i as int].0 == row.0,
            !found ==> i == l@.len(),
        decreases l@.len() - i,
    {
        let ghost sub = v.subrange(i as int, v.len() as int);
        assert(sub.drop_first() =~= v.subrange(i + 1, v.len() as int));
        assert(sub[0] == v[i as int]);
        if str_eq(l[i].0.as_str(), stem.as_str()) {
            found = true;
            break;
        }
        assert(file_insert(sub, row.0, row.1, row.2) == seq![sub[0]] + file_insert(sub.drop_first(), row.0, row.1, row.2));
        assert(v.take(i + 1) =~= v.take(i as int) + seq![sub[0]]);
        i = i + 1;
    }
    if found {
        let ghost sub = v.subrange(i as int, v.len() as int);
        assert(sub[0] == v[i as int]);
        assert(file_insert(sub, row.0, row.1, row.2) == sub.update(0, row));
        l.set(i, (stem, (path, enabled)));
        assert(files_view(l@) =~= v.take(i as int) + sub.update(0, row));
    } else {
        assert(v.take(v.len() as int) =~= v);
        assert(v.subrange(v.len() as int, v.len() as int) =~= Seq::<(Seq<char>, Seq<char>, bool)>::empty());
        l.push((stem, (path, enabled)));
        assert(files_view(l@) =~= v + seq![row]);
    }
}

fn remove_at_path(known: &mut KnownFiles, removed: &mut Vec<String>, path: &str)
    ensures
        files_view(final(known)@) == files_view(old(known)@).filter(|k: (Seq<char>, Seq<char>, bool)| k.1 != path@),
        stems_view(final(removed)@) == stems_view(old(removed)@) + files_view(old(known)@)
            .filter(|k: (Seq<char>, Seq<char>, bool)| k.1 == path@).map_values(|k: (Seq<char>, Seq<char>, bool)| k.0),
{
    let ghost v = files_view(known@);
    let ghost r0 = stems_view(removed@);
    let ghost keep = |k: (Seq<char>, Seq<char>, bool)| k.1 != path@;
    let ghost hit = |k: (Seq<char>, Seq<char>, bool)| k.1 == path@;
    let ghost first = |k: (Seq<char>, Seq<char>, bool)| k.0;
    let mut rest: KnownFiles = Vec::new();
    std::mem::swap(&mut rest, known);
    let ghost orig = rest@;
    assert(orig.len() == rest.len());
    assert(orig.subrange(0, orig.len() as int) =~= orig);
    let mut done: usize = 0;
    while rest.len() > 0
        invariant
            done + rest@.len() == orig.len(),
            orig.len() <= usize::MAX,
            rest@ == orig.subrange(done as int, orig.len() as int),
            v == files_view(orig),
            files_view(known@) == v.take(done as int).filter(keep),
            stems_view(removed@) == r0 + v.take(done as int).filter(hit).map_values(first),
            keep == (|k: (Seq<char>, Seq<char>, bool)| k.1 != path@),
            hit == (|k: (Seq<char>, Seq<char>, bool)| k.1 == path@),
            first == (|k: (Seq<char>, Seq<char>, bool)| k.0),
        decreases rest@.len(),
    {
        let item = rest.remove(0);
        assert(item == orig[done as int]);
        let ghost iv = (item.0@, item.1.0@, item.1.1);
        assert(v.take(done + 1).drop_last() =~= v.take(done as int));
        assert(v.take(done + 1).last() == iv);
        reveal_with_fuel(Seq::filter, 1);
        let ghost k0 = files_view(known@);
        let ghost m0 = stems_view(removed@);
        if str_eq(item.1.0.as_str(), path) {
            let ghost hf = v.take(done as int).filter(hit);
            removed.push(item.0);
            assert(hf.push(iv).map_values(first) =~= hf.map_values(first).push(iv.0));
            assert(stems_view(removed@) =~= m0.push(iv.0));
        } else {
            known.push(item);
            assert(files_view(known@) =~= k0.push(iv));
        }
        done = done + 1;
        assert(rest@ =~= orig.subrange(done as int, orig.len() as int));
    }
    assert(v.take(v.len() as int) =~= v);
}

/// Takes in a batch of file events for `dir` (path, whether it exists now, whether
/// it is a directory), keeping `known` up to date.
pub fn diff_event_paths(dir: &str, events: Vec<(String, bool, bool)>, ext: &str, known: &mut KnownFiles, can_scan: bool)
    -> (r: WatcherPlan)
    ensures
        ({
            let s = events_fold(EventState { known: files_view(old(known)@), toggled: Seq::empty(), removed: Seq::empty(),
                to_scan: Seq::empty() }, events_view(events@), dir@, ext@, can_scan);
            &&& files_view(final(known)@) == s.known
            &&& toggled_view(r.toggled@) == s.toggled
            &&& stems_view(r.removed@) == s.removed
            &&& scan_view(r.to_scan@) == s.to_scan
        }),
{
    let ghost ev = events_view(events@);
    let ghost init = EventState { known: files_view(known@), toggled: Seq::empty(), removed: Seq::empty(), to_scan: Seq::empty() };
    let mut toggled: Vec<(String, bool, String)> = Vec::new();
    let mut removed: Vec<String> = Vec::new();
    let mut to_scan: Vec<(String, String, bool)> = Vec::new();
    let ghost orig = events@;
    assert(orig.len() == events.len());
    assert(orig.subrange(0, orig.len() as int) =~= orig);
    let mut rest = events;
    let mut done: usize = 0;
    assert(toggled_view(toggled@) =~= Seq::<(Seq<char>, bool, Seq<char>)>::empty());
    assert(stems_view(removed@) =~= Seq::<Seq<char>>::empty());
    assert(scan_view(to_scan@) =~= Seq::<(Seq<char>, Seq<char>, bool)>::empty());
    while rest.len() > 0
        invariant
            done + rest@.len() == orig.len(),
            orig.len() <= usize::MAX,
            rest@ == orig.subrange(done as int, orig.len() as int),
            ev == events_view(orig),
            ({
                let s = events_fold(init, ev.take(done as int), dir@, ext@, can_scan);
                &&& files_view(known@) == s.known
                &&& toggled_view(toggled@) == s.toggled
                &&& stems_view(removed@) == s.removed
                &&& scan_view(to_scan@) == s.to_scan
            }),
        decreases rest@.len(),
    {
        let (path, exists, is_dir) = rest.remove(0);
        assert((path, exists, is_dir) == orig[done as int]);
        assert(ev.take(done + 1).drop_last() =~= ev.take(done as int));
        assert(ev.take(done + 1).last() == (path@, exists, is_dir));
        let ghost s0 = events_fold(init, ev.take(done as int), dir@, ext@, can_scan);
        let parent = crate::path::parent(path.as_str());
        let inside = match &parent {
            Some(p) => str_eq(p.as_str(), dir),
            None => false,
        };
        if inside {
            if exists {
                let name = crate::path::file_name(path.as_str());
                match watched_stem(name.as_str(), is_dir, ext) {
                    Some((stem, enabled)) => {
                        let ghost t0 = toggled@;
                        let ghost r0 = removed@;
                        let ghost c0 = to_scan@;
                        match file_lookup(known, stem.as_str()) {
                            Some((kp, ke)) => {
                                if str_eq(kp.as_str(), path.as_str()) && ke == enabled {
                                    if can_scan {
                                        removed.push(stem.clone());
                                        to_scan.push((path.clone(), stem.clone(), enabled));
                                        assert(stems_view(removed@) =~= stems_view(r0).push(stem@));
                                        assert(scan_view(to_scan@) =~= scan_view(c0).push((path@, stem@, enabled)));
                                    }
                                } else {
                                    toggled.push((stem.clone(), enabled, path.clone()));
                                    assert(toggled_view(toggled@) =~= toggled_view(t0).push((stem@, enabled, path@)));
                                }
                            },
                            None => {
                                if can_scan {
                                    to_scan.push((path.clone(), stem.clone(), enabled));
                                    assert(scan_view(to_scan@) =~= scan_view(c0).push((path@, stem@, enabled)));
                                }
                            },
                        }
                        file_set(known, stem, path, enabled);
                    },
                    None => {},
                }
            } else {
                remove_at_path(known, &mut removed, path.as_str());
            }
        }
        done = done + 1;
        assert(rest@ =~= orig.subrange(done as int, orig.len() as int));
    }
    assert(ev.take(ev.len() as int) =~= ev);
    WatcherPlan { toggled, removed, to_scan }
}

/// The kinds of file-system events a directory watcher reports.
#[derive(Clone, Copy, Debug, PartialEq, Eq, Structural)]
pub enum WatchEventKind {
    Access,
    Create,
    Remove,
    /// A file was renamed.
    ModifyName,
    /// A file's data or metadata changed.
    ModifyOther,
    Any,
    Other,
}

/// How an event is handled.
#[derive(Clone, Copy, Debug, PartialEq, Eq, Structural)]
pub enum WatcherEventHandling {
    /// Nothing to do.
    Ignore,
    /// Look at the paths the event names.
    Paths,
    /// Scan the whole directory again.
    Rescan,
}

/// Reads are ignored, created, removed and changed files are looked at one by
/// one, and renames or events of unknown kind rescan the directory.
pub fn watcher_event_handling(kind: WatchEventKind) -> (r: WatcherEventHandling)
    ensures
        r == match kind {
            WatchEventKind::Access => WatcherEventHandling::Ignore,
            WatchEventKind::Create | WatchEventKind::Remove | WatchEventKind::ModifyOther => WatcherEventHandling::Paths,
            WatchEventKind::ModifyName | WatchEventKind::Any | WatchEventKind::Other => WatcherEventHandling::Rescan,
        },
{
    match kind {
        WatchEventKind::Access => WatcherEventHandling::Ignore,
        WatchEventKind::Create | WatchEventKind::Remove => WatcherEventHandling::Paths,
        WatchEventKind::ModifyName => WatcherEventHandling::Rescan,
        WatchEventKind::ModifyOther => WatcherEventHandling::Paths,
        WatchEventKind::Any | WatchEventKind::Other => WatcherEventHandling::Rescan,
    }
}

} // verus!
