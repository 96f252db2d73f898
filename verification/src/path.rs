//! File paths as `/`-separated strings.

use vstd::prelude::*;
use crate::text::{substring, concat3, owned};

verus! {

/// The position of the last `/` in `s`, if any.
pub open spec fn last_slash(s: Seq<char>) -> Option<int>
    decreases s.len(),
{
    if s.len() == 0 {
        None
    } else if s.last() == '/' {
        Some(s.len() - 1)
    } else {
        last_slash(s.drop_last())
    }
}

pub proof fn lemma_last_slash(s: Seq<char>)
    ensures
        match last_slash(s) {
            Some(i) => 0 <= i < s.len() && s[i] == '/' && forall|j: int| i < j < s.len() ==> s[j] != '/',
            None => forall|j: int| 0 <= j < s.len() ==> s[j] != '/',
        },
    decreases s.len(),
{
    if s.len() > 0 && s.last() != '/' {
        lemma_last_slash(s.drop_last());
        let t = s.drop_last();
        match last_slash(t) {
            Some(i) => {
                assert forall|j: int| i < j < s.len() implies s[j] != '/' by {
                    if j < t.len() {
                        assert(s[j] == t[j]);
                    }
                }
            },
            None => {
                assert forall|j: int| 0 <= j < s.len() implies s[j] != '/' by {
                    if j < t.len() {
                        assert(s[j] == t[j]);
                    }
                }
            },
        }
    }
}

/// The directory part of a path: what comes before the last `/`; `/` for a path
/// directly under the root; the empty path for a bare name; none for an empty path or `/`.
pub open spec fn parent_spec(s: Seq<char>) -> Option<Seq<char>> {
    if s.len() == 0 || s == seq!['/'] {
        None
    } else {
        match last_slash(s) {
            Some(i) => if i == 0 { Some(seq!['/']) } else { Some(s.subrange(0, i)) },
            None => Some(Seq::empty()),
        }
    }
}

/// The last component of a path: what follows the last `/`.
pub open spec fn file_name_spec(s: Seq<char>) -> Seq<char> {
    match last_slash(s) {
        Some(i) => s.subrange(i + 1, s.len() as int),
        None => s,
    }
}

/// `name` below `dir`, as pushing `name` onto `dir` gives it: `name` alone when it
/// is absolute (starts with `/`) or `dir` is empty; no second `/` when `dir`
/// already ends with one.
pub open spec fn join_spec(dir: Seq<char>, name: Seq<char>) -> Seq<char> {
    if dir.len() == 0 || (name.len() > 0 && name[0] == '/') {
        name
    } else if dir.last() == '/' {
        dir + name
    } else {
        dir + seq!['/'] + name
    }
}

fn find_last_slash(s: &str) -> (r: Option<usize>)
    ensures
        match r {
            Some(i) => last_slash(s@) == Some(i as int),
            None => last_slash(s@) is None,
        },
{
    let n = s.unicode_len();
    let mut i = n;
    proof {
        assert(s@.subrange(0, n as int) =~= s@);
    }
    while i > 0
        invariant
            i <= n,
            n == s@.len(),
            last_slash(s@) == last_slash(s@.subrange(0, i as int)),
        decreases i,
    {
        let ghost sub = s@.subrange(0, i as int);
        if s.get_char(i - 1) == '/' {
            assert(sub.last() == '/');
            return Some(i - 1);
        }
        assert(sub.drop_last() =~= s@.subrange(0, i - 1));
        i = i - 1;
    }
    None
}

/// The directory containing `path`.
pub fn parent(path: &str) -> (r: Option<String>)
    ensures
        match r {
            Some(p) => parent_spec(path@) == Some(p@),
            None => parent_spec(path@) is None,
        },
{
    let n = path.unicode_len();
    if n == 0 {
        return None;
    }
    if n == 1 && path.get_char(0) == '/' {
        assert(path@ =~= seq!['/']);
        return None;
    }
    proof {
        if path@ == seq!['/'] {
            assert(path@[0] == '/');
        }
    }
    match find_last_slash(path) {
        Some(0) => {
            let mut r = String::new();
            crate::text::push_char(&mut r, '/');
            assert(r@ =~= seq!['/']);
            Some(r)
        },
        Some(i) => {
            proof { lemma_last_slash(path@); }
            Some(substring(path, 0, i))
        },
        None => Some(String::new()),
    }
}

/// The last component of `path`.
pub fn file_name(path: &str) -> (r: String)
    ensures
        r@ == file_name_spec(path@),
{
    match find_last_slash(path) {
        Some(i) => {
            proof { lemma_last_slash(path@); }
            let n = path.unicode_len();
            substring(path, i + 1, n)
        },
        None => owned(path),
    }
}

/// `dir/name`.
pub fn join(dir: &str, name: &str) -> (r: String)
    ensures
        r@ == join_spec(dir@, name@),
{
    let n = dir.unicode_len();
    if n == 0 {
        return owned(name);
    }
    if name.unicode_len() > 0 && name.get_char(0) == '/' {
        return owned(name);
    }
    if dir.get_char(n - 1) == '/' {
        let r = crate::text::concat(dir, name);
        assert(r@ =~= dir@ + name@);
        r
    } else {
        proof { reveal_strlit("/"); }
        let r = concat3(dir, "/", name);
        assert(r@ =~= dir@ + seq!['/'] + name@);
        r
    }
}

/// `path` below `dir`: the part after `dir/` (after `dir` when it ends with `/`),
/// empty for `dir` itself, all of it for an empty `dir`; none when `path` does not
/// lie below `dir`.
pub open spec fn strip_dir_spec(path: Seq<char>, dir: Seq<char>) -> Option<Seq<char>> {
    if dir.len() == 0 {
        Some(path)
    } else if path == dir {
        Some(Seq::empty())
    } else if dir.last() == '/' {
        if crate::text::is_prefix(dir, path) {
            Some(path.subrange(dir.len() as int, path.len() as int))
        } else {
            None
        }
    } else if crate::text::is_prefix(dir + seq!['/'], path) {
        Some(path.subrange(dir.len() as int + 1, path.len() as int))
    } else {
        None
    }
}

/// `path` relative to `dir`, if it lies below it.
pub fn strip_dir(path: &str, dir: &str) -> (r: Option<String>)
    ensures
        opt_view_path(r) == strip_dir_spec(path@, dir@),
{
    let n = dir.unicode_len();
    if n == 0 {
        return Some(owned(path));
    }
    if crate::text::str_eq(path, dir) {
        return Some(String::new());
    }
    if dir.get_char(n - 1) == '/' {
        if crate::text::starts_with(path, dir) {
            let m = path.unicode_len();
            return Some(substring(path, n, m));
        }
        return None;
    }
    proof { reveal_strlit("/"); }
    let prefix = crate::text::concat(dir, "/");
    assert(prefix@ =~= dir@ + seq!['/']);
    if crate::text::starts_with(path, prefix.as_str()) {
        let m = path.unicode_len();
        Some(substring(path, n + 1, m))
    } else {
        None
    }
}

pub open spec fn opt_view_path(o: Option<String>) -> Option<Seq<char>> {
    match o {
        Some(s) => Some(s@),
        None => None,
    }
}

/// Taking `dir` off a path joined below it gives back the joined name, for a
/// relative name.
pub proof fn lemma_strip_join(dir: Seq<char>, name: Seq<char>)
    requires
        dir.len() == 0 || (name.len() > 0 && name[0] != '/'),
    ensures
        strip_dir_spec(join_spec(dir, name), dir) == Some(name),
{
    if dir.len() > 0 {
        let p = join_spec(dir, name);
        assert(p.len() > dir.len());
        assert(p != dir);
        if dir.last() == '/' {
            assert(p.subrange(0, dir.len() as int) =~= dir);
            assert(p.subrange(dir.len() as int, p.len() as int) =~= name);
        } else {
            assert(p.subrange(0, dir.len() as int + 1) =~= dir + seq!['/']);
            assert(p.subrange(dir.len() as int + 1, p.len() as int) =~= name);
        }
    }
}


/// The position of the last `.` in `s`, if any.
pub open spec fn last_dot(s: Seq<char>) -> Option<int>
    decreases s.len(),
{
    if s.len() == 0 {
        None
    } else if s.last() == '.' {
        Some(s.len() - 1)
    } else {
        last_dot(s.drop_last())
    }
}

/// A file name without its extension: what comes before its last `.`, the whole
/// name when it has no `.` but a leading one.
pub open spec fn file_stem_spec(name: Seq<char>) -> Seq<char> {
    match last_dot(name) {
        Some(i) => if i > 0 { name.subrange(0, i) } else { name },
        None => name,
    }
}

fn find_last_dot(s: &str) -> (r: Option<usize>)
    ensures
        match r {
            Some(i) => last_dot(s@) == Some(i as int),
            None => last_dot(s@) is None,
        },
{
    let n = s.unicode_len();
    let mut i = n;
    proof {
        assert(s@.subrange(0, n as int) =~= s@);
    }
    while i > 0
        invariant
            i <= n,
            n == s@.len(),
            last_dot(s@) == last_dot(s@.subrange(0, i as int)),
        decreases i,
    {
        let ghost sub = s@.subrange(0, i as int);
        if s.get_char(i - 1) == '.' {
            assert(sub.last() == '.');
            return Some(i - 1);
        }
        assert(sub.drop_last() =~= s@.subrange(0, i - 1));
        i = i - 1;
    }
    None
}

pub proof fn lemma_last_dot(s: Seq<char>)
    ensures
        match last_dot(s) {
            Some(i) => 0 <= i < s.len(),
            None => true,
        },
    decreases s.len(),
{
    if s.len() > 0 && s.last() != '.' {
        lemma_last_dot(s.drop_last());
    }
}

/// The file name of `name` without its extension (see `file_stem_spec`).
pub fn file_stem(name: &str) -> (r: String)
    ensures
        r@ == file_stem_spec(name@),
{
    match find_last_dot(name) {
        Some(i) => {
            proof { lemma_last_dot(name@); }
            if i > 0 { substring(name, 0, i) } else { owned(name) }
        },
        None => owned(name),
    }
}

} // verus!
