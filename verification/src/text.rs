//! String helpers over `char` sequences, with their contracts.

use vstd::prelude::*;

verus! {

// ---------------------------------------------------------------- std calls

/// What `char::to_lowercase` yields for one character (Unicode data).
pub uninterp spec fn char_lowercase(c: char) -> Seq<char>;

/// Whether `char::is_alphanumeric` holds (Unicode data).
pub uninterp spec fn char_alphanumeric(c: char) -> bool;

/// Whether `c` has the Unicode White_Space property, as `char::is_whitespace`
/// tests: U+0009 to U+000D, space, U+0085, U+00A0, U+1680, U+2000 to U+200A,
/// U+2028, U+2029, U+202F, U+205F and U+3000.
pub open spec fn char_whitespace(c: char) -> bool {
    let v = c as u32;
    ||| 0x09 <= v <= 0x0D
    ||| v == 0x20
    ||| v == 0x85
    ||| v == 0xA0
    ||| v == 0x1680
    ||| 0x2000 <= v <= 0x200A
    ||| v == 0x2028
    ||| v == 0x2029
    ||| v == 0x202F
    ||| v == 0x205F
    ||| v == 0x3000
}

/// What `str::to_lowercase` gives for a whole string (Unicode data, context dependent).
pub uninterp spec fn str_lowercase(s: Seq<char>) -> Seq<char>;

/// What `str::to_uppercase` gives for a whole string (Unicode data, context dependent).
pub uninterp spec fn str_uppercase(s: Seq<char>) -> Seq<char>;

/// `String::push`: appends one character.
#[verifier::external_body]
pub(crate) fn push_char(s: &mut String, c: char)
    ensures
        final(s)@ == old(s)@.push(c),
{
    s.push(c);
}

/// `char::to_lowercase`, collected: the lowercase mapping of one character is a
/// function of that character alone; an ASCII character maps to its ASCII
/// lowercase.
#[verifier::external_body]
pub(crate) fn lowercase_of_char(c: char) -> (r: Vec<char>)
    ensures
        r@ == char_lowercase(c),
        (c as u32) < 128 ==> r@ == seq![ascii_lower(c)],
{
    c.to_lowercase().collect()
}

/// `char::is_alphanumeric`; among ASCII characters exactly the letters and digits.
#[verifier::external_body]
pub(crate) fn is_alphanumeric(c: char) -> (r: bool)
    ensures
        r == char_alphanumeric(c),
        (c as u32) < 128 ==> r == (('a' <= c && c <= 'z') || ('A' <= c && c <= 'Z') || ('0' <= c && c <= '9')),
{
    c.is_alphanumeric()
}

/// Whether `c` is whitespace (see `char_whitespace`).
pub(crate) fn is_whitespace(c: char) -> (r: bool)
    ensures
        r == char_whitespace(c),
        (c as u32) < 128 ==> r == (c == ' ' || ('\t' <= c && c <= '\r')),
{
    let v = c as u32;
    (0x09 <= v && v <= 0x0D) || v == 0x20 || v == 0x85 || v == 0xA0 || v == 0x1680
        || (0x2000 <= v && v <= 0x200A) || v == 0x2028 || v == 0x2029 || v == 0x202F || v == 0x205F
        || v == 0x3000
}

/// `str::to_lowercase`; an ASCII string maps character by character to ASCII lowercase.
#[verifier::external_body]
pub(crate) fn to_lowercase(s: &str) -> (r: String)
    ensures
        r@ == str_lowercase(s@),
        (forall|i: int| 0 <= i < s@.len() ==> (#[trigger] s@[i] as u32) < 128) ==> r@ == s@.map_values(|c: char| ascii_lower(c)),
{
    s.to_lowercase()
}

/// `str::to_uppercase`; an ASCII string maps character by character to ASCII uppercase.
#[verifier::external_body]
pub(crate) fn to_uppercase(s: &str) -> (r: String)
    ensures
        r@ == str_uppercase(s@),
        (forall|i: int| 0 <= i < s@.len() ==> (#[trigger] s@[i] as u32) < 128) ==> r@ == s@.map_values(|c: char| ascii_upper(c)),
{
    s.to_uppercase()
}

// ---------------------------------------------------------------- specs

pub open spec fn ascii_lower(c: char) -> char {
    if 'A' <= c && c <= 'Z' {
        ((c as u32) + 32) as char
    } else {
        c
    }
}

pub open spec fn ascii_upper(c: char) -> char {
    if 'a' <= c && c <= 'z' {
        ((c as u32) - 32) as char
    } else {
        c
    }
}

/// ASCII case-insensitive equality, as `str::eq_ignore_ascii_case` defines it.
pub open spec fn eq_ignore_ascii_case_spec(a: Seq<char>, b: Seq<char>) -> bool {
    &&& a.len() == b.len()
    &&& forall|i: int| 0 <= i < a.len() ==> ascii_lower(#[trigger] a[i]) == ascii_lower(b[i])
}

pub open spec fn is_prefix(prefix: Seq<char>, s: Seq<char>) -> bool {
    prefix.len() <= s.len() && s.subrange(0, prefix.len() as int) == prefix
}

pub open spec fn is_suffix(suffix: Seq<char>, s: Seq<char>) -> bool {
    suffix.len() <= s.len() && s.subrange(s.len() - suffix.len(), s.len() as int) == suffix
}

pub open spec fn occurs_at(needle: Seq<char>, s: Seq<char>, i: int) -> bool {
    0 <= i && i + needle.len() <= s.len() && s.subrange(i, i + needle.len()) == needle
}

pub open spec fn contains_seq(s: Seq<char>, needle: Seq<char>) -> bool {
    exists|i: int| occurs_at(needle, s, i)
}

/// The character sequence with leading and trailing whitespace removed.
pub open spec fn trim_spec(s: Seq<char>) -> Seq<char>
    decreases s.len(),
{
    if s.len() > 0 && char_whitespace(s[0]) {
        trim_spec(s.drop_first())
    } else if s.len() > 0 && char_whitespace(s.last()) {
        trim_spec(s.drop_last())
    } else {
        s
    }
}

pub open spec fn digit_char(d: nat) -> char {
    if d == 0 { '0' } else if d == 1 { '1' } else if d == 2 { '2' } else if d == 3 { '3' }
    else if d == 4 { '4' } else if d == 5 { '5' } else if d == 6 { '6' } else if d == 7 { '7' }
    else if d == 8 { '8' } else { '9' }
}

/// The decimal representation of `n`, as `to_string` writes it.
pub open spec fn decimal(n: nat) -> Seq<char>
    decreases n,
{
    if n < 10 {
        seq![digit_char(n)]
    } else {
        decimal(n / 10).push(digit_char(n % 10))
    }
}

// ---------------------------------------------------------------- exec helpers

/// Equality of two strings by their characters.
pub fn str_eq(a: &str, b: &str) -> (r: bool)
    ensures
        r == (a@ == b@),
{
    let n = a.unicode_len();
    if n != b.unicode_len() {
        return false;
    }
    let mut i: usize = 0;
    while i < n
        invariant
            n == a@.len(),
            n == b@.len(),
            i <= n,
            forall|j: int| 0 <= j < i ==> a@[j] == b@[j],
        decreases n - i,
    {
        if a.get_char(i) != b.get_char(i) {
            return false;
        }
        i = i + 1;
    }
    assert(a@ =~= b@);
    true
}

/// Equality of two optional strings by their characters.
pub fn opt_eq(a: &Option<String>, b: &Option<String>) -> (r: bool)
    ensures
        r == (opt_view(*a) == opt_view(*b)),
{
    match (a, b) {
        (Some(x), Some(y)) => str_eq(x.as_str(), y.as_str()),
        (None, None) => true,
        _ => false,
    }
}

pub open spec fn opt_view(o: Option<String>) -> Option<Seq<char>> {
    match o {
        Some(s) => Some(s@),
        None => None,
    }
}

/// A copy of an optional string.
pub fn opt_clone(o: &Option<String>) -> (r: Option<String>)
    ensures
        opt_view(r) == opt_view(*o),
{
    match o {
        Some(s) => Some(s.clone()),
        None => None,
    }
}

/// A new string holding `s`.
pub fn owned(s: &str) -> (r: String)
    ensures
        r@ == s@,
{
    String::from_str(s)
}

/// `a` followed by `b`.
pub fn concat(a: &str, b: &str) -> (r: String)
    ensures
        r@ == a@ + b@,
{
    let mut s = String::from_str(a);
    s.append(b);
    s
}

/// `a`, `b` and `c` one after the other.
pub fn concat3(a: &str, b: &str, c: &str) -> (r: String)
    ensures
        r@ == a@ + b@ + c@,
{
    let mut s = String::from_str(a);
    s.append(b);
    s.append(c);
    s
}

/// Whether two strings are equal when ASCII letters are compared case-insensitively.
pub fn eq_ignore_ascii_case(a: &str, b: &str) -> (r: bool)
    ensures
        r == eq_ignore_ascii_case_spec(a@, b@),
{
    let n = a.unicode_len();
    if n != b.unicode_len() {
        return false;
    }
    let mut i: usize = 0;
    while i < n
        invariant
            n == a@.len(),
            n == b@.len(),
            i <= n,
            forall|j: int| 0 <= j < i ==> ascii_lower(#[trigger] a@[j]) == ascii_lower(b@[j]),
        decreases n - i,
    {
        if lower_ascii(a.get_char(i)) != lower_ascii(b.get_char(i)) {
            return false;
        }
        i = i + 1;
    }
    true
}

pub fn lower_ascii(c: char) -> (r: char)
    ensures
        r == ascii_lower(c),
{
    if 'A' <= c && c <= 'Z' {
        let v = (c as u32) + 32;
        assert(0x61 <= v <= 0x7a);
        char_from_ascii(v)
    } else {
        c
    }
}

/// The character with the given ASCII code.
fn char_from_ascii(v: u32) -> (r: char)
    requires
        v < 128,
    ensures
        r == v as char,
{
    (v as u8) as char
}

/// Whether `needle` occurs in `s` at position `i`.
fn occurs_at_exec(s: &str, needle: &str, i: usize) -> (r: bool)
    requires
        i + needle@.len() <= s@.len(),
    ensures
        r == occurs_at(needle@, s@, i as int),
{
    let m = needle.unicode_len();
    let n = s.unicode_len();
    let mut k: usize = 0;
    while k < m
        invariant
            m == needle@.len(),
            n == s@.len(),
            i + m <= s@.len(),
            k <= m,
            forall|j: int| 0 <= j < k ==> s@[i + j] == needle@[j],
        decreases m - k,
    {
        if s.get_char(i + k) != needle.get_char(k) {
            assert(s@.subrange(i as int, i + m)[k as int] != needle@[k as int]);
            return false;
        }
        k = k + 1;
    }
    assert(s@.subrange(i as int, i + m) =~= needle@);
    true
}

/// Whether `needle` occurs somewhere in `s`.
pub fn contains_str(s: &str, needle: &str) -> (r: bool)
    ensures
        r == contains_seq(s@, needle@),
{
    let n = s.unicode_len();
    let m = needle.unicode_len();
    if m > n {
        assert forall|i: int| !occurs_at(needle@, s@, i) by {}
        return false;
    }
    if m == 0 {
        assert(s@.subrange(0, 0) =~= needle@);
        assert(occurs_at(needle@, s@, 0));
        return true;
    }
    let mut i: usize = 0;
    while i <= n - m
        invariant
            n == s@.len(),
            m == needle@.len(),
            1 <= m <= n,
            i <= n - m + 1,
            forall|j: int| 0 <= j < i ==> !occurs_at(needle@, s@, j),
        decreases n - m + 1 - i,
    {
        if occurs_at_exec(s, needle, i) {
            return true;
        }
        i = i + 1;
    }
    assert forall|j: int| !occurs_at(needle@, s@, j) by {
        if 0 <= j && j + m <= n {
            assert(j < i);
        }
    }
    false
}

/// Whether `s` starts with `prefix`.
pub fn starts_with(s: &str, prefix: &str) -> (r: bool)
    ensures
        r == is_prefix(prefix@, s@),
{
    let m = prefix.unicode_len();
    if m > s.unicode_len() {
        return false;
    }
    let r = occurs_at_exec(s, prefix, 0);
    r
}

/// Whether `s` ends with `suffix`.
pub fn ends_with(s: &str, suffix: &str) -> (r: bool)
    ensures
        r == is_suffix(suffix@, s@),
{
    let n = s.unicode_len();
    let m = suffix.unicode_len();
    if m > n {
        return false;
    }
    occurs_at_exec(s, suffix, n - m)
}

/// The characters of `s` from `from` (inclusive) to `to` (exclusive).
pub fn substring(s: &str, from: usize, to: usize) -> (r: String)
    requires
        from <= to <= s@.len(),
    ensures
        r@ == s@.subrange(from as int, to as int),
{
    let mut out = String::new();
    let mut i = from;
    while i < to
        invariant
            from <= i <= to,
            to <= s@.len(),
            out@ == s@.subrange(from as int, i as int),
        decreases to - i,
    {
        push_char(&mut out, s.get_char(i));
        assert(s@.subrange(from as int, i + 1) =~= s@.subrange(from as int, i as int).push(s@[i as int]));
        i = i + 1;
    }
    out
}

/// `s` without `suffix`, when `s` ends with it.
pub fn strip_suffix(s: &str, suffix: &str) -> (r: Option<String>)
    ensures
        is_suffix(suffix@, s@) ==> (r matches Some(t) && t@ == s@.subrange(0, s@.len() - suffix@.len())),
        !is_suffix(suffix@, s@) ==> r is None,
{
    if ends_with(s, suffix) {
        let n = s.unicode_len();
        let m = suffix.unicode_len();
        Some(substring(s, 0, n - m))
    } else {
        None
    }
}

/// The character sequence without its trailing whitespace.
pub open spec fn trim_end_spec(s: Seq<char>) -> Seq<char>
    decreases s.len(),
{
    if s.len() > 0 && char_whitespace(s.last()) {
        trim_end_spec(s.drop_last())
    } else {
        s
    }
}

/// `str::trim_end`: `s` without its trailing whitespace.
pub fn trim_end(s: &str) -> (r: String)
    ensures
        r@ == trim_end_spec(s@),
{
    let n = s.unicode_len();
    let mut end: usize = n;
    assert(s@.subrange(0, n as int) =~= s@);
    while end > 0 && is_whitespace(s.get_char(end - 1))
        invariant
            n == s@.len(),
            end <= n,
            trim_end_spec(s@) == trim_end_spec(s@.subrange(0, end as int)),
        decreases end,
    {
        let ghost sub = s@.subrange(0, end as int);
        assert(sub.last() == s@[end - 1]);
        assert(sub.drop_last() =~= s@.subrange(0, end - 1));
        end = end - 1;
    }
    proof {
        let sub = s@.subrange(0, end as int);
        if end > 0 {
            assert(sub.last() == s@[end - 1]);
        }
    }
    substring(s, 0, end)
}

/// `s` without leading and trailing whitespace.
pub fn trim(s: &str) -> (r: String)
    ensures
        r@ == trim_spec(s@),
{
    let n = s.unicode_len();
    let mut start: usize = 0;
    let mut end: usize = n;
    assert(s@.subrange(0, n as int) =~= s@);
    while start < end && is_whitespace(s.get_char(start))
        invariant
            n == s@.len(),
            start <= end,
            end == n,
            trim_spec(s@) == trim_spec(s@.subrange(start as int, end as int)),
        decreases end - start,
    {
        assert(s@.subrange(start as int, end as int).drop_first() =~= s@.subrange(start + 1, end as int));
        start = start + 1;
    }
    while start < end && is_whitespace(s.get_char(end - 1))
        invariant
            n == s@.len(),
            start <= end <= n,
            trim_spec(s@) == trim_spec(s@.subrange(start as int, end as int)),
            start < end ==> !char_whitespace(s@[start as int]),
        decreases end - start,
    {
        let ghost sub = s@.subrange(start as int, end as int);
        assert(sub[0] == s@[start as int]);
        assert(sub.drop_last() =~= s@.subrange(start as int, end - 1));
        end = end - 1;
    }
    proof {
        let sub = s@.subrange(start as int, end as int);
        if start < end {
            assert(sub[0] == s@[start as int]);
            assert(sub.last() == s@[end - 1]);
        }
    }
    substring(s, start, end)
}

/// Whether `s` is empty or consists of whitespace only.
pub fn is_blank(s: &str) -> (r: bool)
    ensures
        r == (trim_spec(s@).len() == 0),
{
    let t = trim(s);
    t.unicode_len() == 0
}

fn digit(d: usize) -> (r: char)
    requires
        d < 10,
    ensures
        r == digit_char(d as nat),
{
    if d == 0 { '0' } else if d == 1 { '1' } else if d == 2 { '2' } else if d == 3 { '3' }
    else if d == 4 { '4' } else if d == 5 { '5' } else if d == 6 { '6' } else if d == 7 { '7' }
    else if d == 8 { '8' } else { '9' }
}

/// The decimal representation of `n`.
pub fn decimal_string(n: u64) -> (r: String)
    ensures
        r@ == decimal(n as nat),
    decreases n,
{
    if n < 10 {
        let mut s = String::new();
        push_char(&mut s, digit(n as usize));
        assert(s@ =~= seq![digit_char(n as nat)]);
        s
    } else {
        let mut s = decimal_string(n / 10);
        push_char(&mut s, digit((n % 10) as usize));
        s
    }
}

} // verus!
