//! Character-sequence helpers shared by the parsers: conversion between
//! `&str`/`String` and `Vec<char>`, substring search, trimming and decimal
//! formatting.
use vstd::prelude::*;

verus! {

/// `String::push` appends one character.
pub assume_specification[ String::push ](s: &mut String, ch: char)
    ensures
        final(s)@ == old(s)@.push(ch),
;

/// The characters of `s`, in order.
pub fn chars_of(s: &str) -> (v: Vec<char>)
    ensures
        v@ == s@,
{
    let n = s.unicode_len();
    let mut v: Vec<char> = Vec::with_capacity(n);
    let mut i: usize = 0;
    while i < n
        invariant
            n == s@.len(),
            i <= n,
            v@ == s@.subrange(0, i as int),
        decreases n - i,
    {
        v.push(s.get_char(i));
        i += 1;
    }
    assert(v@ =~= s@);
    v
}

/// A `String` holding exactly the characters of `v`.
pub fn string_of(v: &[char]) -> (s: String)
    ensures
        s@ == v@,
{
    let mut s = String::new();
    let mut i: usize = 0;
    while i < v.len()
        invariant
            i <= v@.len(),
            s@ == v@.subrange(0, i as int),
        decreases v@.len() - i,
    {
        s.push(v[i]);
        i += 1;
    }
    assert(s@ =~= v@);
    s
}

} // verus!

verus! {

// ---------------------------------------------------------------------------
// Search
// ---------------------------------------------------------------------------

/// `needle` occurs in `hay` starting at position `i`.
pub open spec fn occurs_at<T>(hay: Seq<T>, needle: Seq<T>, i: int) -> bool {
    0 <= i && i + needle.len() <= hay.len() && hay.subrange(i, i + needle.len()) == needle
}

/// The first position `>= start` at which `needle` occurs in `hay`.
pub open spec fn find_from<T>(hay: Seq<T>, needle: Seq<T>, start: int) -> Option<int>
    decreases hay.len() + 1 - start,
{
    if start < 0 || start + needle.len() > hay.len() {
        None
    } else if occurs_at(hay, needle, start) {
        Some(start)
    } else {
        find_from(hay, needle, start + 1)
    }
}

/// `hay` contains `needle`.
pub open spec fn contains_seq<T>(hay: Seq<T>, needle: Seq<T>) -> bool {
    find_from(hay, needle, 0) is Some
}

/// Whether `needle` occurs in `hay`.
pub fn contains_str(hay: &Vec<char>, needle: &str) -> (b: bool)
    ensures
        b == contains_seq(hay@, needle@),
{
    let n = chars_of(needle);
    find_chars(hay, &n, 0).is_some()
}

/// `s` begins with `p`.
pub open spec fn starts_with<T>(s: Seq<T>, p: Seq<T>) -> bool {
    p.len() <= s.len() && s.subrange(0, p.len() as int) == p
}

/// What `find_from` finds is an occurrence, and none comes before it.
pub proof fn lemma_find_from<T>(hay: Seq<T>, needle: Seq<T>, start: int)
    requires
        0 <= start,
    ensures
        match find_from(hay, needle, start) {
            Some(p) => start <= p && occurs_at(hay, needle, p) && forall|k: int|
                start <= k < p ==> !occurs_at(hay, needle, k),
            None => forall|k: int| start <= k ==> !occurs_at(hay, needle, k),
        },
    decreases hay.len() + 1 - start,
{
    if start + needle.len() > hay.len() {
    } else if occurs_at(hay, needle, start) {
    } else {
        lemma_find_from(hay, needle, start + 1);
    }
}

/// Whether `needle` occurs in `hay` at `i` (exec).
fn chars_occur_at(hay: &Vec<char>, needle: &Vec<char>, i: usize) -> (b: bool)
    ensures
        b == occurs_at(hay@, needle@, i as int),
{
    if needle.len() > hay.len() || i > hay.len() - needle.len() {
        return false;
    }
    let mut k: usize = 0;
    while k < needle.len()
        invariant
            i + needle.len() <= hay.len(),
            k <= needle@.len(),
            forall|j: int| 0 <= j < k ==> hay@[i + j] == needle@[j],
        decreases needle@.len() - k,
    {
        if hay[i + k] != needle[k] {
            assert(hay@.subrange(i as int, i + needle@.len())[k as int] != needle@[k as int]);
            return false;
        }
        k += 1;
    }
    assert(hay@.subrange(i as int, i + needle@.len()) =~= needle@);
    true
}

/// First position `>= start` where `needle` occurs in `hay`.
pub fn find_chars(hay: &Vec<char>, needle: &Vec<char>, start: usize) -> (r: Option<usize>)
    ensures
        match r {
            Some(p) => find_from(hay@, needle@, start as int) == Some(p as int),
            None => find_from(hay@, needle@, start as int) is None,
        },
{
    let mut i = start;
    while i <= hay.len() && needle.len() <= hay.len() - i
        invariant
            start <= i,
            find_from(hay@, needle@, start as int) == find_from(hay@, needle@, i as int),
        decreases hay@.len() + 1 - i,
    {
        if chars_occur_at(hay, needle, i) {
            return Some(i);
        }
        if i == hay.len() {
            assert(find_from(hay@, needle@, i as int + 1) is None);
            return None;
        }
        i += 1;
    }
    None
}

/// Whether `hay` begins with `p` (exec).
pub fn chars_start_with(hay: &Vec<char>, p: &Vec<char>) -> (b: bool)
    ensures
        b == starts_with(hay@, p@),
{
    let b = chars_occur_at(hay, p, 0);
    proof {
        if p@.len() <= hay@.len() {
            assert(b == (hay@.subrange(0, p@.len() as int) == p@));
        }
    }
    b
}

/// `v[from..to]` as a new vector.
pub fn slice_chars(v: &Vec<char>, from: usize, to: usize) -> (r: Vec<char>)
    requires
        from <= to <= v@.len(),
    ensures
        r@ == v@.subrange(from as int, to as int),
{
    let mut r: Vec<char> = Vec::new();
    let mut i = from;
    while i < to
        invariant
            from <= i <= to <= v@.len(),
            r@ == v@.subrange(from as int, i as int),
        decreases to - i,
    {
        r.push(v[i]);
        i += 1;
    }
    r
}

/// `a` followed by `b`.
pub fn concat_chars(a: &Vec<char>, b: &Vec<char>) -> (r: Vec<char>)
    ensures
        r@ == a@ + b@,
{
    let mut r = a.clone();
    let mut i: usize = 0;
    while i < b.len()
        invariant
            i <= b@.len(),
            r@ == a@ + b@.subrange(0, i as int),
        decreases b@.len() - i,
    {
        r.push(b[i]);
        i += 1;
    }
    assert(b@.subrange(0, b@.len() as int) =~= b@);
    r
}

/// Whether two character vectors are equal.
pub fn chars_eq(a: &Vec<char>, b: &Vec<char>) -> (r: bool)
    ensures
        r == (a@ == b@),
{
    if a.len() != b.len() {
        return false;
    }
    let r = chars_occur_at(a, b, 0);
    proof {
        if r {
            assert(a@.subrange(0, b@.len() as int) =~= a@);
        } else {
            if a@ == b@ {
                assert(a@.subrange(0, b@.len() as int) =~= a@);
            }
        }
    }
    r
}

// ---------------------------------------------------------------------------
// Character classes
// ---------------------------------------------------------------------------

/// Unicode `White_Space`, the set that `char::is_whitespace` and `str::trim` use.
pub open spec fn is_unicode_whitespace(c: char) -> bool {
    ||| ('\u{9}' <= c && c <= '\u{d}')
    ||| c == ' '
    ||| c == '\u{85}'
    ||| c == '\u{a0}'
    ||| c == '\u{1680}'
    ||| ('\u{2000}' <= c && c <= '\u{200a}')
    ||| c == '\u{2028}'
    ||| c == '\u{2029}'
    ||| c == '\u{202f}'
    ||| c == '\u{205f}'
    ||| c == '\u{3000}'
}

/// `char::is_whitespace`.
pub fn is_whitespace(c: char) -> (b: bool)
    ensures
        b == is_unicode_whitespace(c),
{
    ('\u{9}' <= c && c <= '\u{d}') || c == ' ' || c == '\u{85}' || c == '\u{a0}' || c
        == '\u{1680}' || ('\u{2000}' <= c && c <= '\u{200a}') || c == '\u{2028}' || c
        == '\u{2029}' || c == '\u{202f}' || c == '\u{205f}' || c == '\u{3000}'
}

/// ASCII lowercase of one character (`char::to_ascii_lowercase`).
pub open spec fn ascii_lower(c: char) -> char {
    if 'A' <= c && c <= 'Z' {
        ((c as u32) + 32) as char
    } else {
        c
    }
}

/// `str::to_ascii_lowercase` on a character sequence.
pub open spec fn ascii_lower_seq(s: Seq<char>) -> Seq<char> {
    s.map_values(|c: char| ascii_lower(c))
}

/// ASCII lowercase of one character (exec).
pub fn to_ascii_lower(c: char) -> (r: char)
    ensures
        r == ascii_lower(c),
{
    if 'A' <= c && c <= 'Z' {
        let u: u32 = c as u32;
        let l: u32 = u + 32;
        let r: u8 = l as u8;
        assert(r == l);
        r as char
    } else {
        c
    }
}

/// ASCII-lowercased copy of `v`.
pub fn lower_ascii_chars(v: &Vec<char>) -> (r: Vec<char>)
    ensures
        r@ == ascii_lower_seq(v@),
{
    let mut r: Vec<char> = Vec::new();
    let mut i: usize = 0;
    while i < v.len()
        invariant
            i <= v@.len(),
            r@ =~= ascii_lower_seq(v@.subrange(0, i as int)),
        decreases v@.len() - i,
    {
        r.push(to_ascii_lower(v[i]));
        i += 1;
    }
    assert(v@.subrange(0, v@.len() as int) =~= v@);
    r
}

// ---------------------------------------------------------------------------
// Trimming
// ---------------------------------------------------------------------------

/// Which characters a trim removes.
#[derive(Clone, Copy, PartialEq, Eq)]
pub enum TrimSet {
    /// Unicode white space (`str::trim`).
    Whitespace,
    /// The NUL character (`trim_end_matches('\0')`).
    Nul,
    /// `.` and space (path components).
    DotSpace,
}

/// Membership in a trim set.
pub open spec fn in_trim_set(set: TrimSet, c: char) -> bool {
    match set {
        TrimSet::Whitespace => is_unicode_whitespace(c),
        TrimSet::Nul => c == '\0',
        TrimSet::DotSpace => c == '.' || c == ' ',
    }
}

fn trim_set_has(set: TrimSet, c: char) -> (b: bool)
    ensures
        b == in_trim_set(set, c),
{
    match set {
        TrimSet::Whitespace => is_whitespace(c),
        TrimSet::Nul => c == '\0',
        TrimSet::DotSpace => c == '.' || c == ' ',
    }
}

/// `s` without its leading characters from `set`.
pub open spec fn trim_start_seq(s: Seq<char>, set: TrimSet) -> Seq<char>
    decreases s.len(),
{
    if s.len() > 0 && in_trim_set(set, s[0]) {
        trim_start_seq(s.drop_first(), set)
    } else {
        s
    }
}

/// `s` without its trailing characters from `set`.
pub open spec fn trim_end_seq(s: Seq<char>, set: TrimSet) -> Seq<char>
    decreases s.len(),
{
    if s.len() > 0 && in_trim_set(set, s.last()) {
        trim_end_seq(s.drop_last(), set)
    } else {
        s
    }
}

/// `s` without leading and trailing characters from `set`.
pub open spec fn trim_seq(s: Seq<char>, set: TrimSet) -> Seq<char> {
    trim_end_seq(trim_start_seq(s, set), set)
}

proof fn lemma_trim_start_skip(s: Seq<char>, set: TrimSet, i: int)
    requires
        0 <= i < s.len(),
        in_trim_set(set, s[i]),
        forall|k: int| 0 <= k < i ==> in_trim_set(set, s[k]),
    ensures
        trim_start_seq(s.subrange(i + 1, s.len() as int), set) == trim_start_seq(s, set),
    decreases i,
{
    if i == 0 {
        assert(s.drop_first() =~= s.subrange(1, s.len() as int));
    } else {
        let t = s.drop_first();
        assert forall|k: int| 0 <= k < i - 1 implies in_trim_set(set, t[k]) by {
            assert(t[k] == s[k + 1]);
        }
        lemma_trim_start_skip(t, set, i - 1);
        assert(t.subrange(i, t.len() as int) =~= s.subrange(i + 1, s.len() as int));
    }
}

proof fn lemma_trim_end_skip(s: Seq<char>, set: TrimSet, j: int)
    requires
        0 < j <= s.len(),
        in_trim_set(set, s[j - 1]),
        forall|k: int| j <= k < s.len() ==> in_trim_set(set, s[k]),
    ensures
        trim_end_seq(s.subrange(0, j - 1), set) == trim_end_seq(s, set),
    decreases s.len() - j,
{
    if j == s.len() {
        assert(s.drop_last() =~= s.subrange(0, j - 1));
    } else {
        let t = s.drop_last();
        assert forall|k: int| j <= k < t.len() implies in_trim_set(set, t[k]) by {
            assert(t[k] == s[k]);
        }
        lemma_trim_end_skip(t, set, j);
        assert(t.subrange(0, j - 1) =~= s.subrange(0, j - 1));
    }
}

/// `v` with leading characters from `set` removed.
pub fn trim_start_chars(v: &Vec<char>, set: TrimSet) -> (r: Vec<char>)
    ensures
        r@ == trim_start_seq(v@, set),
{
    let mut i: usize = 0;
    assert(v@.subrange(0, v@.len() as int) =~= v@);
    while i < v.len() && trim_set_has(set, v[i])
        invariant
            i <= v@.len(),
            forall|k: int| 0 <= k < i ==> in_trim_set(set, v@[k]),
            trim_start_seq(v@.subrange(i as int, v@.len() as int), set) == trim_start_seq(
                v@,
                set,
            ),
        decreases v@.len() - i,
    {
        proof {
            lemma_trim_start_skip(v@, set, i as int);
        }
        i += 1;
    }
    let r = slice_chars(v, i, v.len());
    proof {
        let t = v@.subrange(i as int, v@.len() as int);
        if t.len() > 0 {
            assert(t[0] == v@[i as int]);
        }
    }
    r
}

/// `v` with trailing characters from `set` removed.
pub fn trim_end_chars(v: &Vec<char>, set: TrimSet) -> (r: Vec<char>)
    ensures
        r@ == trim_end_seq(v@, set),
{
    let mut j: usize = v.len();
    assert(v@.subrange(0, v@.len() as int) =~= v@);
    while j > 0 && trim_set_has(set, v[j - 1])
        invariant
            j <= v@.len(),
            forall|k: int| j <= k < v@.len() ==> in_trim_set(set, v@[k]),
            trim_end_seq(v@.subrange(0, j as int), set) == trim_end_seq(v@, set),
        decreases j,
    {
        proof {
            lemma_trim_end_skip(v@, set, j as int);
            assert(v@.subrange(0, j as int).subrange(0, j - 1) =~= v@.subrange(0, j - 1));
            let s = v@.subrange(0, j as int);
            assert forall|k: int| j <= k < s.len() implies in_trim_set(set, s[k]) by {}
            lemma_trim_end_skip(s, set, j as int);
        }
        j -= 1;
    }
    let r = slice_chars(v, 0, j);
    proof {
        assert(v@.subrange(0, v@.len() as int) =~= v@);
    }
    r
}

/// `v` with leading and trailing characters from `set` removed.
pub fn trim_chars(v: &Vec<char>, set: TrimSet) -> (r: Vec<char>)
    ensures
        r@ == trim_seq(v@, set),
{
    let a = trim_start_chars(v, set);
    trim_end_chars(&a, set)
}

// ---------------------------------------------------------------------------
// Decimal formatting
// ---------------------------------------------------------------------------

/// The ASCII digit for `d < 10`.
pub open spec fn digit_char(d: nat) -> char {
    (('0' as u32) + d) as char
}

/// Decimal representation of `n` (what `{}` prints for an unsigned integer).
pub open spec fn dec_seq(n: nat) -> Seq<char>
    decreases n,
{
    if n < 10 {
        seq![digit_char(n)]
    } else {
        dec_seq(n / 10).push(digit_char(n % 10))
    }
}

/// Decimal representation padded with zeros to at least two characters (`{:02}`).
pub open spec fn dec2_seq(n: nat) -> Seq<char> {
    if n < 10 {
        seq!['0', digit_char(n)]
    } else {
        dec_seq(n)
    }
}

fn digit(d: u64) -> (c: char)
    requires
        d < 10,
    ensures
        c == digit_char(d as nat),
{
    let b: u8 = (d as u8) + 48;
    b as char
}

/// Appends the decimal representation of `n` to `out`.
pub fn push_dec(n: u64, out: &mut Vec<char>)
    ensures
        final(out)@ == old(out)@ + dec_seq(n as nat),
    decreases n,
{
    if n >= 10 {
        push_dec(n / 10, out);
    }
    out.push(digit(n % 10));
    proof {
        if n >= 10 {
            assert(dec_seq(n as nat) == dec_seq((n / 10) as nat).push(digit_char((n % 10) as nat)));
        }
    }
}

/// Appends `{:02}` of `n` to `out`.
pub fn push_dec2(n: u64, out: &mut Vec<char>)
    ensures
        final(out)@ == old(out)@ + dec2_seq(n as nat),
{
    if n < 10 {
        out.push('0');
        out.push(digit(n));
    } else {
        push_dec(n, out);
    }
}

/// Appends the characters of `s`.
pub fn push_all(out: &mut Vec<char>, s: &Vec<char>)
    ensures
        final(out)@ == old(out)@ + s@,
{
    let mut i: usize = 0;
    while i < s.len()
        invariant
            i <= s@.len(),
            out@ == old(out)@ + s@.subrange(0, i as int),
        decreases s@.len() - i,
    {
        out.push(s[i]);
        i += 1;
    }
    assert(s@.subrange(0, s@.len() as int) =~= s@);
}

/// Appends the characters of a string slice.
pub fn push_str(out: &mut Vec<char>, s: &str)
    ensures
        final(out)@ == old(out)@ + s@,
{
    let v = chars_of(s);
    push_all(out, &v);
}

} // verus!

verus! {

/// An owned copy of a string slice.
pub fn owned(s: &str) -> (r: String)
    ensures
        r@ == s@,
{
    s.to_owned()
}

} // verus!

verus! {

/// Trimming the start removes a prefix made of characters from the set, and
/// what remains does not begin with one.
pub proof fn lemma_trim_start_shape(s: Seq<char>, set: TrimSet)
    ensures
        exists|k: int|
            0 <= k <= s.len() && trim_start_seq(s, set) == s.subrange(k, s.len() as int),
        trim_start_seq(s, set).len() > 0 ==> !in_trim_set(set, trim_start_seq(s, set)[0]),
    decreases s.len(),
{
    if s.len() > 0 && in_trim_set(set, s[0]) {
        lemma_trim_start_shape(s.drop_first(), set);
        let k = choose|k: int|
            0 <= k <= s.drop_first().len() && trim_start_seq(s.drop_first(), set)
                == s.drop_first().subrange(k, s.drop_first().len() as int);
        assert(s.drop_first().subrange(k, s.drop_first().len() as int) =~= s.subrange(
            k + 1,
            s.len() as int,
        ));
    } else {
        assert(s.subrange(0, s.len() as int) =~= s);
    }
}

/// Trimming the end removes a suffix made of characters from the set, and
/// what remains does not end with one.
pub proof fn lemma_trim_end_shape(s: Seq<char>, set: TrimSet)
    ensures
        exists|k: int| 0 <= k <= s.len() && trim_end_seq(s, set) == s.subrange(0, k),
        trim_end_seq(s, set).len() > 0 ==> !in_trim_set(set, trim_end_seq(s, set).last()),
    decreases s.len(),
{
    if s.len() > 0 && in_trim_set(set, s.last()) {
        lemma_trim_end_shape(s.drop_last(), set);
        let k = choose|k: int|
            0 <= k <= s.drop_last().len() && trim_end_seq(s.drop_last(), set)
                == s.drop_last().subrange(0, k);
        assert(s.drop_last().subrange(0, k) =~= s.subrange(0, k));
    } else {
        assert(s.subrange(0, s.len() as int) =~= s);
    }
}

/// A trimmed sequence is a contiguous part of the original, and neither
/// begins nor ends with a character from the set.
pub proof fn lemma_trim_shape(s: Seq<char>, set: TrimSet)
    ensures
        exists|i: int, j: int|
            0 <= i <= j <= s.len() && trim_seq(s, set) == s.subrange(i, j),
        trim_seq(s, set).len() > 0 ==> !in_trim_set(set, trim_seq(s, set)[0]) && !in_trim_set(
            set,
            trim_seq(s, set).last(),
        ),
{
    lemma_trim_start_shape(s, set);
    let a = trim_start_seq(s, set);
    let i = choose|i: int| 0 <= i <= s.len() && a == s.subrange(i, s.len() as int);
    lemma_trim_end_shape(a, set);
    let j = choose|j: int| 0 <= j <= a.len() && trim_end_seq(a, set) == a.subrange(0, j);
    assert(a.subrange(0, j) =~= s.subrange(i, i + j));
    if trim_seq(s, set).len() > 0 {
        assert(trim_seq(s, set)[0] == a[0]);
    }
}

/// Trimming what is already trimmed changes nothing.
pub proof fn lemma_trim_idempotent(s: Seq<char>, set: TrimSet)
    ensures
        trim_seq(trim_seq(s, set), set) == trim_seq(s, set),
{
    lemma_trim_shape(s, set);
    let t = trim_seq(s, set);
    if t.len() > 0 {
        assert(trim_start_seq(t, set) == t);
        assert(trim_end_seq(t, set) == t);
    }
}

} // verus!

verus! {

/// What `str::to_lowercase` yields for `s`: each character replaced by its
/// Unicode lowercase mapping (locale-independent).
pub uninterp spec fn unicode_lowercase(s: Seq<char>) -> Seq<char>;

/// Calls `str::to_lowercase`. Claims only that the result is
/// `unicode_lowercase(s)`; the Unicode case tables themselves are left unsaid.
#[verifier::external_body]
pub(crate) fn lowercase(s: &str) -> (r: String)
    ensures
        r@ == unicode_lowercase(s@),
{
    s.to_lowercase()
}

} // verus!
