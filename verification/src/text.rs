//! Character and string primitives over `Seq<char>`, with executable versions.
use vstd::prelude::*;
use vstd::string::*;

verus! {

/// `String::push` appends one character to the end of the string.
pub assume_specification[ String::push ](s: &mut String, ch: char)
    ensures
        final(s)@ == old(s)@.push(ch),
;

pub open spec fn is_ascii_digit(c: char) -> bool {
    '0' <= c && c <= '9'
}

pub open spec fn is_ascii_upper(c: char) -> bool {
    'A' <= c && c <= 'Z'
}

pub open spec fn is_ascii_lower(c: char) -> bool {
    'a' <= c && c <= 'z'
}

pub open spec fn is_ascii_alnum(c: char) -> bool {
    is_ascii_digit(c) || is_ascii_upper(c) || is_ascii_lower(c)
}

pub open spec fn ascii_lower(c: char) -> char {
    if is_ascii_upper(c) {
        ((c as u32) + 32) as char
    } else {
        c
    }
}

pub fn char_is_ascii_alnum(c: char) -> (b: bool)
    ensures
        b == is_ascii_alnum(c),
{
    ('0' <= c && c <= '9') || ('A' <= c && c <= 'Z') || ('a' <= c && c <= 'z')
}

pub fn char_to_ascii_lower(c: char) -> (r: char)
    ensures
        r == ascii_lower(c),
{
    if 'A' <= c && c <= 'Z' {
        let b: u8 = (c as u8) + 32;
        b as char
    } else {
        c
    }
}

/// Collects the characters of `s`.
pub fn chars_of(s: &str) -> (out: Vec<char>)
    ensures
        out@ == s@,
{
    let n = s.unicode_len();
    let mut out: Vec<char> = Vec::new();
    let mut i: usize = 0;
    while i < n
        invariant
            n == s@.len(),
            i <= n,
            out@ == s@.subrange(0, i as int),
        decreases n - i,
    {
        out.push(s.get_char(i));
        i = i + 1;
    }
    assert(out@ =~= s@);
    out
}

/// Builds a `String` holding exactly the given characters.
pub fn string_of(v: &[char]) -> (s: String)
    ensures
        s@ == v@,
{
    let mut s = String::new();
    let mut i: usize = 0;
    while i < v.len()
        invariant
            i <= v.len(),
            s@ == v@.subrange(0, i as int),
        decreases v.len() - i,
    {
        s.push(v[i]);
        i = i + 1;
        assert(s@ =~= v@.subrange(0, i as int));
    }
    assert(s@ =~= v@);
    s
}


/// `char::is_whitespace`: the Unicode `White_Space` property.
pub open spec fn is_white(c: char) -> bool {
    ('\u{9}' <= c && c <= '\u{D}') || c == ' ' || c == '\u{85}' || c == '\u{A0}' || c == '\u{1680}'
        || ('\u{2000}' <= c && c <= '\u{200A}') || c == '\u{2028}' || c == '\u{2029}' || c
        == '\u{202F}' || c == '\u{205F}' || c == '\u{3000}'
}

pub fn char_is_white(c: char) -> (b: bool)
    ensures
        b == is_white(c),
{
    ('\u{9}' <= c && c <= '\u{D}') || c == ' ' || c == '\u{85}' || c == '\u{A0}' || c == '\u{1680}'
        || ('\u{2000}' <= c && c <= '\u{200A}') || c == '\u{2028}' || c == '\u{2029}' || c
        == '\u{202F}' || c == '\u{205F}' || c == '\u{3000}'
}

/// The characters that a strip removes from either end of a text.
#[derive(Clone, Copy, Debug, PartialEq, Eq)]
pub enum StripSet {
    /// Unicode white space, as `str::trim` removes it.
    Whitespace,
    /// One given character, as `str::trim_matches` removes it.
    Exactly(char),
}

pub open spec fn strip_hit(p: StripSet, c: char) -> bool {
    match p {
        StripSet::Whitespace => is_white(c),
        StripSet::Exactly(x) => c == x,
    }
}

pub fn strip_hit_exec(p: StripSet, c: char) -> (b: bool)
    ensures
        b == strip_hit(p, c),
{
    match p {
        StripSet::Whitespace => char_is_white(c),
        StripSet::Exactly(x) => c == x,
    }
}

pub open spec fn strip_start(s: Seq<char>, p: StripSet) -> Seq<char>
    decreases s.len(),
{
    if s.len() > 0 && strip_hit(p, s[0]) {
        strip_start(s.drop_first(), p)
    } else {
        s
    }
}

pub open spec fn strip_end(s: Seq<char>, p: StripSet) -> Seq<char>
    decreases s.len(),
{
    if s.len() > 0 && strip_hit(p, s.last()) {
        strip_end(s.drop_last(), p)
    } else {
        s
    }
}

pub open spec fn strip_both(s: Seq<char>, p: StripSet) -> Seq<char> {
    strip_end(strip_start(s, p), p)
}

/// Stripping keeps a contiguous part whose ends are not stripped characters.
pub proof fn lemma_strip_both_subrange(s: Seq<char>, p: StripSet)
    ensures
        exists|a: int, b: int| 0 <= a <= b <= s.len() && #[trigger] strip_both(s, p) == s.subrange(a, b),
        strip_both(s, p).len() > 0 ==> !strip_hit(p, strip_both(s, p)[0]) && !strip_hit(p, strip_both(s, p).last()),
{
    let (a, b) = lemma_strip_bounds(s, p);
    assert(strip_both(s, p) == s.subrange(a, b));
}

proof fn lemma_strip_bounds(s: Seq<char>, p: StripSet) -> (r: (int, int))
    ensures
        0 <= r.0 <= r.1 <= s.len(),
        strip_both(s, p) == s.subrange(r.0, r.1),
        strip_both(s, p).len() > 0 ==> !strip_hit(p, strip_both(s, p)[0]) && !strip_hit(p, strip_both(s, p).last()),
{
    let a = lemma_strip_start_at(s, p);
    let t = strip_start(s, p);
    let b = lemma_strip_end_at(t, p);
    assert(strip_both(s, p) =~= s.subrange(a, a + b));
    if strip_both(s, p).len() > 0 {
        lemma_strip_end_keeps_first(t, p);
    }
    (a, a + b)
}

proof fn lemma_strip_start_at(s: Seq<char>, p: StripSet) -> (a: int)
    ensures
        0 <= a <= s.len(),
        strip_start(s, p) == s.subrange(a, s.len() as int),
        strip_start(s, p).len() > 0 ==> !strip_hit(p, strip_start(s, p)[0]),
    decreases s.len(),
{
    if s.len() > 0 && strip_hit(p, s[0]) {
        let a = lemma_strip_start_at(s.drop_first(), p);
        assert(s.drop_first().subrange(a, s.drop_first().len() as int) =~= s.subrange(a + 1, s.len() as int));
        a + 1
    } else {
        assert(s.subrange(0, s.len() as int) =~= s);
        0
    }
}

proof fn lemma_strip_end_at(s: Seq<char>, p: StripSet) -> (b: int)
    ensures
        0 <= b <= s.len(),
        strip_end(s, p) == s.subrange(0, b),
        strip_end(s, p).len() > 0 ==> !strip_hit(p, strip_end(s, p).last()),
    decreases s.len(),
{
    if s.len() > 0 && strip_hit(p, s.last()) {
        let b = lemma_strip_end_at(s.drop_last(), p);
        assert(s.drop_last().subrange(0, b) =~= s.subrange(0, b));
        b
    } else {
        assert(s.subrange(0, s.len() as int) =~= s);
        s.len() as int
    }
}

proof fn lemma_strip_end_keeps_first(s: Seq<char>, p: StripSet)
    requires
        s.len() > 0 ==> !strip_hit(p, s[0]),
        strip_end(s, p).len() > 0,
    ensures
        !strip_hit(p, strip_end(s, p)[0]),
    decreases s.len(),
{
    if s.len() > 0 && strip_hit(p, s.last()) {
        if s.drop_last().len() > 0 {
            assert(s.drop_last()[0] == s[0]);
        }
        lemma_strip_end_keeps_first(s.drop_last(), p);
    }
}

/// `str::trim`.
pub open spec fn trim(s: Seq<char>) -> Seq<char> {
    strip_both(s, StripSet::Whitespace)
}

/// Trimming twice is trimming once.
pub proof fn lemma_trim_idempotent(s: Seq<char>)
    ensures
        trim(trim(s)) == trim(s),
{
    let t = trim(s);
    lemma_strip_both_subrange(s, StripSet::Whitespace);
    if t.len() > 0 {
        assert(strip_start(t, StripSet::Whitespace) == t);
        assert(strip_end(t, StripSet::Whitespace) == t);
    } else {
        assert(strip_start(t, StripSet::Whitespace) == t);
    }
}

/// `str::trim_end`.
pub open spec fn trim_end(s: Seq<char>) -> Seq<char> {
    strip_end(s, StripSet::Whitespace)
}

/// `str::trim_matches(c)` for one character `c`.
pub open spec fn trim_matches(s: Seq<char>, c: char) -> Seq<char> {
    strip_both(s, StripSet::Exactly(c))
}

/// `s.trim().trim_matches('/')`: the normal form that paths and ids get.
pub open spec fn trim_slashes(s: Seq<char>) -> Seq<char> {
    trim_matches(trim(s), '/')
}

/// Copies `v[a..b]`.
pub fn sub_vec(v: &[char], a: usize, b: usize) -> (r: Vec<char>)
    requires
        a <= b <= v.len(),
    ensures
        r@ == v@.subrange(a as int, b as int),
{
    let mut r: Vec<char> = Vec::new();
    let mut i = a;
    while i < b
        invariant
            a <= i <= b <= v.len(),
            r@ == v@.subrange(a as int, i as int),
        decreases b - i,
    {
        r.push(v[i]);
        i = i + 1;
        assert(r@ =~= v@.subrange(a as int, i as int));
    }
    r
}

/// Copies `v`.
pub fn copy_vec(v: &[char]) -> (r: Vec<char>)
    ensures
        r@ == v@,
{
    let r = sub_vec(v, 0, v.len());
    assert(r@ =~= v@);
    r
}

/// Index of the first character that `p` does not strip.
pub fn strip_start_index(v: &[char], p: StripSet) -> (a: usize)
    ensures
        a <= v.len(),
        strip_start(v@, p) == v@.subrange(a as int, v.len() as int),
{
    let n = v.len();
    let mut i: usize = 0;
    assert(v@.subrange(0, n as int) =~= v@);
    while i < n && strip_hit_exec(p, v[i])
        invariant
            n == v.len(),
            i <= n,
            strip_start(v@, p) == strip_start(v@.subrange(i as int, n as int), p),
        decreases n - i,
    {
        assert(v@.subrange(i as int, n as int).drop_first() =~= v@.subrange(i + 1, n as int));
        i = i + 1;
    }
    i
}

/// End index of `v[a..]` once `p` has stripped its tail.
pub fn strip_end_index(v: &[char], a: usize, p: StripSet) -> (b: usize)
    requires
        a <= v.len(),
    ensures
        a <= b <= v.len(),
        strip_end(v@.subrange(a as int, v.len() as int), p) == v@.subrange(a as int, b as int),
{
    let n = v.len();
    let mut j: usize = n;
    while j > a && strip_hit_exec(p, v[j - 1])
        invariant
            n == v.len(),
            a <= j <= n,
            strip_end(v@.subrange(a as int, n as int), p) == strip_end(
                v@.subrange(a as int, j as int),
                p,
            ),
        decreases j - a,
    {
        assert(v@.subrange(a as int, j as int).drop_last() =~= v@.subrange(a as int, j - 1));
        j = j - 1;
    }
    j
}

/// Bounds of `v` once `p` has stripped both ends.
pub fn strip_bounds(v: &[char], p: StripSet) -> (r: (usize, usize))
    ensures
        r.0 <= r.1 <= v.len(),
        strip_both(v@, p) == v@.subrange(r.0 as int, r.1 as int),
{
    let a = strip_start_index(v, p);
    let b = strip_end_index(v, a, p);
    (a, b)
}

pub fn strip_vec(v: &[char], p: StripSet) -> (r: Vec<char>)
    ensures
        r@ == strip_both(v@, p),
{
    let (a, b) = strip_bounds(v, p);
    sub_vec(v, a, b)
}

pub fn trim_vec(v: &[char]) -> (r: Vec<char>)
    ensures
        r@ == trim(v@),
{
    strip_vec(v, StripSet::Whitespace)
}

pub fn trim_end_vec(v: &[char]) -> (r: Vec<char>)
    ensures
        r@ == trim_end(v@),
{
    let b = strip_end_index(v, 0, StripSet::Whitespace);
    assert(v@.subrange(0, v.len() as int) =~= v@);
    sub_vec(v, 0, b)
}

pub fn trim_matches_vec(v: &[char], c: char) -> (r: Vec<char>)
    ensures
        r@ == trim_matches(v@, c),
{
    strip_vec(v, StripSet::Exactly(c))
}

pub fn trim_slashes_vec(v: &[char]) -> (r: Vec<char>)
    ensures
        r@ == trim_slashes(v@),
{
    let t = trim_vec(v);
    trim_matches_vec(&t, '/')
}

pub open spec fn starts_with(s: Seq<char>, p: Seq<char>) -> bool {
    p.len() <= s.len() && s.subrange(0, p.len() as int) == p
}

pub open spec fn ends_with(s: Seq<char>, p: Seq<char>) -> bool {
    p.len() <= s.len() && s.subrange(s.len() - p.len(), s.len() as int) == p
}

/// Whether `needle` occurs in `hay` starting at `i`.
pub open spec fn occurs_at(hay: Seq<char>, needle: Seq<char>, i: int) -> bool {
    0 <= i && i + needle.len() <= hay.len() && hay.subrange(i, i + needle.len()) == needle
}

/// `str::contains` for a string pattern.
pub open spec fn contains(hay: Seq<char>, needle: Seq<char>) -> bool {
    exists|i: int| occurs_at(hay, needle, i)
}

pub fn matches_at(hay: &[char], needle: &[char], i: usize) -> (b: bool)
    ensures
        b == occurs_at(hay@, needle@, i as int),
{
    if i > hay.len() || needle.len() > hay.len() - i {
        return false;
    }
    let mut k: usize = 0;
    while k < needle.len()
        invariant
            i + needle.len() <= hay.len(),
            k <= needle.len(),
            forall|m: int| 0 <= m < k ==> hay@[i + m] == needle@[m],
        decreases needle.len() - k,
    {
        if hay[i + k] != needle[k] {
            assert(hay@.subrange(i as int, i + needle.len())[k as int] != needle@[k as int]);
            return false;
        }
        k = k + 1;
    }
    assert(hay@.subrange(i as int, i + needle.len()) =~= needle@);
    true
}

pub fn starts_with_vec(s: &[char], p: &[char]) -> (b: bool)
    ensures
        b == starts_with(s@, p@),
{
    matches_at(s, p, 0)
}

pub fn ends_with_vec(s: &[char], p: &[char]) -> (b: bool)
    ensures
        b == ends_with(s@, p@),
{
    if p.len() > s.len() {
        return false;
    }
    matches_at(s, p, s.len() - p.len())
}

pub fn contains_vec(hay: &[char], needle: &[char]) -> (b: bool)
    ensures
        b == contains(hay@, needle@),
{
    if needle.len() > hay.len() {
        return false;
    }
    let last = hay.len() - needle.len();
    let mut i: usize = 0;
    loop
        invariant
            last + needle.len() == hay.len(),
            i <= last,
            forall|j: int| 0 <= j < i ==> !occurs_at(hay@, needle@, j),
        ensures
            forall|j: int| 0 <= j <= last ==> !occurs_at(hay@, needle@, j),
        decreases last - i,
    {
        if matches_at(hay, needle, i) {
            return true;
        }
        if i == last {
            break;
        }
        i = i + 1;
    }
    assert forall|j: int| !occurs_at(hay@, needle@, j) by {
        if 0 <= j <= last {
        }
    }
    false
}

pub open spec fn lower_seq(s: Seq<char>) -> Seq<char> {
    s.map_values(|c: char| ascii_lower(c))
}

pub fn to_ascii_lowercase_vec(v: &[char]) -> (r: Vec<char>)
    ensures
        r@ == lower_seq(v@),
{
    let mut r: Vec<char> = Vec::new();
    let mut i: usize = 0;
    while i < v.len()
        invariant
            i <= v.len(),
            r@ == lower_seq(v@.subrange(0, i as int)),
        decreases v.len() - i,
    {
        r.push(char_to_ascii_lower(v[i]));
        i = i + 1;
        assert(r@ =~= lower_seq(v@.subrange(0, i as int)));
    }
    assert(v@.subrange(0, v.len() as int) =~= v@);
    r
}

/// Index of the first occurrence of `c`, if any.
pub open spec fn first_index_of(s: Seq<char>, c: char, i: int) -> bool {
    0 <= i < s.len() && s[i] == c && forall|j: int| 0 <= j < i ==> s[j] != c
}

pub fn find_char(v: &[char], c: char) -> (r: Option<usize>)
    ensures
        match r {
            Some(i) => first_index_of(v@, c, i as int),
            None => forall|j: int| 0 <= j < v.len() ==> v@[j] != c,
        },
{
    let mut i: usize = 0;
    while i < v.len()
        invariant
            i <= v.len(),
            forall|j: int| 0 <= j < i ==> v@[j] != c,
        decreases v.len() - i,
    {
        if v[i] == c {
            return Some(i);
        }
        i = i + 1;
    }
    None
}

/// Whether `c` occurs in `s`.
pub open spec fn has_char(s: Seq<char>, c: char) -> bool {
    exists|i: int| first_index_of(s, c, i)
}

/// Position of the first `c` in `s` (meaningful when `has_char(s, c)`).
pub open spec fn first_pos(s: Seq<char>, c: char) -> int {
    choose|i: int| first_index_of(s, c, i)
}

/// The part of `s` before its first `c`, as `split_once(c)` gives it.
pub open spec fn before_first(s: Seq<char>, c: char) -> Seq<char> {
    s.take(first_pos(s, c))
}

/// The part of `s` after its first `c`, as `split_once(c)` gives it.
pub open spec fn after_first(s: Seq<char>, c: char) -> Seq<char> {
    s.skip(first_pos(s, c) + 1)
}

/// The first occurrence is unique: any first index is `first_pos`.
pub proof fn lemma_first_pos(s: Seq<char>, c: char, i: int)
    requires
        first_index_of(s, c, i),
    ensures
        has_char(s, c),
        first_pos(s, c) == i,
{
    let k = first_pos(s, c);
    assert(first_index_of(s, c, k));
    if k < i {
        assert(s[k] == c);
    } else if k > i {
        assert(s[i] == c);
    }
}

/// `str::split_once(c)`: the parts before and after the first `c`.
pub fn split_once_vec(v: &[char], c: char) -> (r: Option<(Vec<char>, Vec<char>)>)
    ensures
        match r {
            Some((a, b)) => has_char(v@, c) && a@ == before_first(v@, c) && b@ == after_first(
                v@,
                c,
            ),
            None => !has_char(v@, c),
        },
{
    match find_char(v, c) {
        Some(i) => {
            proof {
                lemma_first_pos(v@, c, i as int);
            }
            assert(i < v.len());
            let a = sub_vec(v, 0, i);
            let b = sub_vec(v, i + 1, v.len());
            assert(a@ =~= v@.take(i as int));
            assert(b@ =~= v@.skip(i + 1));
            Some((a, b))
        },
        None => {
            assert forall|i: int| !first_index_of(v@, c, i) by {
                if 0 <= i < v@.len() {
                    assert(v@[i] != c);
                }
            }
            None
        },
    }
}

/// The pieces of a split rejoin to the whole text.
pub proof fn lemma_split_rejoins(s: Seq<char>, c: char)
    requires
        has_char(s, c),
    ensures
        s == before_first(s, c) + seq![c] + after_first(s, c),
        !before_first(s, c).contains(c),
{
    let k = first_pos(s, c);
    assert(first_index_of(s, c, k));
    assert(s =~= s.take(k) + seq![c] + s.skip(k + 1));
    assert forall|j: int| 0 <= j < before_first(s, c).len() implies before_first(s, c)[j] != c by {
        assert(before_first(s, c)[j] == s[j]);
    }
}

pub fn vec_eq(a: &[char], b: &[char]) -> (r: bool)
    ensures
        r == (a@ == b@),
{
    if a.len() != b.len() {
        return false;
    }
    let r = matches_at(a, b, 0);
    assert(a@.subrange(0, b.len() as int) =~= a@);
    r
}

/// Concatenation of the parts with `sep` between neighbours, as `[..].join(sep)`.
pub open spec fn join(parts: Seq<Seq<char>>, sep: Seq<char>) -> Seq<char>
    decreases parts.len(),
{
    if parts.len() == 0 {
        Seq::empty()
    } else if parts.len() == 1 {
        parts[0]
    } else {
        join(parts.drop_last(), sep) + sep + parts.last()
    }
}

pub fn append_chars(out: &mut Vec<char>, src: &[char])
    ensures
        final(out)@ == old(out)@ + src@,
{
    let mut i: usize = 0;
    while i < src.len()
        invariant
            i <= src.len(),
            out@ == old(out)@ + src@.subrange(0, i as int),
        decreases src.len() - i,
    {
        out.push(src[i]);
        i = i + 1;
        assert(out@ =~= old(out)@ + src@.subrange(0, i as int));
    }
    assert(src@.subrange(0, src.len() as int) =~= src@);
}

pub fn join_vecs(parts: &Vec<Vec<char>>, sep: &[char]) -> (r: Vec<char>)
    ensures
        r@ == join(seqs_of(parts@), sep@),
{
    let mut r: Vec<char> = Vec::new();
    let mut i: usize = 0;
    while i < parts.len()
        invariant
            i <= parts.len(),
            r@ == join(seqs_of(parts@).subrange(0, i as int), sep@),
        decreases parts.len() - i,
    {
        let ghost prev = seqs_of(parts@).subrange(0, i as int);
        if i > 0 {
            append_chars(&mut r, sep);
        }
        append_chars(&mut r, &parts[i]);
        i = i + 1;
        assert(seqs_of(parts@).subrange(0, i as int).drop_last() =~= prev);
        if i == 1 {
            assert(r@ =~= join(seqs_of(parts@).subrange(0, i as int), sep@));
        }
    }
    assert(seqs_of(parts@).subrange(0, parts.len() as int) =~= seqs_of(parts@));
    r
}


/// Position of the last `c` in `s`, or -1.
pub open spec fn rposition(s: Seq<char>, c: char) -> int
    decreases s.len(),
{
    if s.len() == 0 {
        -1
    } else if s.last() == c {
        s.len() - 1
    } else {
        rposition(s.drop_last(), c)
    }
}

/// The last occurrence of a character is in bounds, holds that character,
/// and no later position holds it.
pub proof fn lemma_rposition_bounds(s: Seq<char>, c: char)
    ensures
        -1 <= rposition(s, c) < s.len(),
        rposition(s, c) >= 0 ==> s[rposition(s, c)] == c,
        forall|j: int| rposition(s, c) < j < s.len() ==> s[j] != c,
    decreases s.len(),
{
    if s.len() > 0 && s.last() != c {
        lemma_rposition_bounds(s.drop_last(), c);
        assert forall|j: int| rposition(s, c) < j < s.len() implies s[j] != c by {
            if j < s.len() - 1 {
                assert(s[j] == s.drop_last()[j]);
            }
        }
    }
}

pub fn rposition_exec(v: &[char], end: usize, c: char) -> (r: Option<usize>)
    requires
        end <= v.len(),
    ensures
        match r {
            Some(i) => i < end && rposition(v@.subrange(0, end as int), c) == i as int,
            None => rposition(v@.subrange(0, end as int), c) == -1,
        },
{
    let mut j: usize = end;
    while j > 0 && v[j - 1] != c
        invariant
            j <= end <= v.len(),
            rposition(v@.subrange(0, end as int), c) == rposition(v@.subrange(0, j as int), c),
        decreases j,
    {
        assert(v@.subrange(0, j as int).drop_last() =~= v@.subrange(0, j - 1));
        j = j - 1;
    }
    if j == 0 {
        None
    } else {
        Some(j - 1)
    }
}

/// `s.trim().is_empty()`.
pub open spec fn is_blank(s: Seq<char>) -> bool {
    trim(s).len() == 0
}

pub fn is_blank_vec(v: &[char]) -> (b: bool)
    ensures
        b == is_blank(v@),
{
    let (a, e) = strip_bounds(v, StripSet::Whitespace);
    a == e
}

/// `str::to_owned` seen through characters.
pub fn lit(s: &str) -> (r: Vec<char>)
    ensures
        r@ == s@,
{
    chars_of(s)
}

pub fn concat2(a: &[char], b: &[char]) -> (r: Vec<char>)
    ensures
        r@ == a@ + b@,
{
    let mut r: Vec<char> = Vec::new();
    append_chars(&mut r, a);
    append_chars(&mut r, b);
    assert(r@ =~= a@ + b@);
    r
}


/// The character sequences of a list of character vectors.
pub open spec fn seqs_of(list: Seq<Vec<char>>) -> Seq<Seq<char>> {
    list.map_values(|v: Vec<char>| v@)
}

/// The character sequences of a list of string slices.
pub open spec fn str_views(list: Seq<&str>) -> Seq<Seq<char>> {
    list.map_values(|x: &str| x@)
}

/// Appends `x` unless the list already holds it.
pub open spec fn push_unique(list: Seq<Seq<char>>, x: Seq<char>) -> Seq<Seq<char>> {
    if list.contains(x) {
        list
    } else {
        list.push(x)
    }
}

pub fn list_contains(list: &Vec<Vec<char>>, x: &[char]) -> (b: bool)
    ensures
        b == seqs_of(list@).contains(x@),
{
    let mut i: usize = 0;
    while i < list.len()
        invariant
            i <= list.len(),
            forall|j: int| 0 <= j < i ==> seqs_of(list@)[j] != x@,
        decreases list.len() - i,
    {
        if vec_eq(&list[i], x) {
            assert(seqs_of(list@)[i as int] == x@);
            return true;
        }
        i = i + 1;
    }
    false
}

pub fn push_unique_vec(list: &mut Vec<Vec<char>>, x: Vec<char>)
    ensures
        seqs_of(final(list)@) == push_unique(seqs_of(old(list)@), x@),
{
    if !list_contains(list, &x) {
        list.push(x);
        assert(seqs_of(list@) =~= seqs_of(old(list)@).push(x@));
    }
}

/// Converts character lists into strings.
pub fn strings_of(list: &Vec<Vec<char>>) -> (r: Vec<String>)
    ensures
        r.deep_view() == seqs_of(list@),
{
    let mut r: Vec<String> = Vec::new();
    let mut i: usize = 0;
    while i < list.len()
        invariant
            i <= list.len(),
            r@.len() == i,
            r.deep_view() == seqs_of(list@).subrange(0, i as int),
        decreases list.len() - i,
    {
        let s = string_of(&list[i]);
        let ghost prev = r@;
        let ghost prev_dv = r.deep_view();
        r.push(s);
        assert forall|j: int| 0 <= j < i + 1 implies r.deep_view()[j] == seqs_of(list@)[j] by {
            if j < i {
                assert(r@[j] == prev[j]);
                assert(prev_dv[j] == prev[j].deep_view());
                assert(prev_dv[j] == seqs_of(list@).subrange(0, i as int)[j]);
            } else {
                assert(r@[j] == s);
            }
        }
        i = i + 1;
        assert(r.deep_view() =~= seqs_of(list@).subrange(0, i as int));
    }
    assert(seqs_of(list@).subrange(0, list.len() as int) =~= seqs_of(list@));
    r
}


/// Appends a string to a list of strings.
pub fn push_string(list: &mut Vec<String>, s: String)
    ensures
        final(list).deep_view() == old(list).deep_view().push(s@),
{
    let ghost prev = list@;
    list.push(s);
    proof {
        assert forall|j: int| 0 <= j < list@.len() implies list.deep_view()[j] == old(
            list,
        ).deep_view().push(s@)[j] by {
            if j < prev.len() {
                assert(list@[j] == prev[j]);
            }
        }
        assert(list.deep_view() =~= old(list).deep_view().push(s@));
    }
}

/// A line without the carriage return that ends it.
pub open spec fn strip_cr(l: Seq<char>) -> Seq<char> {
    if l.len() > 0 && l.last() == '\r' {
        l.drop_last()
    } else {
        l
    }
}

/// `str::lines`: the text split at each `\n`, with a `\r` just before the
/// `\n` removed; a final line ending adds no empty line.
pub open spec fn lines_of(s: Seq<char>) -> Seq<Seq<char>>
    decreases s.len(),
{
    if s.len() == 0 {
        Seq::empty()
    } else if has_char(s, '\n') {
        seq![strip_cr(before_first(s, '\n'))] + lines_of(after_first(s, '\n'))
    } else {
        seq![s]
    }
}

fn strip_cr_vec(v: Vec<char>) -> (r: Vec<char>)
    ensures
        r@ == strip_cr(v@),
{
    let mut v = v;
    if v.len() > 0 && v[v.len() - 1] == '\r' {
        v.pop();
    }
    v
}

/// The lines of a text, as `str::lines` gives them.
pub fn lines_vec(v: &[char]) -> (r: Vec<Vec<char>>)
    ensures
        seqs_of(r@) == lines_of(v@),
{
    let mut out: Vec<Vec<char>> = Vec::new();
    let mut rest = copy_vec(v);
    loop
        invariant_except_break
            seqs_of(out@) + lines_of(rest@) == lines_of(v@),
        ensures
            seqs_of(out@) == lines_of(v@),
        decreases rest@.len(),
    {
        if rest.len() == 0 {
            assert(seqs_of(out@) + lines_of(rest@) =~= seqs_of(out@));
            break;
        }
        match split_once_vec(&rest, '\n') {
            Some((a, b)) => {
                let ghost old_out = seqs_of(out@);
                let ghost old_rest = rest@;
                proof {
                    lemma_first_pos(old_rest, '\n', first_pos(old_rest, '\n'));
                }
                let line = strip_cr_vec(a);
                out.push(line);
                assert(seqs_of(out@) =~= old_out.push(line@));
                rest = b;
                assert(lines_of(old_rest) == seq![line@] + lines_of(rest@));
                assert(seqs_of(out@) + lines_of(rest@) =~= old_out + lines_of(old_rest));
            },
            None => {
                let ghost old_out = seqs_of(out@);
                let ghost old_rest = rest@;
                out.push(rest);
                assert(seqs_of(out@) =~= old_out.push(old_rest));
                assert(seqs_of(out@) =~= old_out + lines_of(old_rest));
                break;
            },
        }
    }
    out
}

/// Whether the text holds one of the markers.
pub open spec fn contains_any(t: Seq<char>, markers: Seq<&str>) -> bool {
    exists|i: int| 0 <= i < markers.len() && contains(t, (#[trigger] markers[i])@)
}

/// Whether the text holds one of the markers.
pub fn contains_any_exec(t: &[char], markers: &[&str]) -> (r: bool)
    ensures
        r == contains_any(t@, markers@),
{
    let mut i: usize = 0;
    while i < markers.len()
        invariant
            i <= markers.len(),
            forall|j: int| 0 <= j < i ==> !contains(t@, (#[trigger] markers@[j])@),
        decreases markers.len() - i,
    {
        if contains_vec(t, &lit(markers[i])) {
            return true;
        }
        i = i + 1;
    }
    false
}

/// `str::split(c)`: the pieces between the occurrences of `c`, empty ones included.
pub open spec fn split_char(s: Seq<char>, c: char) -> Seq<Seq<char>>
    decreases s.len(),
{
    if has_char(s, c) {
        seq![before_first(s, c)] + split_char(after_first(s, c), c)
    } else {
        seq![s]
    }
}

/// The pieces of `s` between the occurrences of `c`.
pub fn split_char_vec(s: &[char], c: char) -> (r: Vec<Vec<char>>)
    ensures
        seqs_of(r@) == split_char(s@, c),
{
    let mut out: Vec<Vec<char>> = Vec::new();
    let mut rest = copy_vec(s);
    loop
        invariant_except_break
            seqs_of(out@) + split_char(rest@, c) == split_char(s@, c),
        ensures
            seqs_of(out@) == split_char(s@, c),
        decreases rest@.len(),
    {
        match split_once_vec(&rest, c) {
            Some((a, b)) => {
                let ghost before = seqs_of(out@);
                let ghost old_rest = rest@;
                proof {
                    lemma_first_pos(old_rest, c, first_pos(old_rest, c));
                }
                out.push(a);
                rest = b;
                assert(seqs_of(out@) =~= before.push(before_first(old_rest, c)));
                assert(seqs_of(out@) + split_char(rest@, c) =~= before + split_char(old_rest, c));
            },
            None => {
                let ghost before = seqs_of(out@);
                let ghost old_rest = rest@;
                out.push(rest);
                assert(seqs_of(out@) =~= before + split_char(old_rest, c));
                break;
            },
        }
    }
    out
}

/// The decimal digit of a value below ten.
pub open spec fn digit_char(d: nat) -> char {
    if d == 0 {
        '0'
    } else if d == 1 {
        '1'
    } else if d == 2 {
        '2'
    } else if d == 3 {
        '3'
    } else if d == 4 {
        '4'
    } else if d == 5 {
        '5'
    } else if d == 6 {
        '6'
    } else if d == 7 {
        '7'
    } else if d == 8 {
        '8'
    } else {
        '9'
    }
}

/// The decimal text of a number, as `{}` prints it.
pub open spec fn decimal(n: nat) -> Seq<char>
    decreases n,
{
    if n < 10 {
        seq![digit_char(n)]
    } else {
        decimal(n / 10).push(digit_char(n % 10))
    }
}

fn digit_char_exec(d: usize) -> (c: char)
    requires
        d < 10,
    ensures
        c == digit_char(d as nat),
{
    if d == 0 {
        '0'
    } else if d == 1 {
        '1'
    } else if d == 2 {
        '2'
    } else if d == 3 {
        '3'
    } else if d == 4 {
        '4'
    } else if d == 5 {
        '5'
    } else if d == 6 {
        '6'
    } else if d == 7 {
        '7'
    } else if d == 8 {
        '8'
    } else {
        '9'
    }
}

/// The decimal text of a number.
pub fn decimal_text(n: usize) -> (r: String)
    ensures
        r@ == decimal(n as nat),
    decreases n,
{
    if n < 10 {
        let mut r = String::new();
        r.push(digit_char_exec(n));
        assert(r@ =~= seq![digit_char(n as nat)]);
        r
    } else {
        let mut r = decimal_text(n / 10);
        r.push(digit_char_exec(n % 10));
        r
    }
}

} // verus!
