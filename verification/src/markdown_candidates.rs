//! Rust-owned Markdown candidate discovery for `WendaoGraph` `SearchStrategyFlow`
//! probes: intent terms, heading sections and their anchors.
use vstd::prelude::*;
use crate::ordered::{insert_sorted_unique, strictly_sorted};
use crate::text::{join, join_vecs, lines_of, lines_vec, sub_vec, trim, trim_end, trim_end_vec, trim_vec, ascii_lower, char_is_ascii_alnum, char_to_ascii_lower, chars_of, is_ascii_alnum, lemma_strip_both_subrange, lit, seqs_of, starts_with, string_of, strings_of, trim_matches, trim_matches_vec, vec_eq, StripSet};

verus! {

/// `split_terms`: the maximal runs of ASCII letters and digits, lowercased.
pub open spec fn ascii_terms(s: Seq<char>) -> Seq<Seq<char>>
    decreases s.len(),
{
    if s.len() == 0 {
        Seq::empty()
    } else {
        let prev = ascii_terms(s.drop_last());
        let c = s.last();
        if !is_ascii_alnum(c) {
            prev
        } else if s.len() >= 2 && is_ascii_alnum(s[s.len() - 2]) {
            prev.update(prev.len() - 1, prev.last().push(ascii_lower(c)))
        } else {
            prev.push(seq![ascii_lower(c)])
        }
    }
}

proof fn lemma_ascii_terms_nonempty(s: Seq<char>)
    ensures
        s.len() > 0 && is_ascii_alnum(s.last()) ==> ascii_terms(s).len() > 0,
    decreases s.len(),
{
    if s.len() > 0 {
        lemma_ascii_terms_nonempty(s.drop_last());
    }
}

/// Splits a text into lowercased ASCII alphanumeric terms.
pub fn split_terms(text: &str) -> (r: Vec<Vec<char>>)
    ensures
        seqs_of(r@) == ascii_terms(text@),
{
    let v = chars_of(text);
    let mut out: Vec<Vec<char>> = Vec::new();
    let mut i: usize = 0;
    while i < v.len()
        invariant
            i <= v.len(),
            v@ == text@,
            seqs_of(out@) == ascii_terms(v@.take(i as int)),
        decreases v.len() - i,
    {
        let c = v[i];
        let ghost prev = v@.take(i as int);
        assert(v@.take(i + 1).drop_last() =~= prev);
        assert(v@.take(i + 1).last() == c);
        if char_is_ascii_alnum(c) {
            let lc = char_to_ascii_lower(c);
            if i > 0 && char_is_ascii_alnum(v[i - 1]) {
                proof {
                    assert(prev.last() == v@[i - 1]);
                    lemma_ascii_terms_nonempty(prev);
                }
                let ghost before = seqs_of(out@);
                let mut last = out.pop().unwrap();
                last.push(lc);
                out.push(last);
                assert(seqs_of(out@) =~= before.update(before.len() - 1, before.last().push(lc)));
            } else {
                let ghost before = seqs_of(out@);
                let mut w: Vec<char> = Vec::new();
                w.push(lc);
                out.push(w);
                assert(seqs_of(out@) =~= before.push(seq![lc]));
            }
        }
        i = i + 1;
    }
    assert(v@.take(v.len() as int) =~= v@);
    out
}

/// The words that carry no meaning for discovery.
pub open spec fn is_stop_word(t: Seq<char>) -> bool {
    t == "a"@ || t == "an"@ || t == "and"@ || t == "are"@ || t == "as"@ || t == "for"@ || t == "from"@
        || t == "how"@ || t == "in"@ || t == "is"@ || t == "it"@ || t == "of"@ || t == "on"@ || t
        == "or"@ || t == "the"@ || t == "to"@ || t == "with"@
}

fn is_stop_word_vec(t: &[char]) -> (b: bool)
    ensures
        b == is_stop_word(t@),
{
    vec_eq(t, &lit("a")) || vec_eq(t, &lit("an")) || vec_eq(t, &lit("and")) || vec_eq(t, &lit("are"))
        || vec_eq(t, &lit("as")) || vec_eq(t, &lit("for")) || vec_eq(t, &lit("from")) || vec_eq(
        t,
        &lit("how"),
    ) || vec_eq(t, &lit("in")) || vec_eq(t, &lit("is")) || vec_eq(t, &lit("it")) || vec_eq(
        t,
        &lit("of"),
    ) || vec_eq(t, &lit("on")) || vec_eq(t, &lit("or")) || vec_eq(t, &lit("the")) || vec_eq(
        t,
        &lit("to"),
    ) || vec_eq(t, &lit("with"))
}

/// A term of an intent that discovery matches: two characters or more, and
/// no stop word.
pub open spec fn is_intent_term(t: Seq<char>) -> bool {
    t.len() >= 2 && !is_stop_word(t)
}

/// The distinct intent terms of a text, in sorted order.
pub fn intent_terms(intent: &str) -> (r: Vec<String>)
    ensures
        strictly_sorted(r.deep_view()),
        forall|t: Seq<char>| #[trigger] r.deep_view().contains(t) <==> (ascii_terms(intent@).contains(t) && is_intent_term(t)),
{
    let terms = split_terms(intent);
    let mut kept: Vec<Vec<char>> = Vec::new();
    let mut i: usize = 0;
    while i < terms.len()
        invariant
            i <= terms.len(),
            seqs_of(terms@) == ascii_terms(intent@),
            strictly_sorted(seqs_of(kept@)),
            forall|t: Seq<char>| #[trigger] seqs_of(kept@).contains(t) <==> (seqs_of(terms@).take(i as int).contains(t) && is_intent_term(t)),
        decreases terms.len() - i,
    {
        let ghost before = seqs_of(kept@);
        let ghost seen = seqs_of(terms@).take(i as int);
        assert(seqs_of(terms@).take(i + 1) =~= seen.push(terms@[i as int]@));
        let term = crate::text::copy_vec(&terms[i]);
        if term.len() >= 2 && !is_stop_word_vec(&term) {
            insert_sorted_unique(&mut kept, term);
        }
        proof {
            assert forall|t: Seq<char>| #[trigger] seqs_of(kept@).contains(t) <==> (seqs_of(terms@).take(i + 1).contains(t) && is_intent_term(t)) by {
                if seen.push(terms@[i as int]@).contains(t) && !seen.contains(t) {
                    let k = choose|k: int| 0 <= k < seen.len() + 1 && seen.push(terms@[i as int]@)[k] == t;
                    assert(k == seen.len());
                }
                if seen.contains(t) {
                    let k = choose|k: int| 0 <= k < seen.len() && seen[k] == t;
                    assert(seen.push(terms@[i as int]@)[k] == t);
                }
                if t == terms@[i as int]@ {
                    assert(seen.push(terms@[i as int]@)[seen.len() as int] == t);
                }
            }
        }
        i = i + 1;
    }
    assert(seqs_of(terms@).take(terms.len() as int) =~= seqs_of(terms@));
    let r = strings_of(&kept);
    r
}

/// Builds the raw anchor of a title: backticks dropped, ASCII letters and
/// digits lowercased, every other run of characters turned into one `-`.
/// The flag says whether the text built so far ends in a `-` of its own making.
pub open spec fn anchor_fold(s: Seq<char>) -> (Seq<char>, bool)
    decreases s.len(),
{
    if s.len() == 0 {
        (Seq::empty(), false)
    } else {
        let (out, dash) = anchor_fold(s.drop_last());
        let c = s.last();
        if c == '`' {
            (out, dash)
        } else if is_ascii_alnum(c) {
            (out.push(ascii_lower(c)), false)
        } else if !dash {
            (out.push('-'), true)
        } else {
            (out, dash)
        }
    }
}

/// The anchor of a Markdown heading title: the raw anchor without leading
/// and trailing `-`, or `section` when nothing is left.
pub open spec fn markdown_anchor_spec(title: Seq<char>) -> Seq<char> {
    let t = trim_matches(anchor_fold(title).0, '-');
    if t.len() == 0 {
        "section"@
    } else {
        t
    }
}

/// Turns a heading title into a GitHub-style anchor.
pub fn markdown_anchor(title: &str) -> (r: String)
    ensures
        r@ == markdown_anchor_spec(title@),
{
    let v = chars_of(title);
    let mut anchor: Vec<char> = Vec::new();
    let mut last_was_dash = false;
    let mut i: usize = 0;
    while i < v.len()
        invariant
            i <= v.len(),
            v@ == title@,
            anchor_fold(v@.take(i as int)) == (anchor@, last_was_dash),
        decreases v.len() - i,
    {
        let c = v[i];
        assert(v@.take(i + 1).drop_last() =~= v@.take(i as int));
        assert(v@.take(i + 1).last() == c);
        if c != '`' {
            let lowercase = char_to_ascii_lower(c);
            if char_is_ascii_alnum(lowercase) {
                anchor.push(lowercase);
                last_was_dash = false;
            } else if !last_was_dash {
                anchor.push('-');
                last_was_dash = true;
            }
        }
        i = i + 1;
    }
    assert(v@.take(v.len() as int) =~= v@);
    let trimmed = trim_matches_vec(&anchor, '-');
    if trimmed.len() == 0 {
        "section".to_owned()
    } else {
        string_of(&trimmed)
    }
}

/// The characters an anchor is made of.
pub open spec fn is_anchor_char(c: char) -> bool {
    ('a' <= c && c <= 'z') || ('0' <= c && c <= '9') || c == '-'
}

/// A well-formed anchor: not empty, made of lowercase ASCII letters, digits
/// and `-`, with no `-` at either end and no two `-` in a row.
pub open spec fn well_formed_anchor(a: Seq<char>) -> bool {
    &&& a.len() > 0
    &&& forall|i: int| 0 <= i < a.len() ==> is_anchor_char(#[trigger] a[i])
    &&& a[0] != '-'
    &&& a.last() != '-'
    &&& forall|i: int| 0 <= i < a.len() - 1 ==> !(#[trigger] a[i] == '-' && a[i + 1] == '-')
}

proof fn lemma_anchor_fold_shape(s: Seq<char>)
    ensures
        forall|i: int| 0 <= i < anchor_fold(s).0.len() ==> is_anchor_char(#[trigger] anchor_fold(s).0[i]),
        forall|i: int| 0 <= i < anchor_fold(s).0.len() - 1 ==> !(#[trigger] anchor_fold(s).0[i] == '-' && anchor_fold(s).0[i + 1] == '-'),
        anchor_fold(s).1 <==> (anchor_fold(s).0.len() > 0 && anchor_fold(s).0.last() == '-'),
    decreases s.len(),
{
    if s.len() > 0 {
        lemma_anchor_fold_shape(s.drop_last());
        let (out, dash) = anchor_fold(s.drop_last());
        let c = s.last();
        if c != '`' && is_ascii_alnum(c) {
            let n = out.push(ascii_lower(c));
            assert forall|i: int| 0 <= i < n.len() implies is_anchor_char(#[trigger] n[i]) by {
                if i < out.len() {
                    assert(n[i] == out[i]);
                }
            }
            assert forall|i: int| 0 <= i < n.len() - 1 implies !(#[trigger] n[i] == '-' && n[i + 1] == '-') by {
                if i < out.len() - 1 {
                    assert(n[i] == out[i] && n[i + 1] == out[i + 1]);
                }
            }
        } else if c != '`' && !dash {
            let n = out.push('-');
            assert forall|i: int| 0 <= i < n.len() implies is_anchor_char(#[trigger] n[i]) by {
                if i < out.len() {
                    assert(n[i] == out[i]);
                }
            }
            assert forall|i: int| 0 <= i < n.len() - 1 implies !(#[trigger] n[i] == '-' && n[i + 1] == '-') by {
                if i < out.len() - 1 {
                    assert(n[i] == out[i] && n[i + 1] == out[i + 1]);
                } else {
                    assert(n[i] == out.last());
                }
            }
        }
    }
}

/// Every heading anchor is well formed, whatever the title.
pub proof fn lemma_markdown_anchor_well_formed(title: Seq<char>)
    ensures
        well_formed_anchor(markdown_anchor_spec(title)),
{
    let raw = anchor_fold(title).0;
    lemma_anchor_fold_shape(title);
    lemma_strip_both_subrange(raw, StripSet::Exactly('-'));
    let t = trim_matches(raw, '-');
    if t.len() == 0 {
        reveal_strlit("section");
    } else {
        let (a, b) = choose|a: int, b: int| 0 <= a <= b <= raw.len() && #[trigger] crate::text::strip_both(raw, StripSet::Exactly('-')) == raw.subrange(a, b);
        assert forall|i: int| 0 <= i < t.len() implies is_anchor_char(#[trigger] t[i]) by {
            assert(t[i] == raw[a + i]);
        }
        assert forall|i: int| 0 <= i < t.len() - 1 implies !(#[trigger] t[i] == '-' && t[i + 1] == '-') by {
            assert(t[i] == raw[a + i] && t[i + 1] == raw[a + i + 1]);
        }
    }
}

/// The number of `#` that a text starts with.
pub open spec fn leading_hashes(s: Seq<char>) -> nat
    decreases s.len(),
{
    if s.len() > 0 && s[0] == '#' {
        1 + leading_hashes(s.drop_first())
    } else {
        0
    }
}

/// An ATX heading line: one to six `#`, a space, and a title that is not
/// blank; the level and the trimmed title.
pub open spec fn heading_of(line: Seq<char>) -> Option<(nat, Seq<char>)> {
    let t = trim_end(line);
    let n = leading_hashes(t);
    if !(1 <= n && n <= 6) {
        None
    } else if !(t.skip(n as int).len() > 0 && t.skip(n as int)[0] == ' ') {
        None
    } else if trim(t.skip(n as int)).len() == 0 {
        None
    } else {
        Some((n, trim(t.skip(n as int))))
    }
}

proof fn lemma_leading_hashes_bound(s: Seq<char>)
    ensures
        leading_hashes(s) <= s.len(),
        forall|i: int| 0 <= i < leading_hashes(s) ==> s[i] == '#',
        leading_hashes(s) < s.len() ==> s[leading_hashes(s) as int] != '#',
    decreases s.len(),
{
    if s.len() > 0 && s[0] == '#' {
        lemma_leading_hashes_bound(s.drop_first());
        assert forall|i: int| 0 <= i < leading_hashes(s) implies s[i] == '#' by {
            if i > 0 {
                assert(s[i] == s.drop_first()[i - 1]);
            }
        }
    }
}

/// Reads a Markdown ATX heading line: its level and its title.
pub fn parse_heading_line(line: &[char]) -> (r: Option<(usize, Vec<char>)>)
    ensures
        match (r, heading_of(line@)) {
            (Some((n, t)), Some((m, u))) => n == m && t@ == u,
            (None, None) => true,
            _ => false,
        },
{
    let trimmed = trim_end_vec(line);
    let mut n: usize = 0;
    assert(trimmed@.skip(0) =~= trimmed@);
    while n < trimmed.len() && trimmed[n] == '#'
        invariant
            n <= trimmed.len(),
            leading_hashes(trimmed@) == n + leading_hashes(trimmed@.skip(n as int)),
        decreases trimmed.len() - n,
    {
        assert(trimmed@.skip(n as int).drop_first() =~= trimmed@.skip(n + 1));
        n = n + 1;
    }
    assert(leading_hashes(trimmed@) == n) by {
        assert(trimmed@.skip(0) =~= trimmed@);
    }
    if !(1 <= n && n <= 6) {
        return None;
    }
    let after = sub_vec(&trimmed, n, trimmed.len());
    assert(after@ =~= trimmed@.skip(n as int));
    if !(after.len() > 0 && after[0] == ' ') {
        return None;
    }
    let title = trim_vec(&after);
    if title.len() == 0 {
        return None;
    }
    Some((n, title))
}

/// The headings of a list of lines: line index, level and title.
pub open spec fn heading_positions(lines: Seq<Seq<char>>) -> Seq<(int, nat, Seq<char>)>
    decreases lines.len(),
{
    if lines.len() == 0 {
        Seq::empty()
    } else {
        let prev = heading_positions(lines.drop_last());
        match heading_of(lines.last()) {
            Some((n, t)) => prev.push((lines.len() - 1, n, t)),
            None => prev,
        }
    }
}

/// The line where the section of heading `k` ends: the line of the first later
/// heading of the same or a higher level, or the end of the text.
pub open spec fn section_end(pos: Seq<(int, nat, Seq<char>)>, k: int, j: int, line_count: int) -> int
    decreases pos.len() - j,
{
    if j >= pos.len() || j < 0 {
        line_count
    } else if pos[j].1 <= pos[k].1 {
        pos[j].0
    } else {
        section_end(pos, k, j + 1, line_count)
    }
}

/// Heading `k` is the first with its anchor.
pub open spec fn first_with_anchor(pos: Seq<(int, nat, Seq<char>)>, k: int) -> bool {
    forall|i: int| 0 <= i < k ==> markdown_anchor_spec(#[trigger] pos[i].2) != markdown_anchor_spec(pos[k].2)
}

/// The section of heading `k`: level, title, anchor, first line (counted from
/// one), end line, and its lines joined by `\n`.
pub open spec fn section_at(lines: Seq<Seq<char>>, pos: Seq<(int, nat, Seq<char>)>, k: int) -> (nat, Seq<char>, Seq<char>, int, int, Seq<char>) {
    let end = section_end(pos, k, k + 1, lines.len() as int);
    (pos[k].1, pos[k].2, markdown_anchor_spec(pos[k].2), pos[k].0 + 1, end, join(lines.subrange(pos[k].0, end), "\n"@))
}

/// The sections of the first `k` headings that are first with their anchor.
pub open spec fn sections_upto(lines: Seq<Seq<char>>, pos: Seq<(int, nat, Seq<char>)>, k: int) -> Seq<(nat, Seq<char>, Seq<char>, int, int, Seq<char>)>
    decreases k,
{
    if k <= 0 {
        Seq::empty()
    } else if first_with_anchor(pos, k - 1) {
        sections_upto(lines, pos, k - 1).push(section_at(lines, pos, k - 1))
    } else {
        sections_upto(lines, pos, k - 1)
    }
}

/// The heading sections of a Markdown text, one for each distinct anchor.
pub open spec fn heading_sections_spec(text: Seq<char>) -> Seq<(nat, Seq<char>, Seq<char>, int, int, Seq<char>)> {
    let lines = lines_of(text);
    let pos = heading_positions(lines);
    sections_upto(lines, pos, pos.len() as int)
}

/// One heading section of a Markdown file.
#[derive(Clone, Debug, PartialEq, Eq)]
pub struct HeadingSection {
    /// Heading level, one to six.
    pub level: usize,
    /// Heading title.
    pub title: String,
    /// Anchor of the title.
    pub heading_anchor: String,
    /// First line of the section, counted from one.
    pub line_start: usize,
    /// Line where the section ends (the next heading's index, or the line count).
    pub line_end: usize,
    /// The section's lines joined by `\n`.
    pub text: String,
}

/// A heading section has the given fields.
pub open spec fn section_is(s: HeadingSection, v: (nat, Seq<char>, Seq<char>, int, int, Seq<char>)) -> bool {
    &&& s.level == v.0
    &&& s.title@ == v.1
    &&& s.heading_anchor@ == v.2
    &&& s.line_start == v.3
    &&& s.line_end == v.4
    &&& s.text@ == v.5
}

proof fn lemma_heading_positions_shape(lines: Seq<Seq<char>>)
    ensures
        forall|k: int| 0 <= k < heading_positions(lines).len() ==> 0 <= #[trigger] heading_positions(lines)[k].0 < lines.len()
            && heading_of(lines[heading_positions(lines)[k].0]) == Some((heading_positions(lines)[k].1, heading_positions(lines)[k].2)),
        forall|k: int, j: int| 0 <= k < j < heading_positions(lines).len() ==> #[trigger] heading_positions(lines)[k].0 < #[trigger] heading_positions(lines)[j].0,
        heading_positions(lines).len() <= lines.len(),
    decreases lines.len(),
{
    if lines.len() > 0 {
        let init = lines.drop_last();
        lemma_heading_positions_shape(init);
        let prev = heading_positions(init);
        let cur = heading_positions(lines);
        assert forall|k: int| 0 <= k < cur.len() implies 0 <= #[trigger] cur[k].0 < lines.len()
            && heading_of(lines[cur[k].0]) == Some((cur[k].1, cur[k].2)) by {
            if k < prev.len() {
                assert(cur[k] == prev[k]);
                assert(lines[cur[k].0] == init[cur[k].0]);
            }
        }
        assert forall|k: int, j: int| 0 <= k < j < cur.len() implies #[trigger] cur[k].0 < #[trigger] cur[j].0 by {
            if j < prev.len() {
                assert(cur[k] == prev[k] && cur[j] == prev[j]);
            } else {
                assert(cur[k] == prev[k]);
            }
        }
    }
}

/// Splits a Markdown text into heading sections; a heading whose anchor an
/// earlier heading already has opens no section.
pub fn heading_sections(text: &str) -> (r: Vec<HeadingSection>)
    ensures
        r@.len() == heading_sections_spec(text@).len(),
        forall|i: int| 0 <= i < r@.len() ==> section_is(#[trigger] r@[i], heading_sections_spec(text@)[i]),
{
    let cs = chars_of(text);
    let lines = lines_vec(&cs);
    let ghost lv = seqs_of(lines@);
    assert(lv == lines_of(text@));
    // Headings: line index, level, title.
    let mut positions: Vec<(usize, usize, Vec<char>)> = Vec::new();
    let mut li: usize = 0;
    while li < lines.len()
        invariant
            li <= lines.len(),
            lv == seqs_of(lines@),
            positions@.len() == heading_positions(lv.take(li as int)).len(),
            forall|k: int| 0 <= k < positions@.len() ==> {
                let p = #[trigger] positions@[k];
                let q = heading_positions(lv.take(li as int))[k];
                p.0 == q.0 && p.1 == q.1 && p.2@ == q.2
            },
        decreases lines.len() - li,
    {
        let ghost prev = lv.take(li as int);
        assert(lv.take(li + 1).drop_last() =~= prev);
        assert(lv.take(li + 1).last() == lines@[li as int]@);
        if let Some((level, title)) = parse_heading_line(&lines[li]) {
            positions.push((li, level, title));
        }
        li = li + 1;
    }
    assert(lv.take(lines.len() as int) =~= lv);
    let ghost pos = heading_positions(lv);
    proof {
        lemma_heading_positions_shape(lv);
    }
    let mut seen: Vec<Vec<char>> = Vec::new();
    let mut sections: Vec<HeadingSection> = Vec::new();
    let mut k: usize = 0;
    while k < positions.len()
        invariant
            k <= positions.len(),
            lv == seqs_of(lines@),
            lv == lines_of(text@),
            pos == heading_positions(lv),
            positions@.len() == pos.len(),
            forall|j: int| 0 <= j < positions@.len() ==> {
                let p = #[trigger] positions@[j];
                p.0 == pos[j].0 && p.1 == pos[j].1 && p.2@ == pos[j].2
            },
            forall|j: int| 0 <= j < pos.len() ==> 0 <= #[trigger] pos[j].0 < lv.len(),
            forall|a: int, b: int| 0 <= a < b < pos.len() ==> #[trigger] pos[a].0 < #[trigger] pos[b].0,
            forall|t: Seq<char>| #[trigger] seqs_of(seen@).contains(t) <==> exists|j: int| 0 <= j < k && markdown_anchor_spec(#[trigger] pos[j].2) == t,
            sections@.len() == sections_upto(lv, pos, k as int).len(),
            forall|j: int| 0 <= j < sections@.len() ==> section_is(#[trigger] sections@[j], sections_upto(lv, pos, k as int)[j]),
        decreases positions.len() - k,
    {
        let line_index = positions[k].0;
        let level = positions[k].1;
        let title = string_of(&positions[k].2);
        let anchor = markdown_anchor(title.as_str());
        let anchor_v = chars_of(anchor.as_str());
        let ghost seen_before = seqs_of(seen@);
        if crate::text::list_contains(&seen, &anchor_v) {
            proof {
                let j = choose|j: int| 0 <= j < k && markdown_anchor_spec(#[trigger] pos[j].2) == anchor@;
                assert(!first_with_anchor(pos, k as int));
            }
        } else {
            seen.push(anchor_v);
            assert(seqs_of(seen@) =~= seen_before.push(anchor@));
            assert(first_with_anchor(pos, k as int)) by {
                assert forall|i: int| 0 <= i < k implies markdown_anchor_spec(#[trigger] pos[i].2) != markdown_anchor_spec(pos[k as int].2) by {
                    if markdown_anchor_spec(pos[i].2) == anchor@ {
                        assert(seen_before.contains(anchor@));
                    }
                }
            }
            // The end: the first later heading of the same or a higher level.
            let mut j: usize = k + 1;
            while j < positions.len() && positions[j].1 > level
                invariant
                    k < j <= positions.len(),
                    positions@.len() == pos.len(),
                    level == pos[k as int].1,
                    forall|m: int| 0 <= m < positions@.len() ==> {
                        let p = #[trigger] positions@[m];
                        p.0 == pos[m].0 && p.1 == pos[m].1 && p.2@ == pos[m].2
                    },
                    section_end(pos, k as int, k + 1, lv.len() as int) == section_end(pos, k as int, j as int, lv.len() as int),
                decreases positions.len() - j,
            {
                j = j + 1;
            }
            let line_end = if j < positions.len() {
                positions[j].0
            } else {
                lines.len()
            };
            assert(line_end == section_end(pos, k as int, k + 1, lv.len() as int));
            assert(line_index < line_end) by {
                if j < positions.len() {
                    assert(pos[k as int].0 < pos[j as int].0);
                }
            }
            let mut part: Vec<Vec<char>> = Vec::new();
            let mut m: usize = line_index;
            while m < line_end
                invariant
                    line_index <= m <= line_end <= lines.len(),
                    lv == seqs_of(lines@),
                    seqs_of(part@) == lv.subrange(line_index as int, m as int),
                decreases line_end - m,
            {
                let ghost before = seqs_of(part@);
                let line = crate::text::copy_vec(&lines[m]);
                assert(line@ == lv[m as int]);
                part.push(line);
                assert(seqs_of(part@) =~= before.push(lv[m as int]));
                assert(seqs_of(part@) =~= lv.subrange(line_index as int, m + 1));
                m = m + 1;
            }
            let joined = join_vecs(&part, &lit("\n"));
            proof {
                reveal_strlit("\n");
            }
            let section = HeadingSection {
                level,
                title,
                heading_anchor: anchor,
                line_start: line_index + 1,
                line_end,
                text: string_of(&joined),
            };
            assert(section_is(section, section_at(lv, pos, k as int)));
            sections.push(section);
        }
        proof {
            assert forall|t: Seq<char>| #[trigger] seqs_of(seen@).contains(t) <==> exists|j: int| 0 <= j < k + 1 && markdown_anchor_spec(#[trigger] pos[j].2) == t by {
                if exists|j: int| 0 <= j < k + 1 && markdown_anchor_spec(#[trigger] pos[j].2) == t {
                    let j = choose|j: int| 0 <= j < k + 1 && markdown_anchor_spec(#[trigger] pos[j].2) == t;
                    if j == k {
                        assert(seqs_of(seen@).contains(anchor@)) by {
                            if !seen_before.contains(anchor@) {
                                assert(seqs_of(seen@)[seen_before.len() as int] == anchor@);
                            }
                        }
                    } else {
                        assert(seen_before.contains(t));
                        let i = choose|i: int| 0 <= i < seen_before.len() && seen_before[i] == t;
                        assert(seqs_of(seen@)[i] == t);
                    }
                }
                if seqs_of(seen@).contains(t) {
                    let i = choose|i: int| 0 <= i < seqs_of(seen@).len() && seqs_of(seen@)[i] == t;
                    if i < seen_before.len() {
                        assert(seen_before[i] == t);
                        assert(seen_before.contains(t));
                    } else {
                        assert(markdown_anchor_spec(pos[k as int].2) == t);
                    }
                }
            }
        }
        k = k + 1;
    }
    sections
}


/// Whether a directory walk skips an entry below its root: one whose name
/// starts with `.`, or that is `node_modules` or `target`.
pub open spec fn ignored_walk_entry(depth: usize, file_name: Option<Seq<char>>) -> bool {
    depth > 0 && (file_name matches Some(n) && (starts_with(n, "."@) || n == "node_modules"@
        || n == "target"@))
}

/// Whether a directory walk skips an entry: its depth below the root and
/// its name, where the name is text.
pub fn is_ignored_walk_entry(depth: usize, file_name: Option<&str>) -> (b: bool)
    ensures
        b == ignored_walk_entry(
            depth,
            match file_name {
                Some(n) => Some(n@),
                None => None,
            },
        ),
{
    match file_name {
        Some(n) => {
            let v = chars_of(n);
            depth > 0 && (crate::text::starts_with_vec(&v, &crate::text::lit(".")) || vec_eq(
                &v,
                &crate::text::lit("node_modules"),
            ) || vec_eq(&v, &crate::text::lit("target")))
        },
        None => false,
    }
}

/// Whether an entry below the walk's root is hidden: its name starts
/// with `.`.
pub fn is_hidden_entry(depth: usize, file_name: Option<&str>) -> (b: bool)
    ensures
        b == (depth > 0 && match file_name {
            Some(n) => starts_with(n@, "."@),
            None => false,
        }),
{
    match file_name {
        Some(n) => depth > 0 && crate::text::starts_with_vec(&chars_of(n), &crate::text::lit(".")),
        None => false,
    }
}

} // verus!
