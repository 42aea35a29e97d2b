//! The parts of a `SearchStrategyFlow` candidate input row that discovery
//! derives from a section: edge kinds, context cost, match counts, and the
//! escaping of TSV fields.
use vstd::prelude::*;
use crate::ordered::{sorted_unique, strictly_sorted};
use crate::text::{
    chars_of, concat2, contains, contains_vec, is_blank, lit, lower_seq, seqs_of, string_of, strings_of,
    to_ascii_lowercase_vec, trim, trim_vec, vec_eq,
};

verus! {

/// How a parser registry resolved a path.
#[derive(Clone, Copy, Debug, PartialEq, Eq, Structural)]
pub enum SearchStrategyFlowParserPriority {
    /// A local extension override chose the parser.
    LocalOverride,
    /// The general AST baseline chose the parser.
    GeneralBaseline,
    /// No parser applies; the file is plain text.
    PlainText,
}

/// The parser resolution of one source path.
#[derive(Clone, Debug, PartialEq, Eq)]
pub struct SearchStrategyFlowParserResolution {
    /// How the parser was chosen.
    pub priority: SearchStrategyFlowParserPriority,
    /// The parser that reads the file.
    pub effective_parser: String,
    /// The general baseline parser, when there is one.
    pub baseline_parser: Option<String>,
}

pub open spec fn priority_kind(p: SearchStrategyFlowParserPriority) -> Seq<char> {
    match p {
        SearchStrategyFlowParserPriority::LocalOverride => "parser-priority:local-override"@,
        SearchStrategyFlowParserPriority::GeneralBaseline => "parser-priority:general-baseline"@,
        SearchStrategyFlowParserPriority::PlainText => "parser-priority:plain-text"@,
    }
}

/// The evidence edge kinds of a parser resolution, in order: the priority,
/// the effective parser, the baseline (when there is one), and whether the
/// parser is a native or a plugin override.
pub open spec fn resolution_edge_kinds(res: SearchStrategyFlowParserResolution) -> Seq<Seq<char>> {
    let eff = res.effective_parser@;
    seq![priority_kind(res.priority), "effective-parser:"@ + eff] + match res.baseline_parser {
        Some(b) => seq!["general-ast-baseline"@, "baseline-parser:"@ + b@],
        None => Seq::empty(),
    } + if eff == "markdown-lang-parser"@ || eff == "rust-lang-parser"@ {
        seq!["native-parser-override"@]
    } else {
        Seq::empty()
    } + if eff == "julia-lang-parser"@ || eff == "modelica-lang-parser"@ {
        seq!["plugin-parser-override"@]
    } else {
        Seq::empty()
    }
}

fn prefixed_vec(prefix: &str, value: &String) -> (r: Vec<char>)
    ensures
        r@ == prefix@ + value@,
{
    concat2(&lit(prefix), &chars_of(value.as_str()))
}

/// The evidence edge kinds of a parser resolution.
pub fn edge_kinds_for_resolution(res: &SearchStrategyFlowParserResolution) -> (r: Vec<Vec<char>>)
    ensures
        seqs_of(r@) == resolution_edge_kinds(*res),
{
    let mut kinds: Vec<Vec<char>> = Vec::new();
    let head = match res.priority {
        SearchStrategyFlowParserPriority::LocalOverride => lit("parser-priority:local-override"),
        SearchStrategyFlowParserPriority::GeneralBaseline => lit("parser-priority:general-baseline"),
        SearchStrategyFlowParserPriority::PlainText => lit("parser-priority:plain-text"),
    };
    kinds.push(head);
    kinds.push(prefixed_vec("effective-parser:", &res.effective_parser));
    let ghost k0 = seqs_of(kinds@);
    assert(k0 =~= seq![priority_kind(res.priority), "effective-parser:"@ + res.effective_parser@]);
    if let Some(b) = &res.baseline_parser {
        kinds.push(lit("general-ast-baseline"));
        kinds.push(prefixed_vec("baseline-parser:", b));
    }
    let ghost k1 = seqs_of(kinds@);
    assert(k1 =~= k0 + match res.baseline_parser {
        Some(b) => seq!["general-ast-baseline"@, "baseline-parser:"@ + b@],
        None => Seq::<Seq<char>>::empty(),
    });
    let eff = chars_of(res.effective_parser.as_str());
    if vec_eq(&eff, &lit("markdown-lang-parser")) || vec_eq(&eff, &lit("rust-lang-parser")) {
        kinds.push(lit("native-parser-override"));
    }
    let ghost k2 = seqs_of(kinds@);
    assert(k2 =~= k1 + if res.effective_parser@ == "markdown-lang-parser"@ || res.effective_parser@
        == "rust-lang-parser"@ {
        seq!["native-parser-override"@]
    } else {
        Seq::<Seq<char>>::empty()
    });
    if vec_eq(&eff, &lit("julia-lang-parser")) || vec_eq(&eff, &lit("modelica-lang-parser")) {
        kinds.push(lit("plugin-parser-override"));
    }
    assert(seqs_of(kinds@) =~= k2 + if res.effective_parser@ == "julia-lang-parser"@ || res.effective_parser@
        == "modelica-lang-parser"@ {
        seq!["plugin-parser-override"@]
    } else {
        Seq::<Seq<char>>::empty()
    });
    kinds
}

/// The evidence edge kinds of a source path's parser resolution, sorted and
/// without duplicates.
pub fn search_strategy_flow_evidence_edge_kinds(res: &SearchStrategyFlowParserResolution) -> (r: Vec<String>)
    ensures
        strictly_sorted(r.deep_view()),
        forall|t: Seq<char>| #[trigger] r.deep_view().contains(t) <==> resolution_edge_kinds(*res).contains(t),
{
    let kinds = edge_kinds_for_resolution(res);
    let sorted = sorted_unique(&kinds);
    strings_of(&sorted)
}

/// The lowercased path and title joined by a space.
pub open spec fn path_title_text(relative_path: Seq<char>, title: Seq<char>) -> Seq<char> {
    lower_seq(relative_path) + " "@ + lower_seq(title)
}

/// The edge kinds of a discovered section before sorting: the fixed kinds,
/// one kind for each marker its path and title hold, and the evidence kinds
/// of its parser resolution.
pub open spec fn section_edge_kinds(relative_path: Seq<char>, title: Seq<char>, res: SearchStrategyFlowParserResolution) -> Seq<Seq<char>> {
    let t = path_title_text(relative_path, title);
    seq!["anchor"@, "page-index"@, "rust-discovered"@] + (if contains(t, "search"@) {
        seq!["search-strategy"@]
    } else {
        Seq::empty()
    }) + (if contains(t, "reasoning"@) {
        seq!["reasoning-tree"@]
    } else {
        Seq::empty()
    }) + (if contains(t, "graph"@) {
        seq!["link-graph"@]
    } else {
        Seq::empty()
    }) + (if contains(t, "validation"@) {
        seq!["validation"@]
    } else {
        Seq::empty()
    }) + resolution_edge_kinds(res)
}

fn push_if(kinds: &mut Vec<Vec<char>>, cond: bool, kind: &str)
    ensures
        seqs_of(final(kinds)@) == seqs_of(old(kinds)@) + if cond {
            seq![kind@]
        } else {
            Seq::<Seq<char>>::empty()
        },
{
    if cond {
        let ghost before = seqs_of(kinds@);
        kinds.push(lit(kind));
        assert(seqs_of(kinds@) =~= before + seq![kind@]);
    } else {
        assert(seqs_of(kinds@) =~= seqs_of(old(kinds)@) + Seq::<Seq<char>>::empty());
    }
}

fn section_edge_kinds_vec(relative_path: &str, title: &str, res: &SearchStrategyFlowParserResolution) -> (r: Vec<Vec<char>>)
    ensures
        seqs_of(r@) == section_edge_kinds(relative_path@, title@, *res),
{
    let p = to_ascii_lowercase_vec(&chars_of(relative_path));
    let p1 = concat2(&p, &lit(" "));
    let t = concat2(&p1, &to_ascii_lowercase_vec(&chars_of(title)));
    assert(t@ == path_title_text(relative_path@, title@));
    let mut kinds: Vec<Vec<char>> = Vec::new();
    kinds.push(lit("anchor"));
    kinds.push(lit("page-index"));
    kinds.push(lit("rust-discovered"));
    assert(seqs_of(kinds@) =~= seq!["anchor"@, "page-index"@, "rust-discovered"@]);
    push_if(&mut kinds, contains_vec(&t, &lit("search")), "search-strategy");
    push_if(&mut kinds, contains_vec(&t, &lit("reasoning")), "reasoning-tree");
    push_if(&mut kinds, contains_vec(&t, &lit("graph")), "link-graph");
    push_if(&mut kinds, contains_vec(&t, &lit("validation")), "validation");
    let ghost before = seqs_of(kinds@);
    let extra = edge_kinds_for_resolution(res);
    let mut i: usize = 0;
    while i < extra.len()
        invariant
            i <= extra.len(),
            seqs_of(kinds@) == before + seqs_of(extra@).take(i as int),
        decreases extra.len() - i,
    {
        let ghost cur = seqs_of(kinds@);
        kinds.push(crate::text::copy_vec(&extra[i]));
        assert(seqs_of(kinds@) =~= cur.push(extra@[i as int]@));
        assert(seqs_of(extra@).take(i + 1) =~= seqs_of(extra@).take(i as int).push(extra@[i as int]@));
        i = i + 1;
    }
    assert(seqs_of(extra@).take(extra.len() as int) =~= seqs_of(extra@));
    kinds
}

/// The edge kinds of a discovered Markdown section: sorted, without duplicates.
pub fn edge_kinds(relative_path: &str, title: &str, res: &SearchStrategyFlowParserResolution) -> (r: Vec<String>)
    ensures
        strictly_sorted(r.deep_view()),
        forall|t: Seq<char>| #[trigger] r.deep_view().contains(t) <==> section_edge_kinds(relative_path@, title@, *res).contains(t),
{
    let kinds = section_edge_kinds_vec(relative_path, title, res);
    strings_of(&sorted_unique(&kinds))
}

/// The edge kinds of a section found by native repo search: those of a
/// discovered section, and the Flight data plane and repo search.
pub fn repo_search_edge_kinds(relative_path: &str, title: &str, res: &SearchStrategyFlowParserResolution) -> (r: Vec<String>)
    ensures
        strictly_sorted(r.deep_view()),
        forall|t: Seq<char>| #[trigger] r.deep_view().contains(t) <==> (section_edge_kinds(relative_path@, title@, *res).contains(t)
            || t == "arrow-flight"@ || t == "repo-search"@),
{
    let mut kinds = section_edge_kinds_vec(relative_path, title, res);
    let ghost base = seqs_of(kinds@);
    kinds.push(lit("arrow-flight"));
    kinds.push(lit("repo-search"));
    let ghost all = seqs_of(kinds@);
    assert(all =~= base.push("arrow-flight"@).push("repo-search"@));
    let sorted = sorted_unique(&kinds);
    proof {
        assert forall|t: Seq<char>| all.contains(t) <==> (base.contains(t) || t == "arrow-flight"@ || t == "repo-search"@) by {
            if all.contains(t) {
                let k = choose|k: int| 0 <= k < all.len() && all[k] == t;
                if k < base.len() {
                    assert(base[k] == t);
                }
            }
            if base.contains(t) {
                let k = choose|k: int| 0 <= k < base.len() && base[k] == t;
                assert(all[k] == t);
            }
            if t == "arrow-flight"@ {
                assert(all[base.len() as int] == t);
            }
            if t == "repo-search"@ {
                assert(all[base.len() as int + 1] == t);
            }
        }
    }
    strings_of(&sorted)
}

/// The context cost of a repo-search hit: eight per line, saturating, at least one.
pub open spec fn line_context_cost_spec(line_start: int, line_end: int) -> int {
    let span = if line_end >= line_start {
        line_end - line_start
    } else {
        0
    };
    let lines = if span + 1 > usize::MAX {
        usize::MAX as int
    } else {
        span + 1
    };
    let cost = if lines * 8 > usize::MAX {
        usize::MAX as int
    } else {
        lines * 8
    };
    if cost >= 1 {
        cost
    } else {
        1
    }
}

/// Context cost of a line span.
pub fn line_context_cost(line_start: usize, line_end: usize) -> (r: usize)
    ensures
        r == line_context_cost_spec(line_start as int, line_end as int),
{
    let span = line_end.saturating_sub(line_start);
    let lines = span.saturating_add(1);
    let cost = if lines > usize::MAX / 8 {
        usize::MAX
    } else {
        lines * 8
    };
    if cost >= 1 {
        cost
    } else {
        1
    }
}

/// The number of bytes that the UTF-8 encoding of a character takes.
pub open spec fn utf8_width(c: char) -> nat {
    if (c as u32) < 0x80 {
        1
    } else if (c as u32) < 0x800 {
        2
    } else if (c as u32) < 0x10000 {
        3
    } else {
        4
    }
}

/// The length of a text in UTF-8 bytes, as `str::len` counts it.
pub open spec fn utf8_len(s: Seq<char>) -> nat
    decreases s.len(),
{
    if s.len() == 0 {
        0
    } else {
        utf8_len(s.drop_last()) + utf8_width(s.last())
    }
}

/// The context cost of a section text: one per twenty bytes, rounded up;
/// 512 for an empty text.
pub open spec fn context_cost_spec(bytes: int) -> int {
    if bytes == 0 {
        512
    } else {
        (bytes + 19) / 20
    }
}

/// Context cost of a section text with the given byte length.
pub fn context_cost(text: &str) -> (r: usize)
    requires
        utf8_len(text@) <= usize::MAX,
    ensures
        r == context_cost_spec(utf8_len(text@) as int),
{
    let v = chars_of(text);
    let mut bytes: usize = 0;
    let mut i: usize = 0;
    while i < v.len()
        invariant
            i <= v.len(),
            v@ == text@,
            utf8_len(text@) <= usize::MAX,
            bytes == utf8_len(v@.take(i as int)),
        decreases v.len() - i,
    {
        assert(v@.take(i + 1).drop_last() =~= v@.take(i as int));
        proof {
            lemma_utf8_len_prefix(v@, i + 1);
        }
        let c = v[i] as u32;
        let w: usize = if c < 0x80 {
            1
        } else if c < 0x800 {
            2
        } else if c < 0x10000 {
            3
        } else {
            4
        };
        bytes = bytes + w;
        i = i + 1;
    }
    assert(v@.take(v.len() as int) =~= v@);
    if bytes == 0 {
        512
    } else {
        let q = bytes / 20;
        if bytes % 20 == 0 {
            q
        } else {
            q + 1
        }
    }
}

proof fn lemma_utf8_len_prefix(s: Seq<char>, n: int)
    requires
        0 <= n <= s.len(),
    ensures
        utf8_len(s.take(n)) <= utf8_len(s),
    decreases s.len() - n,
{
    if n < s.len() {
        lemma_utf8_len_prefix(s, n + 1);
        assert(s.take(n + 1).drop_last() =~= s.take(n));
    } else {
        assert(s.take(n) =~= s);
    }
}

/// The escape of one character in a TSV field.
pub open spec fn escape_char(c: char) -> Seq<char> {
    if c == '\\' {
        seq!['\\', '\\']
    } else if c == '\t' {
        seq!['\\', 't']
    } else if c == '\n' {
        seq!['\\', 'n']
    } else if c == '\r' {
        seq!['\\', 'r']
    } else {
        seq![c]
    }
}

/// A TSV field with backslash, tab, newline and carriage return escaped.
pub open spec fn escape_tsv(s: Seq<char>) -> Seq<char>
    decreases s.len(),
{
    if s.len() == 0 {
        Seq::empty()
    } else {
        escape_char(s[0]) + escape_tsv(s.drop_first())
    }
}

/// What an escape sequence stands for: `\t`, `\n`, `\r` and `\\` their
/// characters; any other pair is kept as it is.
pub open spec fn unescape_pair(x: char) -> Seq<char> {
    if x == 't' {
        seq!['\t']
    } else if x == 'n' {
        seq!['\n']
    } else if x == 'r' {
        seq!['\r']
    } else if x == '\\' {
        seq!['\\']
    } else {
        seq!['\\', x]
    }
}

/// The text that an escaped TSV field stands for; a backslash at the very
/// end stands for itself.
pub open spec fn unescape_tsv(t: Seq<char>) -> Seq<char>
    decreases t.len(),
{
    if t.len() == 0 {
        Seq::empty()
    } else if t[0] == '\\' {
        if t.len() == 1 {
            seq!['\\']
        } else {
            unescape_pair(t[1]) + unescape_tsv(t.skip(2))
        }
    } else {
        seq![t[0]] + unescape_tsv(t.drop_first())
    }
}

/// Turns the escape sequences of a TSV field back into characters.
pub fn unescape_tsv_field(value: &str) -> (r: String)
    ensures
        r@ == unescape_tsv(value@),
{
    let v = chars_of(value);
    let mut out: Vec<char> = Vec::new();
    let mut i: usize = 0;
    assert(v@.skip(0) =~= v@);
    while i < v.len()
        invariant
            i <= v.len(),
            v@ == value@,
            out@ + unescape_tsv(v@.skip(i as int)) == unescape_tsv(value@),
        decreases v.len() - i,
    {
        let ghost before = out@;
        let ghost rest = v@.skip(i as int);
        assert(rest[0] == v@[i as int]);
        if v[i] == '\\' {
            if i + 1 < v.len() {
                let x = v[i + 1];
                assert(rest[1] == x);
                assert(rest.skip(2) =~= v@.skip(i + 2));
                if x == 't' {
                    out.push('\t');
                } else if x == 'n' {
                    out.push('\n');
                } else if x == 'r' {
                    out.push('\r');
                } else if x == '\\' {
                    out.push('\\');
                } else {
                    out.push('\\');
                    out.push(x);
                }
                assert(out@ =~= before + unescape_pair(x));
                assert(out@ + unescape_tsv(v@.skip(i + 2)) =~= before + unescape_tsv(rest));
                i = i + 2;
            } else {
                out.push('\\');
                assert(rest.len() == 1);
                assert(v@.skip(i + 1).len() == 0);
                assert(out@ + unescape_tsv(v@.skip(i + 1)) =~= before + unescape_tsv(rest));
                i = i + 1;
            }
        } else {
            out.push(v[i]);
            assert(rest.drop_first() =~= v@.skip(i + 1));
            assert(out@ + unescape_tsv(v@.skip(i + 1)) =~= before + unescape_tsv(rest));
            i = i + 1;
        }
    }
    assert(out@ =~= unescape_tsv(value@));
    string_of(&out)
}

proof fn lemma_escape_push(s: Seq<char>, c: char)
    ensures
        escape_tsv(s.push(c)) == escape_tsv(s) + escape_char(c),
    decreases s.len(),
{
    if s.len() == 0 {
        assert(s.push(c).drop_first() =~= Seq::<char>::empty());
        assert(s.push(c)[0] == c);
        assert(escape_tsv(s.push(c).drop_first()) =~= Seq::<char>::empty());
        assert(escape_tsv(s.push(c)) =~= escape_char(c));
    } else {
        assert(s.push(c).drop_first() =~= s.drop_first().push(c));
        lemma_escape_push(s.drop_first(), c);
        assert(escape_tsv(s.push(c)) =~= escape_tsv(s) + escape_char(c));
    }
}

/// Escapes backslash, tab, newline and carriage return in a TSV field.
pub fn escape_tsv_field(value: &str) -> (r: String)
    ensures
        r@ == escape_tsv(value@),
{
    let v = chars_of(value);
    let mut out: Vec<char> = Vec::new();
    let mut i: usize = 0;
    while i < v.len()
        invariant
            i <= v.len(),
            v@ == value@,
            out@ == escape_tsv(v@.take(i as int)),
        decreases v.len() - i,
    {
        let c = v[i];
        proof {
            lemma_escape_push(v@.take(i as int), c);
            assert(v@.take(i as int).push(c) =~= v@.take(i + 1));
        }
        let ghost before = out@;
        if c == '\\' {
            out.push('\\');
            out.push('\\');
        } else if c == '\t' {
            out.push('\\');
            out.push('t');
        } else if c == '\n' {
            out.push('\\');
            out.push('n');
        } else if c == '\r' {
            out.push('\\');
            out.push('r');
        } else {
            out.push(c);
        }
        assert(out@ =~= before + escape_char(c));
        i = i + 1;
    }
    assert(v@.take(v.len() as int) =~= v@);
    string_of(&out)
}

/// An escaped field keeps row and column boundaries: it holds no tab, newline
/// or carriage return, and it unescapes back to the text it came from.
pub proof fn lemma_escape_tsv_round_trip(s: Seq<char>)
    ensures
        unescape_tsv(escape_tsv(s)) == s,
        !escape_tsv(s).contains('\t'),
        !escape_tsv(s).contains('\n'),
        !escape_tsv(s).contains('\r'),
    decreases s.len(),
{
    if s.len() > 0 {
        lemma_escape_tsv_round_trip(s.drop_first());
        let rest = escape_tsv(s.drop_first());
        let e = escape_char(s[0]);
        let t = e + rest;
        assert(escape_tsv(s) == t);
        if e.len() == 2 {
            assert(t.skip(2) =~= rest);
        } else {
            assert(t.drop_first() =~= rest);
        }
        assert(s =~= seq![s[0]] + s.drop_first());
        assert forall|c: char| c == '\t' || c == '\n' || c == '\r' implies !t.contains(c) by {
            if t.contains(c) {
                let k = choose|k: int| 0 <= k < t.len() && t[k] == c;
                if k >= e.len() {
                    assert(rest[k - e.len()] == c);
                }
            }
        }
    }
}

/// A present value that is not blank, trimmed.
pub fn non_blank(value: Option<&str>) -> (r: Option<String>)
    ensures
        match value {
            Some(v) => if is_blank(v@) {
                r is None
            } else {
                r matches Some(t) && t@ == trim(v@)
            },
            None => r is None,
        },
{
    match value {
        Some(v) => {
            let t = trim_vec(&chars_of(v));
            if t.len() == 0 {
                None
            } else {
                Some(string_of(&t))
            }
        },
        None => None,
    }
}

/// How many of the intent terms occur in a text.
pub open spec fn count_contained(terms: Seq<Seq<char>>, hay: Seq<char>) -> nat
    decreases terms.len(),
{
    if terms.len() == 0 {
        0
    } else {
        count_contained(terms.drop_last(), hay) + if contains(hay, terms.last()) {
            1nat
        } else {
            0nat
        }
    }
}

/// The integer facts that the score of a heading section rests on.
#[derive(Clone, Copy, Debug, PartialEq, Eq, Structural)]
pub struct SectionMatchCounts {
    /// Number of intent terms.
    pub term_count: usize,
    /// Intent terms found in the lowercased path, title and text.
    pub matched_terms: usize,
    /// Intent terms found in the lowercased title.
    pub title_matches: usize,
    /// Intent terms found in the lowercased path.
    pub path_matches: usize,
    /// The path or title mentions `search`.
    pub search_bonus: bool,
    /// The path mentions `page_index` or the title mentions `reasoning`.
    pub page_index_bonus: bool,
}

fn count_contained_exec(terms: &Vec<String>, hay: &[char]) -> (r: usize)
    ensures
        r == count_contained(terms.deep_view(), hay@),
{
    let mut n: usize = 0;
    let mut i: usize = 0;
    while i < terms.len()
        invariant
            i <= terms.len(),
            n == count_contained(terms.deep_view().take(i as int), hay@),
            n <= i,
        decreases terms.len() - i,
    {
        assert(terms.deep_view().take(i + 1).drop_last() =~= terms.deep_view().take(i as int));
        assert(terms.deep_view().take(i + 1).last() == terms@[i as int]@);
        if contains_vec(hay, &chars_of(terms[i].as_str())) {
            n = n + 1;
        }
        i = i + 1;
    }
    assert(terms.deep_view().take(terms.len() as int) =~= terms.deep_view());
    n
}

/// The haystack of a section: lowercased path, title and text on three lines.
pub open spec fn section_haystack(relative_path: Seq<char>, title: Seq<char>, text: Seq<char>) -> Seq<char> {
    lower_seq(relative_path) + "\n"@ + lower_seq(title) + "\n"@ + lower_seq(text)
}

/// Counts which intent terms a heading section matches.
pub fn section_match_counts(relative_path: &str, title: &str, text: &str, intent_terms: &Vec<String>) -> (r: SectionMatchCounts)
    ensures
        r.term_count == intent_terms@.len(),
        r.matched_terms == count_contained(intent_terms.deep_view(), section_haystack(relative_path@, title@, text@)),
        r.title_matches == count_contained(intent_terms.deep_view(), lower_seq(title@)),
        r.path_matches == count_contained(intent_terms.deep_view(), lower_seq(relative_path@)),
        r.search_bonus == (contains(lower_seq(relative_path@), "search"@) || contains(lower_seq(title@), "search"@)),
        r.page_index_bonus == (contains(lower_seq(relative_path@), "page_index"@) || contains(lower_seq(title@), "reasoning"@)),
{
    let path = to_ascii_lowercase_vec(&chars_of(relative_path));
    let t = to_ascii_lowercase_vec(&chars_of(title));
    let body = to_ascii_lowercase_vec(&chars_of(text));
    let h1 = concat2(&path, &lit("\n"));
    let h2 = concat2(&h1, &t);
    let h3 = concat2(&h2, &lit("\n"));
    let hay = concat2(&h3, &body);
    assert(hay@ == section_haystack(relative_path@, title@, text@));
    SectionMatchCounts {
        term_count: intent_terms.len(),
        matched_terms: count_contained_exec(intent_terms, &hay),
        title_matches: count_contained_exec(intent_terms, &t),
        path_matches: count_contained_exec(intent_terms, &path),
        search_bonus: contains_vec(&path, &lit("search")) || contains_vec(&t, &lit("search")),
        page_index_bonus: contains_vec(&path, &lit("page_index")) || contains_vec(&t, &lit("reasoning")),
    }
}

} // verus!
