//! Decisions of `SearchStrategyFlow` candidate discovery through native repo
//! search: which hits merge, when the attempts stop, and how the merged
//! candidates are ranked and narrowed.
use vstd::prelude::*;
use crate::ordered::lex_lt;
use crate::text::{
    chars_of, concat2, contains, contains_vec, decimal, decimal_text, ends_with, ends_with_vec, join, join_vecs,
    lit, lower_seq, seqs_of, starts_with, starts_with_vec, string_of, to_ascii_lowercase_vec, vec_eq,
};

verus! {

/// Repo-search row limit per discovery attempt.
pub const REPO_SEARCH_LIMIT: usize = 10;

/// Most repo-search attempts of one discovery.
pub const MAX_FLIGHT_CANDIDATE_DISCOVERY_ATTEMPTS: usize = 32;

/// Attempts made before discovery may stop early.
pub const MIN_FLIGHT_CANDIDATE_DISCOVERY_ATTEMPTS_BEFORE_EARLY_STOP: usize = 20;

/// Most candidates that discovery hands on.
pub const MAX_FLIGHT_DISCOVERY_CANDIDATES: usize = 12;

/// A repo-search candidate as discovery ranks it.
#[derive(Clone, Debug, PartialEq, Eq)]
pub struct DiscoveredCandidate {
    /// Repo-relative path of the source.
    pub relative_path: String,
    /// Heading anchor of the section.
    pub heading_anchor: String,
    /// Heading title of the section.
    pub title: String,
    /// Order key of the candidate's calibrated evidence coverage: a larger
    /// key is a higher score.
    pub evidence_key: u64,
    /// Order key of the candidate's calibrated graph score: a larger key is
    /// a higher score.
    pub graph_key: u64,
}

/// A test source.
pub open spec fn is_test_path(p: Seq<char>) -> bool {
    contains(p, "/tests/"@) || starts_with(p, "tests/"@) || contains(p, "/test/"@) || ends_with(p, "_test.rs"@)
        || ends_with(p, ".test.ts"@) || ends_with(p, ".spec.ts"@)
}

/// The discovery priority of a candidate, smaller first: the Julia crate's own
/// documents, validation authorities, policy authorities, other Markdown,
/// TOML, package sources, and last tests and anything else.
pub open spec fn discovery_priority(c: DiscoveredCandidate) -> u8 {
    let path = lower_seq(c.relative_path@);
    let combined = path + " "@ + lower_seq(c.title@);
    let md = ends_with(path, ".md"@);
    if is_test_path(path) {
        6
    } else if md && (path == "packages/rust/crates/xiuxian-wendao-julia/readme.md"@ || starts_with(
        path,
        "packages/rust/crates/xiuxian-wendao-julia/docs/"@,
    )) {
        0
    } else if md && starts_with(path, "docs/testing/"@) && contains(combined, "validation"@) {
        1
    } else if md && ((starts_with(path, "docs/rfcs/"@) && (contains(combined, "ownership"@) || contains(
        combined,
        "authority"@,
    ) || contains(combined, "validation"@) || contains(combined, "boundary"@))) || (starts_with(
        path,
        "docs/01_core/wendao/"@,
    ) && (contains(combined, "searchstrategyflow"@) || contains(combined, "search strategy"@) || contains(
        combined,
        "pageindex"@,
    ) || contains(combined, "page index"@)) && (contains(combined, "linkgraph"@) || contains(
        combined,
        "link graph"@,
    ) || contains(combined, "relation"@)))) {
        2
    } else if md {
        3
    } else if ends_with(path, ".toml"@) {
        4
    } else if starts_with(path, "packages/"@) {
        5
    } else {
        6
    }
}

fn has(t: &[char], s: &str) -> (b: bool)
    ensures
        b == contains(t@, s@),
{
    contains_vec(t, &lit(s))
}

/// The discovery priority of a candidate.
pub fn candidate_discovery_priority(c: &DiscoveredCandidate) -> (r: u8)
    ensures
        r == discovery_priority(*c),
{
    let path = to_ascii_lowercase_vec(&chars_of(c.relative_path.as_str()));
    let p1 = concat2(&path, &lit(" "));
    let combined = concat2(&p1, &to_ascii_lowercase_vec(&chars_of(c.title.as_str())));
    assert(combined@ == lower_seq(c.relative_path@) + " "@ + lower_seq(c.title@));
    let md = ends_with_vec(&path, &lit(".md"));
    let test = has(&path, "/tests/") || starts_with_vec(&path, &lit("tests/")) || has(&path, "/test/")
        || ends_with_vec(&path, &lit("_test.rs")) || ends_with_vec(&path, &lit(".test.ts")) || ends_with_vec(
        &path,
        &lit(".spec.ts"),
    );
    if test {
        return 6;
    }
    if md && (vec_eq(&path, &lit("packages/rust/crates/xiuxian-wendao-julia/readme.md")) || starts_with_vec(
        &path,
        &lit("packages/rust/crates/xiuxian-wendao-julia/docs/"),
    )) {
        return 0;
    }
    if md && starts_with_vec(&path, &lit("docs/testing/")) && has(&combined, "validation") {
        return 1;
    }
    let authority_terms = has(&combined, "ownership") || has(&combined, "authority") || has(&combined, "validation")
        || has(&combined, "boundary");
    let strategy_terms = has(&combined, "searchstrategyflow") || has(&combined, "search strategy") || has(
        &combined,
        "pageindex",
    ) || has(&combined, "page index");
    let relation_terms = has(&combined, "linkgraph") || has(&combined, "link graph") || has(&combined, "relation");
    if md && ((starts_with_vec(&path, &lit("docs/rfcs/")) && authority_terms) || (starts_with_vec(
        &path,
        &lit("docs/01_core/wendao/"),
    ) && strategy_terms && relation_terms)) {
        return 2;
    }
    if md {
        return 3;
    }
    if ends_with_vec(&path, &lit(".toml")) {
        return 4;
    }
    if starts_with_vec(&path, &lit("packages/")) {
        return 5;
    }
    6
}

/// The source paths of the candidates, in order.
pub open spec fn source_paths(cands: Seq<DiscoveredCandidate>) -> Seq<Seq<char>> {
    cands.map_values(|c: DiscoveredCandidate| c.relative_path@)
}

/// Path `i` is the first occurrence of its text.
pub open spec fn first_of_path(paths: Seq<Seq<char>>, i: int) -> bool {
    forall|k: int| 0 <= k < i ==> #[trigger] paths[k] != paths[i]
}

/// The indices of the first `n` paths that are first occurrences, in order.
pub open spec fn unique_path_indices(paths: Seq<Seq<char>>, n: int) -> Seq<int>
    decreases n,
{
    if n <= 0 {
        Seq::empty()
    } else if first_of_path(paths, n - 1) {
        unique_path_indices(paths, n - 1).push(n - 1)
    } else {
        unique_path_indices(paths, n - 1)
    }
}

/// The indices of the first occurrence of each source path, in order.
pub fn unique_source_path_indices(paths: &Vec<String>) -> (r: Vec<usize>)
    ensures
        r@.map_values(|k: usize| k as int) == unique_path_indices(paths.deep_view(), paths@.len() as int),
{
    let ghost ps = paths.deep_view();
    let mut out: Vec<usize> = Vec::new();
    let mut seen_paths: Vec<Vec<char>> = Vec::new();
    let mut i: usize = 0;
    while i < paths.len()
        invariant
            i <= paths.len(),
            ps == paths.deep_view(),
            ps.len() == paths@.len(),
            out@.map_values(|k: usize| k as int) == unique_path_indices(ps, i as int),
            forall|p: Seq<char>| #[trigger] seqs_of(seen_paths@).contains(p) <==> exists|k: int| 0 <= k < i && #[trigger] ps[k] == p,
        decreases paths.len() - i,
    {
        let path = chars_of(paths[i].as_str());
        assert(path@ == ps[i as int]);
        let seen = crate::text::list_contains(&seen_paths, &path);
        assert(seen == !first_of_path(ps, i as int)) by {
            if !first_of_path(ps, i as int) {
                let k = choose|k: int| 0 <= k < i && #[trigger] ps[k] == ps[i as int];
                assert(seqs_of(seen_paths@).contains(path@));
            }
            if seen {
                let k = choose|k: int| 0 <= k < i && #[trigger] ps[k] == path@;
                assert(ps[k] == ps[i as int]);
            }
        }
        let ghost before = seqs_of(seen_paths@);
        let ghost before_out = out@.map_values(|k: usize| k as int);
        if !seen {
            out.push(i);
            assert(out@.map_values(|k: usize| k as int) =~= before_out.push(i as int));
            seen_paths.push(path);
            assert(seqs_of(seen_paths@) =~= before.push(ps[i as int]));
        }
        proof {
            assert forall|p: Seq<char>| #[trigger] seqs_of(seen_paths@).contains(p) <==> exists|k: int| 0 <= k < i + 1 && #[trigger] ps[k] == p by {
                if seqs_of(seen_paths@).contains(p) && !before.contains(p) {
                    let k = choose|k: int| 0 <= k < seqs_of(seen_paths@).len() && seqs_of(seen_paths@)[k] == p;
                    if k < before.len() {
                        assert(before[k] == p);
                    }
                    assert(p == ps[i as int]);
                }
                if before.contains(p) {
                    let k = choose|k: int| 0 <= k < before.len() && before[k] == p;
                    assert(seqs_of(seen_paths@)[k] == p);
                }
                if ps[i as int] == p && !seen {
                    assert(seqs_of(seen_paths@)[before.len() as int] == p);
                }
            }
        }
        i = i + 1;
    }
    out
}

fn candidate_paths(cands: &Vec<DiscoveredCandidate>) -> (r: Vec<String>)
    ensures
        r.deep_view() == source_paths(cands@),
{
    let mut r: Vec<String> = Vec::new();
    let mut i: usize = 0;
    while i < cands.len()
        invariant
            i <= cands.len(),
            r.deep_view() == source_paths(cands@).take(i as int),
        decreases cands.len() - i,
    {
        let ghost before = r.deep_view();
        r.push(string_of(&chars_of(cands[i].relative_path.as_str())));
        assert(r.deep_view() =~= before.push(cands@[i as int].relative_path@));
        assert(source_paths(cands@).take(i + 1) =~= source_paths(cands@).take(i as int).push(cands@[i as int].relative_path@));
        i = i + 1;
    }
    assert(source_paths(cands@).take(cands.len() as int) =~= source_paths(cands@));
    r
}

/// Keeps the first candidate of each source path, in order; returns their indices.
pub fn retain_unique_candidate_sources(cands: &Vec<DiscoveredCandidate>) -> (r: Vec<usize>)
    ensures
        r@.map_values(|k: usize| k as int) == unique_path_indices(source_paths(cands@), cands@.len() as int),
{
    let paths = candidate_paths(cands);
    assert(paths.deep_view().len() == paths@.len());
    unique_source_path_indices(&paths)
}

proof fn lemma_unique_paths_range(paths: Seq<Seq<char>>, n: int)
    requires
        0 <= n <= paths.len(),
    ensures
        forall|a: int| 0 <= a < unique_path_indices(paths, n).len() ==> 0 <= #[trigger] unique_path_indices(paths, n)[a] < n,
        forall|a: int, b: int| 0 <= a < b < unique_path_indices(paths, n).len() ==> #[trigger] unique_path_indices(paths, n)[a] < #[trigger] unique_path_indices(paths, n)[b],
        unique_path_indices(paths, n).len() <= n,
    decreases n,
{
    if n > 0 {
        lemma_unique_paths_range(paths, n - 1);
        let prev = unique_path_indices(paths, n - 1);
        let cur = unique_path_indices(paths, n);
        assert forall|a: int| 0 <= a < cur.len() implies 0 <= #[trigger] cur[a] < n by {
            if a < prev.len() {
                assert(cur[a] == prev[a]);
            }
        }
        assert forall|a: int, b: int| 0 <= a < b < cur.len() implies #[trigger] cur[a] < #[trigger] cur[b] by {
            if b < prev.len() {
                assert(cur[a] == prev[a] && cur[b] == prev[b]);
            } else {
                assert(cur[a] == prev[a] && cur[b] == n - 1);
            }
        }
    }
}

proof fn lemma_unique_paths_distinct(paths: Seq<Seq<char>>, n: int)
    requires
        0 <= n <= paths.len(),
    ensures
        forall|a: int, b: int| 0 <= a < b < unique_path_indices(paths, n).len() ==> paths[#[trigger] unique_path_indices(paths, n)[a]]
            != paths[#[trigger] unique_path_indices(paths, n)[b]],
    decreases n,
{
    if n > 0 {
        lemma_unique_paths_distinct(paths, n - 1);
        lemma_unique_paths_range(paths, n - 1);
        let prev = unique_path_indices(paths, n - 1);
        let cur = unique_path_indices(paths, n);
        assert forall|a: int, b: int| 0 <= a < b < cur.len() implies paths[#[trigger] cur[a]] != paths[#[trigger] cur[b]] by {
            if b < prev.len() {
                assert(cur[a] == prev[a] && cur[b] == prev[b]);
            } else {
                assert(cur[a] == prev[a] && cur[b] == n - 1);
                assert(0 <= prev[a] < n - 1);
            }
        }
    }
}

proof fn lemma_unique_paths_cover(paths: Seq<Seq<char>>, n: int)
    requires
        0 <= n <= paths.len(),
    ensures
        forall|i: int| 0 <= i < n ==> exists|a: int| 0 <= a < unique_path_indices(paths, n).len()
            && paths[#[trigger] unique_path_indices(paths, n)[a]] == #[trigger] paths[i],
    decreases n,
{
    if n > 0 {
        lemma_unique_paths_cover(paths, n - 1);
        let prev = unique_path_indices(paths, n - 1);
        let cur = unique_path_indices(paths, n);
        assert forall|i: int| 0 <= i < n implies exists|a: int| 0 <= a < cur.len() && paths[#[trigger] cur[a]] == #[trigger] paths[i] by {
            if i < n - 1 {
                let a = choose|a: int| 0 <= a < prev.len() && paths[#[trigger] prev[a]] == #[trigger] paths[i];
                assert(cur[a] == prev[a]);
            } else if first_of_path(paths, n - 1) {
                assert(cur[prev.len() as int] == n - 1);
            } else {
                let k = choose|k: int| 0 <= k < n - 1 && #[trigger] paths[k] == paths[n - 1];
                let a = choose|a: int| 0 <= a < prev.len() && paths[#[trigger] prev[a]] == #[trigger] paths[k];
                assert(cur[a] == prev[a]);
            }
        }
    }
}

/// The kept candidates have pairwise different source paths, come in input
/// order, and every source path of the input keeps one candidate.
pub proof fn lemma_unique_sources(paths: Seq<Seq<char>>)
    ensures
        forall|a: int| 0 <= a < unique_path_indices(paths, paths.len() as int).len() ==> 0
            <= #[trigger] unique_path_indices(paths, paths.len() as int)[a] < paths.len(),
        forall|a: int, b: int| 0 <= a < b < unique_path_indices(paths, paths.len() as int).len() ==> #[trigger] unique_path_indices(paths, paths.len() as int)[a]
            < #[trigger] unique_path_indices(paths, paths.len() as int)[b],
        forall|a: int, b: int| 0 <= a < b < unique_path_indices(paths, paths.len() as int).len() ==> paths[#[trigger] unique_path_indices(paths, paths.len() as int)[a]]
            != paths[#[trigger] unique_path_indices(paths, paths.len() as int)[b]],
        forall|i: int| 0 <= i < paths.len() ==> exists|a: int| 0 <= a < unique_path_indices(paths, paths.len() as int).len()
            && paths[#[trigger] unique_path_indices(paths, paths.len() as int)[a]] == #[trigger] paths[i],
{
    lemma_unique_paths_range(paths, paths.len() as int);
    lemma_unique_paths_distinct(paths, paths.len() as int);
    lemma_unique_paths_cover(paths, paths.len() as int);
}

/// The number of distinct source paths.
pub fn unique_candidate_source_count(paths: &Vec<String>) -> (r: usize)
    ensures
        r == unique_path_indices(paths.deep_view(), paths@.len() as int).len(),
{
    unique_source_path_indices(paths).len()
}

/// Discovery stops early once enough attempts ran and enough distinct
/// sources merged.
pub fn should_stop_candidate_discovery(attempted_count: usize, paths: &Vec<String>) -> (r: bool)
    ensures
        r == (attempted_count >= MIN_FLIGHT_CANDIDATE_DISCOVERY_ATTEMPTS_BEFORE_EARLY_STOP
            && unique_path_indices(paths.deep_view(), paths@.len() as int).len() >= MAX_FLIGHT_DISCOVERY_CANDIDATES),
{
    attempted_count >= MIN_FLIGHT_CANDIDATE_DISCOVERY_ATTEMPTS_BEFORE_EARLY_STOP
        && unique_candidate_source_count(paths) >= MAX_FLIGHT_DISCOVERY_CANDIDATES
}

/// Candidate `i` comes before candidate `j` in discovery order: smaller
/// priority first, then higher evidence coverage, then higher graph score,
/// then the earlier path, then the earlier anchor, then input order.
pub open spec fn discovery_before(s: Seq<DiscoveredCandidate>, i: int, j: int) -> bool {
    let (pi, pj) = (discovery_priority(s[i]), discovery_priority(s[j]));
    if pi != pj {
        pi < pj
    } else if s[i].evidence_key != s[j].evidence_key {
        s[i].evidence_key > s[j].evidence_key
    } else if s[i].graph_key != s[j].graph_key {
        s[i].graph_key > s[j].graph_key
    } else if s[i].relative_path@ != s[j].relative_path@ {
        lex_lt(s[i].relative_path@, s[j].relative_path@)
    } else if s[i].heading_anchor@ != s[j].heading_anchor@ {
        lex_lt(s[i].heading_anchor@, s[j].heading_anchor@)
    } else {
        i < j
    }
}

proof fn lemma_lex_order(a: Seq<char>, b: Seq<char>, c: Seq<char>)
    ensures
        a != b ==> lex_lt(a, b) || lex_lt(b, a),
        !(lex_lt(a, b) && lex_lt(b, a)),
        lex_lt(a, b) && lex_lt(b, c) ==> lex_lt(a, c),
        lex_lt(a, b) ==> a != b,
{
    crate::ordered::lemma_lex_total(a, b);
    crate::ordered::lemma_lex_irreflexive(a);
    if lex_lt(a, b) && lex_lt(b, a) {
        crate::ordered::lemma_lex_transitive(a, b, a);
    }
    if lex_lt(a, b) && lex_lt(b, c) {
        crate::ordered::lemma_lex_transitive(a, b, c);
    }
}

proof fn lemma_discovery_before_order(s: Seq<DiscoveredCandidate>, i: int, j: int, k: int)
    ensures
        i != j ==> discovery_before(s, i, j) || discovery_before(s, j, i),
        !(discovery_before(s, i, j) && discovery_before(s, j, i)),
        discovery_before(s, i, j) && discovery_before(s, j, k) ==> discovery_before(s, i, k),
{
    lemma_lex_order(s[i].relative_path@, s[j].relative_path@, s[k].relative_path@);
    lemma_lex_order(s[j].relative_path@, s[i].relative_path@, s[k].relative_path@);
    lemma_lex_order(s[i].relative_path@, s[k].relative_path@, s[j].relative_path@);
    lemma_lex_order(s[i].heading_anchor@, s[j].heading_anchor@, s[k].heading_anchor@);
    lemma_lex_order(s[j].heading_anchor@, s[i].heading_anchor@, s[k].heading_anchor@);
    lemma_lex_order(s[i].heading_anchor@, s[k].heading_anchor@, s[j].heading_anchor@);
}

/// An ordering of candidates: every index once, in discovery order.
pub open spec fn is_discovery_ranking(s: Seq<DiscoveredCandidate>, order: Seq<int>) -> bool {
    &&& order.len() == s.len()
    &&& forall|k: int| 0 <= k < order.len() ==> 0 <= #[trigger] order[k] < s.len()
    &&& forall|a: int, b: int| 0 <= a < b < order.len() ==> discovery_before(s, #[trigger] order[a], #[trigger] order[b])
}

/// In a discovery ranking, a candidate of smaller discovery priority comes
/// first; at equal priority the higher evidence key comes first; at equal
/// priority and evidence the higher graph key comes first.
pub proof fn lemma_discovery_ranking_order(s: Seq<DiscoveredCandidate>, order: Seq<int>, a: int, b: int)
    requires
        is_discovery_ranking(s, order),
        0 <= a < order.len(),
        0 <= b < order.len(),
    ensures
        ({
            let (x, y) = (s[order[a]], s[order[b]]);
            &&& discovery_priority(x) < discovery_priority(y) ==> a < b
            &&& discovery_priority(x) == discovery_priority(y) && x.evidence_key > y.evidence_key ==> a < b
            &&& discovery_priority(x) == discovery_priority(y) && x.evidence_key == y.evidence_key && x.graph_key
                > y.graph_key ==> a < b
        }),
{
    if b < a {
        assert(discovery_before(s, order[b], order[a]));
    }
}

fn discovery_before_exec(s: &Vec<DiscoveredCandidate>, prio: &Vec<u8>, i: usize, j: usize) -> (r: bool)
    requires
        i < s@.len(),
        j < s@.len(),
        prio@.len() == s@.len(),
        forall|k: int| 0 <= k < s@.len() ==> prio@[k] == discovery_priority(#[trigger] s@[k]),
    ensures
        r == discovery_before(s@, i as int, j as int),
{
    let (a, b) = (&s[i], &s[j]);
    assert(prio@[i as int] == discovery_priority(s@[i as int]));
    assert(prio@[j as int] == discovery_priority(s@[j as int]));
    if prio[i] != prio[j] {
        prio[i] < prio[j]
    } else if a.evidence_key != b.evidence_key {
        a.evidence_key > b.evidence_key
    } else if a.graph_key != b.graph_key {
        a.graph_key > b.graph_key
    } else {
        let pa = chars_of(a.relative_path.as_str());
        let pb = chars_of(b.relative_path.as_str());
        if !vec_eq(&pa, &pb) {
            crate::ordered::lex_less(&pa, &pb)
        } else {
            let ha = chars_of(a.heading_anchor.as_str());
            let hb = chars_of(b.heading_anchor.as_str());
            if !vec_eq(&ha, &hb) {
                crate::ordered::lex_less(&ha, &hb)
            } else {
                i < j
            }
        }
    }
}

/// Ranks the merged candidates: by discovery priority, then evidence
/// coverage and graph score (higher first), then path and anchor; returns
/// the indices in that order.
pub fn rank_candidate_discovery_results(cands: &Vec<DiscoveredCandidate>) -> (r: Vec<usize>)
    ensures
        is_discovery_ranking(cands@, r@.map_values(|k: usize| k as int)),
{
    let mut prio: Vec<u8> = Vec::new();
    let mut q: usize = 0;
    while q < cands.len()
        invariant
            q <= cands.len(),
            prio@.len() == q,
            forall|k: int| 0 <= k < q ==> prio@[k] == discovery_priority(#[trigger] cands@[k]),
        decreases cands.len() - q,
    {
        prio.push(candidate_discovery_priority(&cands[q]));
        q = q + 1;
    }
    let mut out: Vec<usize> = Vec::new();
    let mut i: usize = 0;
    while i < cands.len()
        invariant
            i <= cands.len(),
            prio@.len() == cands@.len(),
            forall|k: int| 0 <= k < cands@.len() ==> prio@[k] == discovery_priority(#[trigger] cands@[k]),
            out@.len() == i,
            forall|k: int| 0 <= k < out@.len() ==> #[trigger] out@[k] < i,
            forall|a: int, b: int| 0 <= a < b < out@.len() ==> discovery_before(cands@, #[trigger] out@[a] as int, #[trigger] out@[b] as int),
        decreases cands.len() - i,
    {
        let mut p: usize = 0;
        while p < out.len() && !discovery_before_exec(cands, &prio, i, out[p])
            invariant
                p <= out@.len(),
                i < cands@.len(),
                prio@.len() == cands@.len(),
                forall|k: int| 0 <= k < cands@.len() ==> prio@[k] == discovery_priority(#[trigger] cands@[k]),
                forall|k: int| 0 <= k < out@.len() ==> #[trigger] out@[k] < i,
                forall|k: int| 0 <= k < p ==> !discovery_before(cands@, i as int, #[trigger] out@[k] as int),
            decreases out@.len() - p,
        {
            p = p + 1;
        }
        let ghost before = out@;
        out.insert(p, i);
        proof {
            assert forall|a: int, b: int| 0 <= a < b < out@.len() implies discovery_before(cands@, #[trigger] out@[a] as int, #[trigger] out@[b] as int) by {
                if b < p {
                    assert(out@[a] == before[a] && out@[b] == before[b]);
                } else if b == p {
                    assert(out@[a] == before[a] && out@[b] == i);
                    lemma_discovery_before_order(cands@, i as int, before[a] as int, 0);
                } else if a == p {
                    assert(out@[a] == i && out@[b] == before[b - 1]);
                    if b - 1 > p {
                        lemma_discovery_before_order(cands@, i as int, before[p as int] as int, before[b - 1] as int);
                    }
                } else if a < p {
                    assert(out@[a] == before[a] && out@[b] == before[b - 1]);
                } else {
                    assert(out@[a] == before[a - 1] && out@[b] == before[b - 1]);
                }
            }
            assert forall|k: int| 0 <= k < out@.len() implies #[trigger] out@[k] < i + 1 by {
                if k < p {
                    assert(out@[k] == before[k]);
                } else if k > p {
                    assert(out@[k] == before[k - 1]);
                }
            }
        }
        i = i + 1;
    }
    out
}

/// The source paths of the candidates in the given order.
pub open spec fn ranked_paths(s: Seq<DiscoveredCandidate>, order: Seq<int>) -> Seq<Seq<char>> {
    order.map_values(|k: int| s[k].relative_path@)
}

/// What discovery hands on from a ranking: the best-ranked candidate of
/// each source path, in ranking order, at most `MAX_FLIGHT_DISCOVERY_CANDIDATES`.
pub open spec fn narrowed(s: Seq<DiscoveredCandidate>, order: Seq<int>) -> Seq<int> {
    let keep = unique_path_indices(ranked_paths(s, order), order.len() as int);
    let kept = if keep.len() > MAX_FLIGHT_DISCOVERY_CANDIDATES {
        keep.subrange(0, MAX_FLIGHT_DISCOVERY_CANDIDATES as int)
    } else {
        keep
    };
    kept.map_values(|a: int| order[a])
}

/// Ranks the merged candidates, keeps the best-ranked one of each source
/// path and at most `MAX_FLIGHT_DISCOVERY_CANDIDATES` of them; returns their
/// indices in ranking order. The ranking is a strict order, so it is the
/// only one.
pub fn narrow_candidate_discovery_results(cands: &Vec<DiscoveredCandidate>) -> (r: Vec<usize>)
    ensures
        exists|order: Seq<int>| #[trigger] is_discovery_ranking(cands@, order)
            && r@.map_values(|k: usize| k as int) == narrowed(cands@, order),
{
    let order = rank_candidate_discovery_results(cands);
    let ghost ord = order@.map_values(|k: usize| k as int);
    let mut paths: Vec<String> = Vec::new();
    let mut i: usize = 0;
    while i < order.len()
        invariant
            i <= order.len(),
            ord == order@.map_values(|k: usize| k as int),
            is_discovery_ranking(cands@, ord),
            paths.deep_view() == ranked_paths(cands@, ord).take(i as int),
        decreases order.len() - i,
    {
        let ghost before = paths.deep_view();
        assert(ord[i as int] == order@[i as int] as int);
        let k = order[i];
        paths.push(string_of(&chars_of(cands[k].relative_path.as_str())));
        assert(paths.deep_view() =~= before.push(cands@[k as int].relative_path@));
        assert(ranked_paths(cands@, ord).take(i + 1) =~= ranked_paths(cands@, ord).take(i as int).push(cands@[k as int].relative_path@));
        i = i + 1;
    }
    assert(ranked_paths(cands@, ord).take(order.len() as int) =~= ranked_paths(cands@, ord));
    assert(paths.deep_view().len() == paths@.len());
    let keep = unique_source_path_indices(&paths);
    let ghost kp = keep@.map_values(|k: usize| k as int);
    proof {
        assert(paths.deep_view() == ranked_paths(cands@, ord));
        assert(ord.len() == order@.len());
        lemma_unique_paths_range(ranked_paths(cands@, ord), ord.len() as int);
        assert forall|a: int| 0 <= a < keep@.len() implies 0 <= #[trigger] keep@[a] < order@.len() by {
            assert(kp[a] == keep@[a] as int);
        }
    }
    let n = if keep.len() > MAX_FLIGHT_DISCOVERY_CANDIDATES {
        MAX_FLIGHT_DISCOVERY_CANDIDATES
    } else {
        keep.len()
    };
    let ghost kept = if kp.len() > MAX_FLIGHT_DISCOVERY_CANDIDATES {
        kp.subrange(0, MAX_FLIGHT_DISCOVERY_CANDIDATES as int)
    } else {
        kp
    };
    assert(kept.len() == n);
    let mut r: Vec<usize> = Vec::new();
    let mut j: usize = 0;
    while j < n
        invariant
            j <= n,
            n <= keep@.len(),
            kept.len() == n,
            forall|a: int| 0 <= a < n ==> #[trigger] kept[a] == keep@[a] as int,
            forall|a: int| 0 <= a < keep@.len() ==> 0 <= #[trigger] keep@[a] < order@.len(),
            ord == order@.map_values(|k: usize| k as int),
            r@.map_values(|k: usize| k as int) == kept.take(j as int).map_values(|a: int| ord[a]),
        decreases n - j,
    {
        let ghost before = r@.map_values(|k: usize| k as int);
        let a = keep[j];
        r.push(order[a]);
        assert(r@.map_values(|k: usize| k as int) =~= before.push(ord[a as int]));
        assert(kept.take(j + 1).map_values(|a: int| ord[a]) =~= kept.take(j as int).map_values(|a: int| ord[a]).push(ord[kept[j as int]]));
        j = j + 1;
    }
    assert(kept.take(n as int) =~= kept);
    assert(is_discovery_ranking(cands@, ord));
    r
}

/// The narrowed candidates are at most `MAX_FLIGHT_DISCOVERY_CANDIDATES`,
/// come in ranking order, have pairwise different source paths, and, when
/// fewer than the cap, every ranked source path keeps one of them.
#[verifier::spinoff_prover]
pub proof fn lemma_narrowed_unique_sources(s: Seq<DiscoveredCandidate>, order: Seq<int>)
    requires
        is_discovery_ranking(s, order),
    ensures
        narrowed(s, order).len() <= MAX_FLIGHT_DISCOVERY_CANDIDATES,
        forall|a: int| 0 <= a < narrowed(s, order).len() ==> 0 <= #[trigger] narrowed(s, order)[a] < s.len(),
        forall|a: int, b: int| 0 <= a < b < narrowed(s, order).len() ==> discovery_before(s, #[trigger] narrowed(s, order)[a], #[trigger] narrowed(s, order)[b]),
        forall|a: int, b: int| 0 <= a < b < narrowed(s, order).len() ==> s[#[trigger] narrowed(s, order)[a]].relative_path@
            != s[#[trigger] narrowed(s, order)[b]].relative_path@,
        narrowed(s, order).len() < MAX_FLIGHT_DISCOVERY_CANDIDATES ==> forall|k: int| 0 <= k < order.len() ==> exists|a: int|
            0 <= a < narrowed(s, order).len() && s[#[trigger] narrowed(s, order)[a]].relative_path@ == #[trigger] s[order[k]].relative_path@,
{
    let rp = ranked_paths(s, order);
    assert(rp.len() == order.len());
    let keep = unique_path_indices(rp, order.len() as int);
    lemma_unique_sources(rp);
    let kept = if keep.len() > MAX_FLIGHT_DISCOVERY_CANDIDATES {
        keep.subrange(0, MAX_FLIGHT_DISCOVERY_CANDIDATES as int)
    } else {
        keep
    };
    let n = narrowed(s, order);
    assert(n == kept.map_values(|a: int| order[a]));
    assert forall|a: int| 0 <= a < n.len() implies 0 <= #[trigger] n[a] < s.len() by {
        assert(kept[a] == keep[a]);
        assert(0 <= keep[a] < order.len());
    }
    assert forall|a: int, b: int| 0 <= a < b < n.len() implies discovery_before(s, #[trigger] n[a], #[trigger] n[b]) by {
        assert(kept[a] == keep[a] && kept[b] == keep[b]);
        assert(keep[a] < keep[b]);
    }
    assert forall|a: int, b: int| 0 <= a < b < n.len() implies s[#[trigger] n[a]].relative_path@ != s[#[trigger] n[b]].relative_path@ by {
        assert(kept[a] == keep[a] && kept[b] == keep[b]);
        assert(rp[keep[a]] != rp[keep[b]]);
    }
    if n.len() < MAX_FLIGHT_DISCOVERY_CANDIDATES {
        assert(kept == keep);
        assert forall|k: int| 0 <= k < order.len() implies exists|a: int|
            0 <= a < n.len() && s[#[trigger] n[a]].relative_path@ == #[trigger] s[order[k]].relative_path@ by {
            assert(rp[k] == s[order[k]].relative_path@);
            let a = choose|a: int| 0 <= a < keep.len() && rp[#[trigger] keep[a]] == #[trigger] rp[k];
            assert(n[a] == order[keep[a]]);
            assert(rp[keep[a]] == s[order[keep[a]]].relative_path@);
        }
    }
}

proof fn lemma_unique_paths_first(paths: Seq<Seq<char>>, n: int)
    requires
        0 <= n <= paths.len(),
    ensures
        forall|a: int| 0 <= a < unique_path_indices(paths, n).len() ==> first_of_path(paths, #[trigger] unique_path_indices(paths, n)[a]),
    decreases n,
{
    if n > 0 {
        lemma_unique_paths_first(paths, n - 1);
        let prev = unique_path_indices(paths, n - 1);
        let cur = unique_path_indices(paths, n);
        assert forall|a: int| 0 <= a < cur.len() implies first_of_path(paths, #[trigger] cur[a]) by {
            if a < prev.len() {
                assert(cur[a] == prev[a]);
            }
        }
    }
}

/// Narrowing keeps the best candidate of each source path: no ranked
/// candidate of the same path has a smaller discovery priority, a higher
/// evidence key at equal priority, or a higher graph key at equal priority
/// and evidence.
pub proof fn lemma_narrowed_keeps_best_of_path(s: Seq<DiscoveredCandidate>, order: Seq<int>)
    requires
        is_discovery_ranking(s, order),
    ensures
        forall|a: int, k: int| 0 <= a < narrowed(s, order).len() && 0 <= k < order.len()
            && s[#[trigger] order[k]].relative_path@ == s[#[trigger] narrowed(s, order)[a]].relative_path@ ==> {
                let (x, y) = (s[narrowed(s, order)[a]], s[order[k]]);
                &&& !(discovery_priority(y) < discovery_priority(x))
                &&& !(discovery_priority(y) == discovery_priority(x) && y.evidence_key > x.evidence_key)
                &&& !(discovery_priority(y) == discovery_priority(x) && y.evidence_key == x.evidence_key
                    && y.graph_key > x.graph_key)
            },
{
    let rp = ranked_paths(s, order);
    let keep = unique_path_indices(rp, order.len() as int);
    lemma_unique_paths_range(rp, order.len() as int);
    lemma_unique_paths_first(rp, order.len() as int);
    let kept = if keep.len() > MAX_FLIGHT_DISCOVERY_CANDIDATES {
        keep.subrange(0, MAX_FLIGHT_DISCOVERY_CANDIDATES as int)
    } else {
        keep
    };
    let n = narrowed(s, order);
    assert(n == kept.map_values(|a: int| order[a]));
    assert forall|a: int, k: int| 0 <= a < n.len() && 0 <= k < order.len()
        && s[#[trigger] order[k]].relative_path@ == s[#[trigger] n[a]].relative_path@ implies {
            let (x, y) = (s[n[a]], s[order[k]]);
            &&& !(discovery_priority(y) < discovery_priority(x))
            &&& !(discovery_priority(y) == discovery_priority(x) && y.evidence_key > x.evidence_key)
            &&& !(discovery_priority(y) == discovery_priority(x) && y.evidence_key == x.evidence_key
                && y.graph_key > x.graph_key)
        } by {
        let p = keep[a];
        assert(kept[a] == p);
        assert(n[a] == order[p]);
        assert(0 <= p < order.len());
        assert(first_of_path(rp, p));
        assert(rp[k] == s[order[k]].relative_path@);
        assert(rp[p] == s[order[p]].relative_path@);
        if k < p {
            assert(rp[k] != rp[p]);
        }
        lemma_discovery_ranking_order(s, order, k, p);
    }
}

/// The label of one discovery attempt in the failure message.
pub open spec fn attempt_label(query: Seq<char>, path_prefix: Seq<char>) -> Seq<char> {
    "query=`"@ + query + "` prefix=`"@ + path_prefix + "`"@
}

/// The label of one discovery attempt.
pub fn candidate_discovery_attempt_label(query: &str, path_prefix: &str) -> (r: String)
    ensures
        r@ == attempt_label(query@, path_prefix@),
{
    let mut m = "query=`".to_owned();
    m.append(query);
    m.append("` prefix=`");
    m.append(path_prefix);
    m.append("`");
    m
}

/// The failure of a discovery that merged no candidate.
pub fn zero_candidates_message(attempted: &Vec<Vec<char>>) -> (r: String)
    ensures
        r@ == "SearchStrategyFlow repo-search candidate discovery returned zero page-index-ready candidate rows after "@
            + decimal(attempted@.len() as nat) + " attempts: "@ + join(seqs_of(attempted@), "; "@),
{
    let mut m = "SearchStrategyFlow repo-search candidate discovery returned zero page-index-ready candidate rows after ".to_owned();
    m.append(decimal_text(attempted.len()).as_str());
    m.append(" attempts: ");
    let joined = string_of(&join_vecs(attempted, &lit("; ")));
    m.append(joined.as_str());
    m
}

} // verus!
