//! Route families of discovered section candidates, and the route-diverse
//! choice of the frontier seeds that `SearchStrategyFlow` receives.
use vstd::prelude::*;
use crate::ordered::lex_lt;
use crate::text::{
    chars_of, concat2, contains, contains_vec, lit, lower_seq, seqs_of, starts_with, starts_with_vec,
    to_ascii_lowercase_vec, vec_eq,
};

verus! {

/// The route families that the frontier tries to cover, in seeding order.
#[derive(Clone, Copy, Debug, PartialEq, Eq, Structural)]
pub enum CandidateRoute {
    /// `SearchStrategyFlow` and search documents.
    SearchStrategy,
    /// Ownership and source-authority documents.
    Authority,
    /// `PageIndex` reasoning-tree documents.
    PageIndex,
    /// Link-graph documents.
    LinkGraph,
    /// Validation documents.
    Validation,
}

/// The seeding order of the route families.
pub open spec fn route_at(k: int) -> CandidateRoute {
    if k == 0 {
        CandidateRoute::SearchStrategy
    } else if k == 1 {
        CandidateRoute::Authority
    } else if k == 2 {
        CandidateRoute::PageIndex
    } else if k == 3 {
        CandidateRoute::LinkGraph
    } else {
        CandidateRoute::Validation
    }
}

fn route_at_exec(k: usize) -> (r: CandidateRoute)
    ensures
        r == route_at(k as int),
{
    if k == 0 {
        CandidateRoute::SearchStrategy
    } else if k == 1 {
        CandidateRoute::Authority
    } else if k == 2 {
        CandidateRoute::PageIndex
    } else if k == 3 {
        CandidateRoute::LinkGraph
    } else {
        CandidateRoute::Validation
    }
}

/// A discovered section candidate as routing and seeding read it.
#[derive(Clone, Debug, PartialEq, Eq)]
pub struct RankedSectionCandidate {
    /// Repo-relative path of the Markdown file.
    pub relative_path: String,
    /// Heading anchor of the section.
    pub heading_anchor: String,
    /// Heading title of the section.
    pub title: String,
    /// First line of the section.
    pub line_start: usize,
    /// Context cost of the section.
    pub context_cost: usize,
    /// Ranking of the candidate: a larger key is a higher ranking score.
    pub ranking_key: u64,
}

/// The lowercased path, title and anchor joined by spaces.
pub open spec fn combined_text(c: RankedSectionCandidate) -> Seq<char> {
    lower_seq(c.relative_path@) + " "@ + lower_seq(c.title@) + " "@ + lower_seq(c.heading_anchor@)
}

/// Whether a candidate belongs to a route family, read off its lowercased
/// path, title and anchor.
pub open spec fn matches_route(c: RankedSectionCandidate, route: CandidateRoute) -> bool {
    let path = lower_seq(c.relative_path@);
    let title = lower_seq(c.title@);
    let combined = combined_text(c);
    match route {
        CandidateRoute::SearchStrategy => contains(path, "30_search_strategy"@) || contains(path, "search"@)
            || contains(title, "search"@) || contains(combined, "searchstrategyflow"@) || contains(
            combined,
            "search_strategy"@,
        ) || contains(combined, "search-strategy"@) || contains(combined, "strategy flow"@),
        CandidateRoute::Authority => starts_with(path, "docs/rfcs/"@) || path == "agents.md"@
            || starts_with(path, "docs/standards/"@) || contains(combined, "ownership"@) || contains(
            combined,
            "authority"@,
        ) || contains(combined, "boundary"@) || contains(combined, "source authority"@),
        CandidateRoute::PageIndex => contains(path, "20_page_index"@) || contains(combined, "pageindex"@)
            || contains(combined, "page_index"@) || contains(combined, "page-index"@) || contains(
            combined,
            "page index"@,
        ) || contains(combined, "reasoning tree"@) || contains(combined, "reasoning-tree"@),
        CandidateRoute::LinkGraph => contains(path, "10_graph_compute"@) || contains(combined, "linkgraph"@)
            || contains(combined, "link_graph"@) || contains(combined, "link-graph"@) || contains(
            combined,
            "link graph"@,
        ) || contains(combined, "graph compute"@) || contains(combined, "relation fanout"@),
        CandidateRoute::Validation => contains(path, "90_validation"@) || starts_with(path, "docs/testing/"@)
            || starts_with(path, "docs/developer/"@) || contains(combined, "validation"@) || contains(
            combined,
            "test proof"@,
        ) || contains(combined, "performance gate"@),
    }
}

fn has(hay: &[char], needle: &str) -> (b: bool)
    ensures
        b == contains(hay@, needle@),
{
    contains_vec(hay, &lit(needle))
}

fn lowered(s: &String) -> (r: Vec<char>)
    ensures
        r@ == lower_seq(s@),
{
    to_ascii_lowercase_vec(&chars_of(s.as_str()))
}

/// Whether a candidate belongs to a route family.
pub fn candidate_matches_route(c: &RankedSectionCandidate, route: CandidateRoute) -> (b: bool)
    ensures
        b == matches_route(*c, route),
{
    let path = lowered(&c.relative_path);
    let title = lowered(&c.title);
    let anchor = lowered(&c.heading_anchor);
    let c1 = concat2(&path, &lit(" "));
    let c2 = concat2(&c1, &title);
    let c3 = concat2(&c2, &lit(" "));
    let combined = concat2(&c3, &anchor);
    assert(combined@ == combined_text(*c));
    match route {
        CandidateRoute::SearchStrategy => has(&path, "30_search_strategy") || has(&path, "search") || has(
            &title,
            "search",
        ) || has(&combined, "searchstrategyflow") || has(&combined, "search_strategy") || has(
            &combined,
            "search-strategy",
        ) || has(&combined, "strategy flow"),
        CandidateRoute::Authority => starts_with_vec(&path, &lit("docs/rfcs/")) || vec_eq(&path, &lit("agents.md"))
            || starts_with_vec(&path, &lit("docs/standards/")) || has(&combined, "ownership") || has(
            &combined,
            "authority",
        ) || has(&combined, "boundary") || has(&combined, "source authority"),
        CandidateRoute::PageIndex => has(&path, "20_page_index") || has(&combined, "pageindex") || has(
            &combined,
            "page_index",
        ) || has(&combined, "page-index") || has(&combined, "page index") || has(
            &combined,
            "reasoning tree",
        ) || has(&combined, "reasoning-tree"),
        CandidateRoute::LinkGraph => has(&path, "10_graph_compute") || has(&combined, "linkgraph") || has(
            &combined,
            "link_graph",
        ) || has(&combined, "link-graph") || has(&combined, "link graph") || has(
            &combined,
            "graph compute",
        ) || has(&combined, "relation fanout"),
        CandidateRoute::Validation => has(&path, "90_validation") || starts_with_vec(&path, &lit("docs/testing/"))
            || starts_with_vec(&path, &lit("docs/developer/")) || has(&combined, "validation") || has(
            &combined,
            "test proof",
        ) || has(&combined, "performance gate"),
    }
}

/// 1 when the text holds one of the markers, else 0.
pub open spec fn any_of(t: Seq<char>, markers: Seq<Seq<char>>) -> int {
    if exists|i: int| 0 <= i < markers.len() && contains(t, #[trigger] markers[i]) {
        1
    } else {
        0
    }
}

fn any_of_exec(t: &[char], markers: &[&str]) -> (r: i64)
    ensures
        r == any_of(t@, markers@.map_values(|m: &str| m@)),
{
    let ghost ms = markers@.map_values(|m: &str| m@);
    let mut i: usize = 0;
    while i < markers.len()
        invariant
            i <= markers.len(),
            ms == markers@.map_values(|m: &str| m@),
            forall|j: int| 0 <= j < i ==> !contains(t@, #[trigger] ms[j]),
        decreases markers.len() - i,
    {
        if contains_vec(t, &lit(markers[i])) {
            assert(contains(t@, ms[i as int]));
            return 1;
        }
        i = i + 1;
    }
    0
}

/// The lowercased path and anchor joined by a space.
pub open spec fn quality_text(c: RankedSectionCandidate) -> Seq<char> {
    lower_seq(c.relative_path@) + " "@ + lower_seq(c.heading_anchor@)
}

/// How well a candidate fits a route family, in tenths: each group of markers
/// found in the lowercased path and anchor adds (or takes away) its weight.
pub open spec fn route_quality(c: RankedSectionCandidate, route: CandidateRoute) -> int {
    let t = quality_text(c);
    match route {
        CandidateRoute::SearchStrategy => any_of(
            t,
            seq!["query-understanding"@, "query_understanding"@, "precision-pruning"@, "precision_pruning"@],
        ) * 14 + any_of(t, seq!["search-strategy-flow"@, "search_strategy_flow"@, "searchstrategyflow"@]) * 10,
        CandidateRoute::Authority => any_of(t, seq!["docs/rfcs/"@]) * 12 + any_of(
            t,
            seq!["2026-03-26-wendao-query-engine-rfc"@, "polyglot-compute-orchestrator"@],
        ) * 12 + any_of(t, seq!["ownership-boundary"@, "source-authority"@, "source authority"@]) * 10
            + any_of(t, seq!["current-ownership-matrix"@]) * 6 - any_of(
            t,
            seq!["sql-validation"@, "cognitive-policy"@],
        ) * 4,
        CandidateRoute::PageIndex => any_of(t, seq!["reasoning-tree-contracts"@, "reasoning_tree_contracts"@])
            * 12 + any_of(t, seq!["reasoning-tree"@, "reasoning_tree"@]) * 10 + any_of(
            t,
            seq!["request-tables"@, "response-tables"@, "planner-actions"@],
        ) * 5 - any_of(t, seq!["not-the-owner"@, "not-owner"@, "traces-it-is-not"@]) * 12,
        CandidateRoute::LinkGraph => any_of(
            t,
            seq!["pageindex-style-reasoning-tree"@, "page-index-style-reasoning-tree"@],
        ) * 14 + any_of(
            t,
            seq![
                "how-this-helps-linkgraph-search"@,
                "relation"@,
                "semantic-fanout"@,
                "hnsw"@,
                "ppr"@,
                "community"@,
                "graph-search"@,
            ],
        ) * 10,
        CandidateRoute::Validation => any_of(
            t,
            seq![
                "docs/testing/readme.md"@,
                "docs/developer/testing.md"@,
                "default-validation-path"@,
                "local-validation"@,
                "ci-test-proof"@,
            ],
        ) * 17 + any_of(t, seq!["validation"@, "promotion"@, "gate"@, "proof"@]) * 10,
    }
}

/// How well a candidate fits a route family, in tenths.
pub fn candidate_route_quality(c: &RankedSectionCandidate, route: CandidateRoute) -> (r: i64)
    ensures
        r == route_quality(*c, route),
{
    let path = lowered(&c.relative_path);
    let anchor = lowered(&c.heading_anchor);
    let t0 = concat2(&path, &lit(" "));
    let t = concat2(&t0, &anchor);
    assert(t@ == quality_text(*c));
    match route {
        CandidateRoute::SearchStrategy => {
            let a = any_of_exec(
                &t,
                &["query-understanding", "query_understanding", "precision-pruning", "precision_pruning"],
            );
            let b = any_of_exec(&t, &["search-strategy-flow", "search_strategy_flow", "searchstrategyflow"]);
            assert(["query-understanding", "query_understanding", "precision-pruning", "precision_pruning"]@.map_values(|m: &str| m@) =~= seq!["query-understanding"@, "query_understanding"@, "precision-pruning"@, "precision_pruning"@]);
            assert(["search-strategy-flow", "search_strategy_flow", "searchstrategyflow"]@.map_values(|m: &str| m@) =~= seq!["search-strategy-flow"@, "search_strategy_flow"@, "searchstrategyflow"@]);
            a * 14 + b * 10
        },
        CandidateRoute::Authority => {
            let a = any_of_exec(&t, &["docs/rfcs/"]);
            let b = any_of_exec(&t, &["2026-03-26-wendao-query-engine-rfc", "polyglot-compute-orchestrator"]);
            let c1 = any_of_exec(&t, &["ownership-boundary", "source-authority", "source authority"]);
            let d = any_of_exec(&t, &["current-ownership-matrix"]);
            let e = any_of_exec(&t, &["sql-validation", "cognitive-policy"]);
            assert(["docs/rfcs/"]@.map_values(|m: &str| m@) =~= seq!["docs/rfcs/"@]);
            assert(["2026-03-26-wendao-query-engine-rfc", "polyglot-compute-orchestrator"]@.map_values(|m: &str| m@) =~= seq!["2026-03-26-wendao-query-engine-rfc"@, "polyglot-compute-orchestrator"@]);
            assert(["ownership-boundary", "source-authority", "source authority"]@.map_values(|m: &str| m@) =~= seq!["ownership-boundary"@, "source-authority"@, "source authority"@]);
            assert(["current-ownership-matrix"]@.map_values(|m: &str| m@) =~= seq!["current-ownership-matrix"@]);
            assert(["sql-validation", "cognitive-policy"]@.map_values(|m: &str| m@) =~= seq!["sql-validation"@, "cognitive-policy"@]);
            a * 12 + b * 12 + c1 * 10 + d * 6 - e * 4
        },
        CandidateRoute::PageIndex => {
            let a = any_of_exec(&t, &["reasoning-tree-contracts", "reasoning_tree_contracts"]);
            let b = any_of_exec(&t, &["reasoning-tree", "reasoning_tree"]);
            let c1 = any_of_exec(&t, &["request-tables", "response-tables", "planner-actions"]);
            let d = any_of_exec(&t, &["not-the-owner", "not-owner", "traces-it-is-not"]);
            assert(["reasoning-tree-contracts", "reasoning_tree_contracts"]@.map_values(|m: &str| m@) =~= seq!["reasoning-tree-contracts"@, "reasoning_tree_contracts"@]);
            assert(["reasoning-tree", "reasoning_tree"]@.map_values(|m: &str| m@) =~= seq!["reasoning-tree"@, "reasoning_tree"@]);
            assert(["request-tables", "response-tables", "planner-actions"]@.map_values(|m: &str| m@) =~= seq!["request-tables"@, "response-tables"@, "planner-actions"@]);
            assert(["not-the-owner", "not-owner", "traces-it-is-not"]@.map_values(|m: &str| m@) =~= seq!["not-the-owner"@, "not-owner"@, "traces-it-is-not"@]);
            a * 12 + b * 10 + c1 * 5 - d * 12
        },
        CandidateRoute::LinkGraph => {
            let a = any_of_exec(&t, &["pageindex-style-reasoning-tree", "page-index-style-reasoning-tree"]);
            let b = any_of_exec(
                &t,
                &[
                    "how-this-helps-linkgraph-search",
                    "relation",
                    "semantic-fanout",
                    "hnsw",
                    "ppr",
                    "community",
                    "graph-search",
                ],
            );
            assert(["pageindex-style-reasoning-tree", "page-index-style-reasoning-tree"]@.map_values(|m: &str| m@) =~= seq!["pageindex-style-reasoning-tree"@, "page-index-style-reasoning-tree"@]);
            assert([
                "how-this-helps-linkgraph-search",
                "relation",
                "semantic-fanout",
                "hnsw",
                "ppr",
                "community",
                "graph-search",
            ]@.map_values(|m: &str| m@) =~= seq![
                "how-this-helps-linkgraph-search"@,
                "relation"@,
                "semantic-fanout"@,
                "hnsw"@,
                "ppr"@,
                "community"@,
                "graph-search"@,
            ]);
            a * 14 + b * 10
        },
        CandidateRoute::Validation => {
            let a = any_of_exec(
                &t,
                &[
                    "docs/testing/readme.md",
                    "docs/developer/testing.md",
                    "default-validation-path",
                    "local-validation",
                    "ci-test-proof",
                ],
            );
            let b = any_of_exec(&t, &["validation", "promotion", "gate", "proof"]);
            assert([
                "docs/testing/readme.md",
                "docs/developer/testing.md",
                "default-validation-path",
                "local-validation",
                "ci-test-proof",
            ]@.map_values(|m: &str| m@) =~= seq![
                "docs/testing/readme.md"@,
                "docs/developer/testing.md"@,
                "default-validation-path"@,
                "local-validation"@,
                "ci-test-proof"@,
            ]);
            assert(["validation", "promotion", "gate", "proof"]@.map_values(|m: &str| m@) =~= seq!["validation"@, "promotion"@, "gate"@, "proof"@]);
            a * 17 + b * 10
        },
    }
}

/// The key that tells candidates apart: `path#anchor`.
pub open spec fn candidate_key(c: RankedSectionCandidate) -> Seq<char> {
    c.relative_path@ + "#"@ + c.heading_anchor@
}

/// The key of a candidate.
pub fn candidate_input_key(c: &RankedSectionCandidate) -> (r: Vec<char>)
    ensures
        r@ == candidate_key(*c),
{
    let p = concat2(&chars_of(c.relative_path.as_str()), &lit("#"));
    concat2(&p, &chars_of(c.heading_anchor.as_str()))
}

/// `a` ranks above `b` as the seed of a route: better route quality, then a
/// higher ranking, then a smaller context cost, then the earlier path, then
/// the earlier line.
pub open spec fn seed_above(route: CandidateRoute, a: RankedSectionCandidate, b: RankedSectionCandidate) -> bool {
    let (qa, qb) = (route_quality(a, route), route_quality(b, route));
    if qa != qb {
        qa > qb
    } else if a.ranking_key != b.ranking_key {
        a.ranking_key > b.ranking_key
    } else if a.context_cost != b.context_cost {
        a.context_cost < b.context_cost
    } else if a.relative_path@ != b.relative_path@ {
        lex_lt(a.relative_path@, b.relative_path@)
    } else {
        a.line_start < b.line_start
    }
}

fn seed_above_exec(route: CandidateRoute, a: &RankedSectionCandidate, b: &RankedSectionCandidate) -> (r: bool)
    ensures
        r == seed_above(route, *a, *b),
{
    let qa = candidate_route_quality(a, route);
    let qb = candidate_route_quality(b, route);
    if qa != qb {
        qa > qb
    } else if a.ranking_key != b.ranking_key {
        a.ranking_key > b.ranking_key
    } else if a.context_cost != b.context_cost {
        a.context_cost < b.context_cost
    } else {
        let pa = chars_of(a.relative_path.as_str());
        let pb = chars_of(b.relative_path.as_str());
        if !vec_eq(&pa, &pb) {
            crate::ordered::lex_less(&pa, &pb)
        } else {
            a.line_start < b.line_start
        }
    }
}

/// A candidate can seed a route: its key is not taken and it belongs to the route.
pub open spec fn seed_eligible(c: RankedSectionCandidate, keys: Set<Seq<char>>, route: CandidateRoute) -> bool {
    !keys.contains(candidate_key(c)) && matches_route(c, route)
}

/// The seed of a route among the first `n` candidates: the eligible candidate
/// that ranks highest, the last of equals (as `Iterator::max_by` picks it).
pub open spec fn best_seed(scored: Seq<RankedSectionCandidate>, keys: Set<Seq<char>>, route: CandidateRoute, n: int) -> Option<int>
    decreases n,
{
    if n <= 0 {
        None
    } else {
        let prev = best_seed(scored, keys, route, n - 1);
        if seed_eligible(scored[n - 1], keys, route) {
            match prev {
                Some(b) => if seed_above(route, scored[b], scored[n - 1]) {
                    Some(b)
                } else {
                    Some(n - 1)
                },
                None => Some(n - 1),
            }
        } else {
            prev
        }
    }
}

/// Selection state: chosen candidate indices, and the keys taken.
pub open spec fn take_candidate(st: (Seq<int>, Set<Seq<char>>), scored: Seq<RankedSectionCandidate>, i: int) -> (Seq<int>, Set<Seq<char>>) {
    if st.1.contains(candidate_key(scored[i])) {
        st
    } else {
        (st.0.push(i), st.1.insert(candidate_key(scored[i])))
    }
}

/// The state after seeding the first `r` route families, while the budget lasts.
pub open spec fn seeded(scored: Seq<RankedSectionCandidate>, max: nat, r: int) -> (Seq<int>, Set<Seq<char>>)
    decreases r,
{
    if r <= 0 {
        (Seq::empty(), Set::empty())
    } else {
        let st = seeded(scored, max, r - 1);
        if st.0.len() >= max {
            st
        } else {
            match best_seed(scored, st.1, route_at(r - 1), scored.len() as int) {
                Some(i) => take_candidate(st, scored, i),
                None => st,
            }
        }
    }
}

/// The state after the seeds and then the first `n` candidates in ranking
/// order, while the budget lasts.
pub open spec fn filled(scored: Seq<RankedSectionCandidate>, max: nat, n: int) -> (Seq<int>, Set<Seq<char>>)
    decreases n,
{
    if n <= 0 {
        seeded(scored, max, 5)
    } else {
        let st = filled(scored, max, n - 1);
        if st.0.len() >= max {
            st
        } else {
            take_candidate(st, scored, n - 1)
        }
    }
}

/// The route-diverse frontier: one seed per route family in seeding order,
/// then the best-ranked rest, never two candidates with one key, at most `max`.
pub open spec fn route_diverse_selection(scored: Seq<RankedSectionCandidate>, max: nat) -> Seq<int> {
    filled(scored, max, scored.len() as int).0
}

fn best_seed_exec(scored: &Vec<RankedSectionCandidate>, keys: &Vec<Vec<char>>, route: CandidateRoute) -> (r: Option<usize>)
    ensures
        r matches Some(i) ==> i < scored@.len(),
        match (r, best_seed(scored@, seqs_of(keys@).to_set(), route, scored@.len() as int)) {
            (Some(i), Some(j)) => i == j,
            (None, None) => true,
            _ => false,
        },
{
    let ghost ks = seqs_of(keys@).to_set();
    let mut best: Option<usize> = None;
    let mut n: usize = 0;
    while n < scored.len()
        invariant
            n <= scored.len(),
            ks == seqs_of(keys@).to_set(),
            best matches Some(i) ==> i < n,
            match (best, best_seed(scored@, ks, route, n as int)) {
                (Some(i), Some(j)) => i == j,
                (None, None) => true,
                _ => false,
            },
        decreases scored.len() - n,
    {
        let key = candidate_input_key(&scored[n]);
        let taken = crate::text::list_contains(keys, &key);
        assert(taken == ks.contains(candidate_key(scored@[n as int])));
        if !taken && candidate_matches_route(&scored[n], route) {
            best = match best {
                Some(b) => if seed_above_exec(route, &scored[b], &scored[n]) {
                    Some(b)
                } else {
                    Some(n)
                },
                None => Some(n),
            };
        }
        n = n + 1;
    }
    best
}

fn take_candidate_exec(
    scored: &Vec<RankedSectionCandidate>,
    i: usize,
    selected: &mut Vec<usize>,
    keys: &mut Vec<Vec<char>>,
)
    requires
        i < scored@.len(),
    ensures
        ({
            let st = take_candidate((old(selected)@.map_values(|k: usize| k as int), seqs_of(old(keys)@).to_set()), scored@, i as int);
            &&& final(selected)@.map_values(|k: usize| k as int) == st.0
            &&& seqs_of(final(keys)@).to_set() == st.1
        }),
{
    let key = candidate_input_key(&scored[i]);
    if !crate::text::list_contains(keys, &key) {
        let ghost before_keys = seqs_of(keys@);
        let ghost before_sel = selected@.map_values(|k: usize| k as int);
        keys.push(key);
        selected.push(i);
        assert(seqs_of(keys@) =~= before_keys.push(key@));
        assert(selected@.map_values(|k: usize| k as int) =~= before_sel.push(i as int));
        assert(seqs_of(keys@).to_set() =~= before_keys.to_set().insert(key@)) by {
            assert forall|t: Seq<char>| seqs_of(keys@).to_set().contains(t) <==> before_keys.to_set().insert(key@).contains(t) by {
                if seqs_of(keys@).contains(t) {
                    let k = choose|k: int| 0 <= k < seqs_of(keys@).len() && seqs_of(keys@)[k] == t;
                    if k < before_keys.len() {
                        assert(before_keys[k] == t);
                    }
                }
                if before_keys.contains(t) {
                    let k = choose|k: int| 0 <= k < before_keys.len() && before_keys[k] == t;
                    assert(seqs_of(keys@)[k] == t);
                }
                if t == key@ {
                    assert(seqs_of(keys@)[before_keys.len() as int] == t);
                }
            }
        }
    }
}

/// Picks the route-diverse frontier seeds: for each route family in turn the
/// best eligible candidate, then the rest in ranking order, while fewer than
/// `max_candidates` are chosen. Returns indices into `scored`.
pub fn select_route_diverse_candidates(scored: &Vec<RankedSectionCandidate>, max_candidates: usize) -> (r: Vec<usize>)
    ensures
        r@.map_values(|k: usize| k as int) == route_diverse_selection(scored@, max_candidates as nat),
{
    let mut selected: Vec<usize> = Vec::new();
    let mut keys: Vec<Vec<char>> = Vec::new();
    assert(selected@.map_values(|k: usize| k as int) =~= Seq::<int>::empty());
    assert(seqs_of(keys@).to_set() =~= Set::<Seq<char>>::empty());
    let mut r: usize = 0;
    while r < 5
        invariant
            r <= 5,
            selected@.map_values(|k: usize| k as int) == seeded(scored@, max_candidates as nat, r as int).0,
            seqs_of(keys@).to_set() == seeded(scored@, max_candidates as nat, r as int).1,
        decreases 5 - r,
    {
        if selected.len() < max_candidates {
            let route = route_at_exec(r);
            match best_seed_exec(scored, &keys, route) {
                Some(i) => take_candidate_exec(scored, i, &mut selected, &mut keys),
                None => {},
            }
        }
        r = r + 1;
    }
    let mut n: usize = 0;
    while n < scored.len()
        invariant
            n <= scored.len(),
            selected@.map_values(|k: usize| k as int) == filled(scored@, max_candidates as nat, n as int).0,
            seqs_of(keys@).to_set() == filled(scored@, max_candidates as nat, n as int).1,
        decreases scored.len() - n,
    {
        if selected.len() < max_candidates {
            take_candidate_exec(scored, n, &mut selected, &mut keys);
        }
        n = n + 1;
    }
    selected
}

/// A selection state is sound: within budget, valid indices, keys taken
/// exactly by the chosen candidates, no key twice.
pub open spec fn selection_sound(scored: Seq<RankedSectionCandidate>, max: nat, st: (Seq<int>, Set<Seq<char>>)) -> bool {
    &&& st.0.len() <= max
    &&& forall|k: int| 0 <= k < st.0.len() ==> 0 <= #[trigger] st.0[k] < scored.len()
    &&& forall|t: Seq<char>| st.1.contains(t) <==> exists|k: int| 0 <= k < st.0.len() && candidate_key(scored[#[trigger] st.0[k]]) == t
    &&& forall|a: int, b: int| 0 <= a < b < st.0.len() ==> candidate_key(scored[#[trigger] st.0[a]]) != candidate_key(scored[#[trigger] st.0[b]])
}

proof fn lemma_best_seed_in_range(scored: Seq<RankedSectionCandidate>, keys: Set<Seq<char>>, route: CandidateRoute, n: int)
    ensures
        best_seed(scored, keys, route, n) matches Some(i) ==> 0 <= i < n,
    decreases n,
{
    if n > 0 {
        lemma_best_seed_in_range(scored, keys, route, n - 1);
    }
}

proof fn lemma_take_sound(scored: Seq<RankedSectionCandidate>, max: nat, st: (Seq<int>, Set<Seq<char>>), i: int)
    requires
        selection_sound(scored, max, st),
        st.0.len() < max,
        0 <= i < scored.len(),
    ensures
        selection_sound(scored, max, take_candidate(st, scored, i)),
{
    if !st.1.contains(candidate_key(scored[i])) {
        let n = take_candidate(st, scored, i);
        assert forall|k: int| 0 <= k < n.0.len() implies 0 <= #[trigger] n.0[k] < scored.len() by {
            if k < st.0.len() {
                assert(n.0[k] == st.0[k]);
            }
        }
        assert forall|t: Seq<char>| n.1.contains(t) <==> exists|k: int| 0 <= k < n.0.len() && candidate_key(scored[#[trigger] n.0[k]]) == t by {
            if n.1.contains(t) {
                if t == candidate_key(scored[i]) {
                    assert(n.0[st.0.len() as int] == i);
                } else {
                    let k = choose|k: int| 0 <= k < st.0.len() && candidate_key(scored[#[trigger] st.0[k]]) == t;
                    assert(n.0[k] == st.0[k]);
                }
            }
            if exists|k: int| 0 <= k < n.0.len() && candidate_key(scored[#[trigger] n.0[k]]) == t {
                let k = choose|k: int| 0 <= k < n.0.len() && candidate_key(scored[#[trigger] n.0[k]]) == t;
                if k < st.0.len() {
                    assert(n.0[k] == st.0[k]);
                }
            }
        }
        assert forall|a: int, b: int| 0 <= a < b < n.0.len() implies candidate_key(scored[#[trigger] n.0[a]]) != candidate_key(scored[#[trigger] n.0[b]]) by {
            assert(n.0[a] == st.0[a]);
            if b < st.0.len() {
                assert(n.0[b] == st.0[b]);
            } else {
                assert(st.1.contains(candidate_key(scored[st.0[a]])));
            }
        }
    }
}

proof fn lemma_seeded_sound(scored: Seq<RankedSectionCandidate>, max: nat, r: int)
    ensures
        selection_sound(scored, max, seeded(scored, max, r)),
    decreases r,
{
    if r <= 0 {
        let st = seeded(scored, max, r);
        assert(st.1 =~= Set::<Seq<char>>::empty());
    } else {
        lemma_seeded_sound(scored, max, r - 1);
        let st = seeded(scored, max, r - 1);
        if st.0.len() < max {
            lemma_best_seed_in_range(scored, st.1, route_at(r - 1), scored.len() as int);
            match best_seed(scored, st.1, route_at(r - 1), scored.len() as int) {
                Some(i) => lemma_take_sound(scored, max, st, i),
                None => {},
            }
        }
    }
}

proof fn lemma_filled_sound(scored: Seq<RankedSectionCandidate>, max: nat, n: int)
    requires
        n <= scored.len(),
    ensures
        selection_sound(scored, max, filled(scored, max, n)),
    decreases n,
{
    if n <= 0 {
        lemma_seeded_sound(scored, max, 5);
    } else {
        lemma_filled_sound(scored, max, n - 1);
        let st = filled(scored, max, n - 1);
        if st.0.len() < max {
            lemma_take_sound(scored, max, st, n - 1);
        }
    }
}

/// The route-diverse frontier never exceeds its budget, only points at given
/// candidates, and never holds two candidates with the same `path#anchor` key.
pub proof fn lemma_route_diverse_selection_sound(scored: Seq<RankedSectionCandidate>, max: nat)
    ensures
        route_diverse_selection(scored, max).len() <= max,
        forall|k: int| 0 <= k < route_diverse_selection(scored, max).len() ==> 0 <= #[trigger] route_diverse_selection(scored, max)[k] < scored.len(),
        forall|a: int, b: int| 0 <= a < b < route_diverse_selection(scored, max).len() ==> candidate_key(scored[#[trigger] route_diverse_selection(scored, max)[a]])
            != candidate_key(scored[#[trigger] route_diverse_selection(scored, max)[b]]),
{
    lemma_filled_sound(scored, max, scored.len() as int);
}

/// Every candidate key of the input is taken once the budget allows it: when
/// fewer than `max` candidates were chosen, every key of the input occurs among them.
pub proof fn lemma_route_diverse_selection_covers(scored: Seq<RankedSectionCandidate>, max: nat)
    ensures
        route_diverse_selection(scored, max).len() < max ==> forall|i: int| 0 <= i < scored.len() ==> exists|k: int|
            0 <= k < route_diverse_selection(scored, max).len() && candidate_key(scored[#[trigger] route_diverse_selection(scored, max)[k]]) == candidate_key(#[trigger] scored[i]),
{
    lemma_filled_covers(scored, max, scored.len() as int);
}

proof fn lemma_filled_covers(scored: Seq<RankedSectionCandidate>, max: nat, n: int)
    requires
        0 <= n <= scored.len(),
    ensures
        filled(scored, max, n).0.len() < max ==> forall|i: int| 0 <= i < n ==> filled(scored, max, n).1.contains(candidate_key(#[trigger] scored[i])),
        selection_sound(scored, max, filled(scored, max, n)),
        filled(scored, max, n).0.len() < max ==> forall|i: int| 0 <= i < n ==> exists|k: int|
            0 <= k < filled(scored, max, n).0.len() && candidate_key(scored[#[trigger] filled(scored, max, n).0[k]]) == candidate_key(#[trigger] scored[i]),
    decreases n,
{
    lemma_filled_sound(scored, max, n);
    if n > 0 {
        lemma_filled_covers(scored, max, n - 1);
        let st = filled(scored, max, n - 1);
        let nst = filled(scored, max, n);
        if nst.0.len() < max {
            assert(st.0.len() < max);
            assert forall|i: int| 0 <= i < n implies nst.1.contains(candidate_key(#[trigger] scored[i])) by {
                if i < n - 1 {
                    assert(st.1.contains(candidate_key(scored[i])));
                }
            }
        }
    }
}

/// `i` is a best seed of the route among the first `n` candidates: it can
/// seed the route, no candidate that can has a better route quality, none of
/// the same route quality has a higher ranking, and none of the same quality
/// and ranking has a smaller context cost.
pub open spec fn best_of_route(scored: Seq<RankedSectionCandidate>, keys: Set<Seq<char>>, route: CandidateRoute, n: int, i: int) -> bool {
    &&& 0 <= i < n
    &&& !keys.contains(candidate_key(scored[i]))
    &&& matches_route(scored[i], route)
    &&& forall|j: int| 0 <= j < n && !keys.contains(candidate_key(#[trigger] scored[j])) && matches_route(scored[j], route)
        ==> route_quality(scored[j], route) < route_quality(scored[i], route) || (route_quality(scored[j], route)
        == route_quality(scored[i], route) && (scored[j].ranking_key < scored[i].ranking_key || (
        scored[j].ranking_key == scored[i].ranking_key && scored[j].context_cost >= scored[i].context_cost)))
}

proof fn lemma_best_seed_is_best(scored: Seq<RankedSectionCandidate>, keys: Set<Seq<char>>, route: CandidateRoute, n: int)
    requires
        0 <= n <= scored.len(),
    ensures
        match best_seed(scored, keys, route, n) {
            Some(i) => best_of_route(scored, keys, route, n, i),
            None => forall|j: int| 0 <= j < n ==> !(!keys.contains(candidate_key(#[trigger] scored[j])) && matches_route(scored[j], route)),
        },
    decreases n,
{
    if n > 0 {
        lemma_best_seed_is_best(scored, keys, route, n - 1);
        assert forall|j: int| 0 <= j < n - 1 implies #[trigger] scored[j] == scored[j] by {}
    }
}

/// Each route family's seed is its best candidate: while the budget lasts,
/// seeding route family `r` adds a candidate exactly when one that is not yet
/// taken belongs to the route, and the one it adds has the best route quality
/// among those, the highest ranking among those of that quality, and the
/// smallest context cost among those of that quality and ranking.
pub proof fn lemma_route_seed_is_best(scored: Seq<RankedSectionCandidate>, max: nat, r: int)
    requires
        0 <= r < 5,
        seeded(scored, max, r).0.len() < max,
    ensures
        ({
            let st = seeded(scored, max, r);
            let next = seeded(scored, max, r + 1);
            &&& (forall|j: int| 0 <= j < scored.len() ==> !(!st.1.contains(candidate_key(#[trigger] scored[j]))
                && matches_route(scored[j], route_at(r)))) ==> next == st
            &&& (exists|j: int| 0 <= j < scored.len() && !st.1.contains(candidate_key(#[trigger] scored[j]))
                && matches_route(scored[j], route_at(r))) ==> exists|i: int| #[trigger] best_of_route(scored, st.1, route_at(r), scored.len() as int, i)
                && next.0 == st.0.push(i) && next.1 == st.1.insert(candidate_key(scored[i]))
        }),
{
    let st = seeded(scored, max, r);
    lemma_best_seed_is_best(scored, st.1, route_at(r), scored.len() as int);
    match best_seed(scored, st.1, route_at(r), scored.len() as int) {
        Some(i) => {
            assert(best_of_route(scored, st.1, route_at(r), scored.len() as int, i));
        },
        None => {},
    }
}

proof fn lemma_filled_extends_seeds(scored: Seq<RankedSectionCandidate>, max: nat, n: int)
    requires
        0 <= n <= scored.len(),
    ensures
        ({
            let seeds = seeded(scored, max, 5).0;
            let sel = filled(scored, max, n).0;
            &&& seeds.len() <= sel.len()
            &&& sel.subrange(0, seeds.len() as int) == seeds
            &&& forall|k: int| seeds.len() <= k < sel.len() ==> #[trigger] sel[k] < n
            &&& forall|a: int, b: int| seeds.len() <= a < b < sel.len() ==> #[trigger] sel[a] < #[trigger] sel[b]
        }),
    decreases n,
{
    let seeds = seeded(scored, max, 5).0;
    if n <= 0 {
        assert(filled(scored, max, n).0.subrange(0, seeds.len() as int) =~= seeds);
    } else {
        lemma_filled_extends_seeds(scored, max, n - 1);
        let prev = filled(scored, max, n - 1).0;
        let sel = filled(scored, max, n).0;
        if sel.len() > prev.len() {
            assert(sel == prev.push(n - 1));
            assert(sel.subrange(0, seeds.len() as int) =~= prev.subrange(0, seeds.len() as int));
            assert forall|k: int| seeds.len() <= k < sel.len() implies #[trigger] sel[k] < n by {
                if k < prev.len() {
                    assert(sel[k] == prev[k]);
                }
            }
            assert forall|a: int, b: int| seeds.len() <= a < b < sel.len() implies #[trigger] sel[a] < #[trigger] sel[b] by {
                assert(sel[a] == prev[a]);
                if b < prev.len() {
                    assert(sel[b] == prev[b]);
                }
            }
        }
    }
}

/// The route-diverse frontier starts with the route seeds, in the order of
/// the route families, and then takes the other candidates in the order
/// given (by rank): after the seeds, the chosen positions only increase.
pub proof fn lemma_route_diverse_selection_fills_in_order(scored: Seq<RankedSectionCandidate>, max: nat)
    ensures
        ({
            let seeds = seeded(scored, max, 5).0;
            let sel = route_diverse_selection(scored, max);
            &&& sel.subrange(0, seeds.len() as int) == seeds
            &&& forall|a: int, b: int| seeds.len() <= a < b < sel.len() ==> #[trigger] sel[a] < #[trigger] sel[b]
        }),
{
    lemma_filled_extends_seeds(scored, max, scored.len() as int);
}

/// Candidate `i` comes before candidate `j` in ranking order: higher ranking
/// first, then the earlier path, then the earlier line, then input order (the
/// sort is stable).
pub open spec fn ranked_before(s: Seq<RankedSectionCandidate>, i: int, j: int) -> bool {
    if s[i].ranking_key != s[j].ranking_key {
        s[i].ranking_key > s[j].ranking_key
    } else if s[i].relative_path@ != s[j].relative_path@ {
        lex_lt(s[i].relative_path@, s[j].relative_path@)
    } else if s[i].line_start != s[j].line_start {
        s[i].line_start < s[j].line_start
    } else {
        i < j
    }
}

proof fn lemma_ranked_before_order(s: Seq<RankedSectionCandidate>, i: int, j: int, k: int)
    ensures
        i != j ==> ranked_before(s, i, j) || ranked_before(s, j, i),
        !(ranked_before(s, i, j) && ranked_before(s, j, i)),
        ranked_before(s, i, j) && ranked_before(s, j, k) ==> ranked_before(s, i, k),
{
    crate::ordered::lemma_lex_total(s[i].relative_path@, s[j].relative_path@);
    if lex_lt(s[i].relative_path@, s[j].relative_path@) && lex_lt(s[j].relative_path@, s[i].relative_path@) {
        crate::ordered::lemma_lex_transitive(s[i].relative_path@, s[j].relative_path@, s[i].relative_path@);
        crate::ordered::lemma_lex_irreflexive(s[i].relative_path@);
    }
    if lex_lt(s[i].relative_path@, s[j].relative_path@) && lex_lt(s[j].relative_path@, s[k].relative_path@) {
        crate::ordered::lemma_lex_transitive(s[i].relative_path@, s[j].relative_path@, s[k].relative_path@);
    }
    if s[i].relative_path@ == s[k].relative_path@ && lex_lt(s[i].relative_path@, s[j].relative_path@) && lex_lt(s[j].relative_path@, s[k].relative_path@) {
        crate::ordered::lemma_lex_transitive(s[i].relative_path@, s[j].relative_path@, s[k].relative_path@);
        crate::ordered::lemma_lex_irreflexive(s[i].relative_path@);
    }
}

fn ranked_before_exec(s: &Vec<RankedSectionCandidate>, i: usize, j: usize) -> (r: bool)
    requires
        i < s@.len(),
        j < s@.len(),
    ensures
        r == ranked_before(s@, i as int, j as int),
{
    let (a, b) = (&s[i], &s[j]);
    if a.ranking_key != b.ranking_key {
        a.ranking_key > b.ranking_key
    } else {
        let pa = chars_of(a.relative_path.as_str());
        let pb = chars_of(b.relative_path.as_str());
        if !vec_eq(&pa, &pb) {
            crate::ordered::lex_less(&pa, &pb)
        } else if a.line_start != b.line_start {
            a.line_start < b.line_start
        } else {
            i < j
        }
    }
}

/// An ordering of candidates: every index once, in ranking order.
pub open spec fn is_ranking(s: Seq<RankedSectionCandidate>, order: Seq<int>) -> bool {
    &&& order.len() == s.len()
    &&& forall|k: int| 0 <= k < order.len() ==> 0 <= #[trigger] order[k] < s.len()
    &&& forall|a: int, b: int| 0 <= a < b < order.len() ==> ranked_before(s, #[trigger] order[a], #[trigger] order[b])
}

/// In a ranking, a candidate with a higher ranking key comes first.
pub proof fn lemma_ranking_puts_higher_first(s: Seq<RankedSectionCandidate>, order: Seq<int>, a: int, b: int)
    requires
        is_ranking(s, order),
        0 <= a < order.len(),
        0 <= b < order.len(),
        s[order[a]].ranking_key > s[order[b]].ranking_key,
    ensures
        a < b,
{
    if b < a {
        assert(ranked_before(s, order[b], order[a]));
    }
}

/// Sorts candidates by ranking (higher first), then path and line, keeping
/// input order among equals; returns the indices in sorted order.
pub fn sort_scored_candidates(scored: &Vec<RankedSectionCandidate>) -> (r: Vec<usize>)
    ensures
        is_ranking(scored@, r@.map_values(|k: usize| k as int)),
{
    let mut out: Vec<usize> = Vec::new();
    let mut i: usize = 0;
    while i < scored.len()
        invariant
            i <= scored.len(),
            out@.len() == i,
            forall|k: int| 0 <= k < out@.len() ==> #[trigger] out@[k] < i,
            forall|a: int, b: int| 0 <= a < b < out@.len() ==> ranked_before(scored@, #[trigger] out@[a] as int, #[trigger] out@[b] as int),
        decreases scored.len() - i,
    {
        let mut p: usize = 0;
        while p < out.len() && !ranked_before_exec(scored, i, out[p])
            invariant
                p <= out@.len(),
                i < scored@.len(),
                forall|k: int| 0 <= k < out@.len() ==> #[trigger] out@[k] < i,
                forall|k: int| 0 <= k < p ==> !ranked_before(scored@, i as int, #[trigger] out@[k] as int),
            decreases out@.len() - p,
        {
            p = p + 1;
        }
        let ghost before = out@;
        out.insert(p, i);
        proof {
            assert forall|a: int, b: int| 0 <= a < b < out@.len() implies ranked_before(scored@, #[trigger] out@[a] as int, #[trigger] out@[b] as int) by {
                if b < p {
                    assert(out@[a] == before[a] && out@[b] == before[b]);
                } else if b == p {
                    assert(out@[a] == before[a] && out@[b] == i);
                    lemma_ranked_before_order(scored@, i as int, before[a] as int, 0);
                } else if a == p {
                    assert(out@[a] == i && out@[b] == before[b - 1]);
                    if b - 1 > p {
                        lemma_ranked_before_order(scored@, i as int, before[p as int] as int, before[b - 1] as int);
                    }
                } else if a < p {
                    assert(out@[a] == before[a] && out@[b] == before[b - 1]);
                } else {
                    assert(out@[a] == before[a - 1] && out@[b] == before[b - 1]);
                }
            }
            assert forall|k: int| 0 <= k < out@.len() implies #[trigger] out@[k] < i + 1 by {
                if k < p {
                    assert(out@[k] == before[k]);
                } else if k > p {
                    assert(out@[k] == before[k - 1]);
                }
            }
        }
        i = i + 1;
    }
    out
}

} // verus!
