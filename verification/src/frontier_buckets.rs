//! Route buckets of `SearchStrategyFlow` frontier candidates, and the required
//! evidence that a selected frontier covers.
use vstd::prelude::*;
use crate::flight_ids::{path_extension, path_extension_vec, path_file_name, path_file_name_vec};
use crate::ordered::{sorted_unique, strictly_sorted};
use crate::trace_routes::names;
use crate::text::{
    after_first, before_first, chars_of, contains, contains_any, contains_any_exec, contains_vec, ends_with,
    ends_with_vec, has_char, lit, lower_seq, seqs_of, split_once_vec, starts_with, starts_with_vec, string_of,
    strings_of, to_ascii_lowercase_vec, vec_eq,
};

verus! {

/// The route bucket of a frontier candidate.
#[derive(Clone, Copy, Debug, PartialEq, Eq, Structural)]
pub enum FrontierRouteBucket {
    /// Ownership and source-authority evidence.
    Authority,
    /// Validation evidence.
    Validation,
    /// `SearchStrategyFlow` evidence.
    SearchStrategy,
    /// `PageIndex` reasoning-tree evidence.
    PageIndex,
    /// Link-graph relation evidence.
    LinkGraph,
    /// Anything else.
    General,
}

pub open spec fn bucket_token(b: FrontierRouteBucket) -> Seq<char> {
    match b {
        FrontierRouteBucket::Authority => "authority"@,
        FrontierRouteBucket::Validation => "validation"@,
        FrontierRouteBucket::SearchStrategy => "search_strategy"@,
        FrontierRouteBucket::PageIndex => "page_index"@,
        FrontierRouteBucket::LinkGraph => "link_graph"@,
        FrontierRouteBucket::General => "general"@,
    }
}

impl FrontierRouteBucket {
    /// The token of this bucket.
    pub fn as_str(&self) -> (r: &'static str)
        ensures
            r@ == bucket_token(*self),
    {
        match self {
            FrontierRouteBucket::Authority => "authority",
            FrontierRouteBucket::Validation => "validation",
            FrontierRouteBucket::SearchStrategy => "search_strategy",
            FrontierRouteBucket::PageIndex => "page_index",
            FrontierRouteBucket::LinkGraph => "link_graph",
            FrontierRouteBucket::General => "general",
        }
    }
}

pub open spec fn authority_markers() -> Seq<&'static str> {
    seq![
        "authority",
        "ownership",
        "owner-boundary",
        "owner-boundaries",
        "ownership-boundary",
        "ownership_boundary",
        "package-owner",
        "source-authority",
        "ssot",
        "single-source-of-truth",
    ]
}

pub open spec fn validation_markers() -> Seq<&'static str> {
    seq![
        "validation",
        "validated",
        "validate",
        "verification",
        "verify",
        "verified",
        "gate",
        "package-test",
        "promotion-boundary",
        "proof",
        "test-proof",
        "evidence-calibration",
        "calibration",
        "audit",
        "benchmark",
        "baseline",
        "profile_contract",
        "profile-contract",
        "contract",
        "coverage",
        "quality",
        "fallback",
        "materialization",
        "closing-report",
    ]
}

pub open spec fn link_graph_markers() -> Seq<&'static str> {
    seq![
        "link_graph",
        "link-graph",
        "linkgraph",
        "graph_compute",
        "graph-compute",
        "relation",
        "relationship",
        "ppr",
        "fanout",
        "placement",
        "belongs",
    ]
}

pub open spec fn page_index_markers() -> Seq<&'static str> {
    seq![
        "page_index",
        "page-index",
        "pageindex",
        "reasoning_tree",
        "reasoning-tree",
        "document_projection",
        "document-projection",
        "projected-doc",
        "reading-order",
        "section-grounding",
    ]
}

pub open spec fn search_strategy_markers() -> Seq<&'static str> {
    seq!["search_strategy", "search-strategy", "searchstrategyflow", "strategy-flow", "strategy flow"]
}

pub open spec fn search_strategy_paths() -> Seq<&'static str> {
    seq!["docs/30_search_strategy", "search_strategy_flow", "search-strategy-flow"]
}

pub open spec fn page_index_paths() -> Seq<&'static str> {
    seq!["docs/20_page_index", "page_index", "pageindex", "reasoning_tree", "reasoning-tree"]
}

pub open spec fn link_graph_paths() -> Seq<&'static str> {
    seq!["docs/10_graph_compute", "link_graph", "link-graph", "linkgraph", "graph_compute", "relation"]
}

pub open spec fn validation_paths() -> Seq<&'static str> {
    seq!["docs/90_validation", "docs/testing", "validation", "verify", "gate"]
}

pub open spec fn benchmark_validation_paths() -> Seq<&'static str> {
    seq![
        "packages/python/wendao-knowledge-retrieval-benchmark/docs/profile_contract.md",
        "packages/python/wendao-knowledge-retrieval-benchmark/docs/architecture.md",
    ]
}

pub open spec fn link_graph_readme_paths() -> Seq<&'static str> {
    seq![
        "packages/rust/crates/xiuxian-wendao-attachments/readme.md",
        "packages/python/xiuxian-wendao-analyzer/readme.md",
    ]
}

/// A source under a test directory, or a code file.
pub open spec fn source_is_code_or_test(p: Seq<char>) -> bool {
    contains(p, "/tests/"@) || contains(p, "/test/"@) || starts_with(p, "tests/"@) || ends_with(p, ".rs"@)
        || ends_with(p, ".ts"@) || ends_with(p, ".tsx"@) || ends_with(p, ".js"@) || ends_with(p, ".jsx"@)
        || ends_with(p, ".jl"@) || ends_with(p, ".py"@)
}

/// A source that is an authority by itself.
pub open spec fn source_is_authority(p: Seq<char>, id: Seq<char>) -> bool {
    p == "docs/rfcs/2026-03-26-wendao-query-engine-rfc.md"@ || p == "packages/rust/crates/xiuxian-wendao-julia/readme.md"@
        || starts_with(p, "packages/rust/crates/xiuxian-wendao-julia/docs/"@) || p
        == "packages/rust/crates/xiuxian-wendao-studio/readme.md"@ || contains(id, "current-ownership-matrix"@)
}

/// An audit report in Markdown.
pub open spec fn audit_report_path(p: Seq<char>) -> bool {
    contains(p, "-audit."@) || contains(p, "_audit."@) || ends_with(p, "-audit.md"@) || ends_with(p, "_audit.md"@)
}

/// The bucket that a source path's structure names.
pub open spec fn structural_source_route(p: Seq<char>) -> Option<FrontierRouteBucket> {
    if contains_any(p, search_strategy_paths()) {
        Some(FrontierRouteBucket::SearchStrategy)
    } else if contains_any(p, page_index_paths()) {
        Some(FrontierRouteBucket::PageIndex)
    } else if contains_any(p, link_graph_paths()) {
        Some(FrontierRouteBucket::LinkGraph)
    } else if contains_any(p, validation_paths()) {
        Some(FrontierRouteBucket::Validation)
    } else {
        None
    }
}

/// The bucket that a heading anchor or a known document names.
pub open spec fn explicit_candidate_route(a: Seq<char>, p: Seq<char>) -> Option<FrontierRouteBucket> {
    if contains_any(a, link_graph_markers()) {
        Some(FrontierRouteBucket::LinkGraph)
    } else if contains_any(a, validation_markers()) {
        Some(FrontierRouteBucket::Validation)
    } else if contains_any(a, page_index_markers()) {
        Some(FrontierRouteBucket::PageIndex)
    } else if contains_any(a, search_strategy_markers()) {
        Some(FrontierRouteBucket::SearchStrategy)
    } else if contains_any(p, benchmark_validation_paths()) {
        Some(FrontierRouteBucket::Validation)
    } else if contains_any(p, link_graph_readme_paths()) {
        Some(FrontierRouteBucket::LinkGraph)
    } else {
        None
    }
}

/// A Markdown document whose place makes it an authority.
pub open spec fn markdown_authority_path(p: Seq<char>, id: Seq<char>) -> bool {
    let is_markdown = match path_extension(p) {
        Some(e) => lower_seq(e) == "md"@ || lower_seq(e) == "markdown"@,
        None => false,
    };
    is_markdown && (p == "agents.md"@ || starts_with(p, "docs/rfcs/"@) || starts_with(p, "docs/standards/"@)
        || (starts_with(p, "docs/developer/"@) && contains_any(id, authority_markers())) || (starts_with(
        p,
        "packages/"@,
    ) && match path_file_name(p) {
        Some(f) => lower_seq(f) == "readme.md"@,
        None => false,
    }))
}

/// The route bucket of a frontier candidate id, read off its lowercased
/// source path and heading anchor.
pub open spec fn frontier_bucket(candidate_id: Seq<char>) -> FrontierRouteBucket {
    let n = lower_seq(candidate_id);
    let p = if has_char(n, '#') {
        before_first(n, '#')
    } else {
        n
    };
    let a = if has_char(n, '#') {
        after_first(n, '#')
    } else {
        Seq::empty()
    };
    if !source_is_code_or_test(p) && (contains_any(a, authority_markers()) || source_is_authority(p, n)) {
        FrontierRouteBucket::Authority
    } else if contains_any(a, validation_markers()) {
        FrontierRouteBucket::Validation
    } else if audit_report_path(p) && (a.len() == 0 || a == "document"@) {
        FrontierRouteBucket::Validation
    } else if structural_source_route(p) is Some {
        structural_source_route(p)->0
    } else if explicit_candidate_route(a, p) is Some {
        explicit_candidate_route(a, p)->0
    } else if markdown_authority_path(p, n) {
        FrontierRouteBucket::Authority
    } else {
        FrontierRouteBucket::General
    }
}

/// A candidate id `path#anchor` splits at its `#` into the lowercased path
/// and anchor.
proof fn lemma_candidate_id_parts(path: Seq<char>, anchor: Seq<char>)
    requires
        !lower_seq(path).contains('#'),
    ensures
        has_char(lower_seq(path + seq!['#'] + anchor), '#'),
        before_first(lower_seq(path + seq!['#'] + anchor), '#') == lower_seq(path),
        after_first(lower_seq(path + seq!['#'] + anchor), '#') == lower_seq(anchor),
{
    let id = path + seq!['#'] + anchor;
    let n = lower_seq(id);
    let p = lower_seq(path);
    let a = lower_seq(anchor);
    assert(crate::text::ascii_lower('#') == '#');
    assert(n =~= p + seq!['#'] + a);
    assert forall|j: int| 0 <= j < p.len() implies n[j] != '#' by {
        assert(n[j] == p[j]);
        if p[j] == '#' {
            assert(p.contains('#'));
        }
    }
    crate::text::lemma_first_pos(n, '#', p.len() as int);
    assert(n.take(p.len() as int) =~= p);
    assert(n.skip(p.len() as int + 1) =~= a);
}

/// The bucket of a candidate `path#anchor` (read in lower case): an anchor
/// naming an authority makes it an authority, unless the path is code or a
/// test; otherwise an anchor naming validation makes it validation. A plain
/// candidate (its anchor names neither, its source is no authority and no
/// audit report) takes the route its path names, in this order: the
/// `SearchStrategyFlow` documents, then the `PageIndex` ones, then the link
/// graph, then validation; a plain candidate whose path names none of them
/// takes the route its anchor names: the link graph, then `PageIndex`, then
/// `SearchStrategyFlow`.
pub proof fn lemma_frontier_bucket_follows_candidate(path: Seq<char>, anchor: Seq<char>)
    requires
        !lower_seq(path).contains('#'),
    ensures
        ({
            let id = path + seq!['#'] + anchor;
            let p = lower_seq(path);
            let a = lower_seq(anchor);
            let authority_anchor = contains_any(a, authority_markers());
            let validation_anchor = contains_any(a, validation_markers());
            let plain = !authority_anchor && !source_is_authority(p, lower_seq(id)) && !validation_anchor
                && !audit_report_path(p);
            let search_strategy = contains_any(
                p,
                seq!["docs/30_search_strategy", "search_strategy_flow", "search-strategy-flow"],
            );
            let page_index = contains_any(
                p,
                seq!["docs/20_page_index", "page_index", "pageindex", "reasoning_tree", "reasoning-tree"],
            );
            let link_graph = contains_any(
                p,
                seq!["docs/10_graph_compute", "link_graph", "link-graph", "linkgraph", "graph_compute", "relation"],
            );
            let validation = contains_any(
                p,
                seq!["docs/90_validation", "docs/testing", "validation", "verify", "gate"],
            );
            &&& !source_is_code_or_test(p) && authority_anchor ==> frontier_bucket(id) == FrontierRouteBucket::Authority
            &&& !authority_anchor && !source_is_authority(p, lower_seq(id)) && validation_anchor ==> frontier_bucket(id)
                == FrontierRouteBucket::Validation
            &&& plain && search_strategy ==> frontier_bucket(id) == FrontierRouteBucket::SearchStrategy
            &&& plain && !search_strategy && page_index ==> frontier_bucket(id) == FrontierRouteBucket::PageIndex
            &&& plain && !search_strategy && !page_index && link_graph ==> frontier_bucket(id)
                == FrontierRouteBucket::LinkGraph
            &&& plain && !search_strategy && !page_index && !link_graph && validation ==> frontier_bucket(id)
                == FrontierRouteBucket::Validation
            &&& plain && !search_strategy && !page_index && !link_graph && !validation && contains_any(
                a,
                link_graph_markers(),
            ) ==> frontier_bucket(id) == FrontierRouteBucket::LinkGraph
            &&& plain && !search_strategy && !page_index && !link_graph && !validation && !contains_any(
                a,
                link_graph_markers(),
            ) && contains_any(a, page_index_markers()) ==> frontier_bucket(id) == FrontierRouteBucket::PageIndex
            &&& plain && !search_strategy && !page_index && !link_graph && !validation && !contains_any(
                a,
                link_graph_markers(),
            ) && !contains_any(a, page_index_markers()) && contains_any(a, search_strategy_markers())
                ==> frontier_bucket(id) == FrontierRouteBucket::SearchStrategy
        }),
{
    lemma_candidate_id_parts(path, anchor);
}

fn ends(p: &[char], s: &str) -> (b: bool)
    ensures
        b == ends_with(p@, s@),
{
    ends_with_vec(p, &lit(s))
}

fn has(p: &[char], s: &str) -> (b: bool)
    ensures
        b == contains(p@, s@),
{
    contains_vec(p, &lit(s))
}

fn starts(p: &[char], s: &str) -> (b: bool)
    ensures
        b == starts_with(p@, s@),
{
    starts_with_vec(p, &lit(s))
}

fn is(p: &[char], s: &str) -> (b: bool)
    ensures
        b == (p@ == s@),
{
    vec_eq(p, &lit(s))
}

fn any(t: &[char], markers: &[&str], Ghost(spec_markers): Ghost<Seq<&'static str>>) -> (b: bool)
    requires
        markers@ == spec_markers,
    ensures
        b == contains_any(t@, spec_markers),
{
    contains_any_exec(t, markers)
}

fn structural_source_route_exec(p: &[char]) -> (r: Option<FrontierRouteBucket>)
    ensures
        r == structural_source_route(p@),
{
    let a = ["docs/30_search_strategy", "search_strategy_flow", "search-strategy-flow"];
    assert(a@ =~= search_strategy_paths());
    let b = ["docs/20_page_index", "page_index", "pageindex", "reasoning_tree", "reasoning-tree"];
    assert(b@ =~= page_index_paths());
    let c = ["docs/10_graph_compute", "link_graph", "link-graph", "linkgraph", "graph_compute", "relation"];
    assert(c@ =~= link_graph_paths());
    let d = ["docs/90_validation", "docs/testing", "validation", "verify", "gate"];
    assert(d@ =~= validation_paths());
    if contains_any_exec(p, &a) {
        Some(FrontierRouteBucket::SearchStrategy)
    } else if contains_any_exec(p, &b) {
        Some(FrontierRouteBucket::PageIndex)
    } else if contains_any_exec(p, &c) {
        Some(FrontierRouteBucket::LinkGraph)
    } else if contains_any_exec(p, &d) {
        Some(FrontierRouteBucket::Validation)
    } else {
        None
    }
}

fn authority_markers_arr() -> (r: [&'static str; 10])
    ensures
        r@ == authority_markers(),
{
    let r = [
        "authority",
        "ownership",
        "owner-boundary",
        "owner-boundaries",
        "ownership-boundary",
        "ownership_boundary",
        "package-owner",
        "source-authority",
        "ssot",
        "single-source-of-truth",
    ];
    assert(r@ =~= authority_markers());
    r
}

fn validation_markers_arr() -> (r: [&'static str; 24])
    ensures
        r@ == validation_markers(),
{
    let r = [
        "validation",
        "validated",
        "validate",
        "verification",
        "verify",
        "verified",
        "gate",
        "package-test",
        "promotion-boundary",
        "proof",
        "test-proof",
        "evidence-calibration",
        "calibration",
        "audit",
        "benchmark",
        "baseline",
        "profile_contract",
        "profile-contract",
        "contract",
        "coverage",
        "quality",
        "fallback",
        "materialization",
        "closing-report",
    ];
    assert(r@ =~= validation_markers());
    r
}

fn explicit_candidate_route_exec(a: &[char], p: &[char]) -> (r: Option<FrontierRouteBucket>)
    ensures
        r == explicit_candidate_route(a@, p@),
{
    let lg = [
        "link_graph",
        "link-graph",
        "linkgraph",
        "graph_compute",
        "graph-compute",
        "relation",
        "relationship",
        "ppr",
        "fanout",
        "placement",
        "belongs",
    ];
    assert(lg@ =~= link_graph_markers());
    let pi = [
        "page_index",
        "page-index",
        "pageindex",
        "reasoning_tree",
        "reasoning-tree",
        "document_projection",
        "document-projection",
        "projected-doc",
        "reading-order",
        "section-grounding",
    ];
    assert(pi@ =~= page_index_markers());
    let ss = ["search_strategy", "search-strategy", "searchstrategyflow", "strategy-flow", "strategy flow"];
    assert(ss@ =~= search_strategy_markers());
    let bv = [
        "packages/python/wendao-knowledge-retrieval-benchmark/docs/profile_contract.md",
        "packages/python/wendao-knowledge-retrieval-benchmark/docs/architecture.md",
    ];
    assert(bv@ =~= benchmark_validation_paths());
    let lr = [
        "packages/rust/crates/xiuxian-wendao-attachments/readme.md",
        "packages/python/xiuxian-wendao-analyzer/readme.md",
    ];
    assert(lr@ =~= link_graph_readme_paths());
    let vm = validation_markers_arr();
    if contains_any_exec(a, &lg) {
        Some(FrontierRouteBucket::LinkGraph)
    } else if contains_any_exec(a, &vm) {
        Some(FrontierRouteBucket::Validation)
    } else if contains_any_exec(a, &pi) {
        Some(FrontierRouteBucket::PageIndex)
    } else if contains_any_exec(a, &ss) {
        Some(FrontierRouteBucket::SearchStrategy)
    } else if contains_any_exec(p, &bv) {
        Some(FrontierRouteBucket::Validation)
    } else if contains_any_exec(p, &lr) {
        Some(FrontierRouteBucket::LinkGraph)
    } else {
        None
    }
}

fn markdown_authority_path_exec(p: &[char], id: &[char]) -> (b: bool)
    ensures
        b == markdown_authority_path(p@, id@),
{
    let is_markdown = match path_extension_vec(p) {
        Some(e) => {
            let low = to_ascii_lowercase_vec(&e);
            is(&low, "md") || is(&low, "markdown")
        },
        None => false,
    };
    if !is_markdown {
        return false;
    }
    let am = authority_markers_arr();
    is(p, "agents.md") || starts(p, "docs/rfcs/") || starts(p, "docs/standards/") || (starts(p, "docs/developer/")
        && contains_any_exec(id, &am)) || (starts(p, "packages/") && match path_file_name_vec(p) {
        Some(f) => is(&to_ascii_lowercase_vec(&f), "readme.md"),
        None => false,
    })
}

/// Classifies a frontier candidate into the route bucket it serves.
pub fn frontier_route_bucket(candidate_id: &str) -> (r: FrontierRouteBucket)
    ensures
        r == frontier_bucket(candidate_id@),
{
    let n = to_ascii_lowercase_vec(&chars_of(candidate_id));
    let (p, a) = match split_once_vec(&n, '#') {
        Some((p, a)) => (p, a),
        None => (crate::text::copy_vec(&n), Vec::new()),
    };
    assert(a@ == if has_char(n@, '#') {
        after_first(n@, '#')
    } else {
        Seq::<char>::empty()
    });
    let am = authority_markers_arr();
    let vm = validation_markers_arr();
    let code_or_test = has(&p, "/tests/") || has(&p, "/test/") || starts(&p, "tests/") || ends(&p, ".rs") || ends(
        &p,
        ".ts",
    ) || ends(&p, ".tsx") || ends(&p, ".js") || ends(&p, ".jsx") || ends(&p, ".jl") || ends(&p, ".py");
    let source_authority = is(&p, "docs/rfcs/2026-03-26-wendao-query-engine-rfc.md") || is(
        &p,
        "packages/rust/crates/xiuxian-wendao-julia/readme.md",
    ) || starts(&p, "packages/rust/crates/xiuxian-wendao-julia/docs/") || is(
        &p,
        "packages/rust/crates/xiuxian-wendao-studio/readme.md",
    ) || has(&n, "current-ownership-matrix");
    if !code_or_test && (contains_any_exec(&a, &am) || source_authority) {
        return FrontierRouteBucket::Authority;
    }
    if contains_any_exec(&a, &vm) {
        return FrontierRouteBucket::Validation;
    }
    let audit = has(&p, "-audit.") || has(&p, "_audit.") || ends(&p, "-audit.md") || ends(&p, "_audit.md");
    if audit && (a.len() == 0 || is(&a, "document")) {
        return FrontierRouteBucket::Validation;
    }
    if let Some(route) = structural_source_route_exec(&p) {
        return route;
    }
    if let Some(route) = explicit_candidate_route_exec(&a, &p) {
        return route;
    }
    if markdown_authority_path_exec(&p, &n) {
        return FrontierRouteBucket::Authority;
    }
    FrontierRouteBucket::General
}

/// The bucket token that a required-evidence value asks for: the known
/// evidence names map to their buckets, anything else names itself.
pub open spec fn required_evidence_bucket(evidence: Seq<char>) -> Seq<char> {
    if evidence == "ownership_boundary"@ {
        "authority"@
    } else if evidence == "validation_path"@ {
        "validation"@
    } else if evidence == "relation_path"@ {
        "link_graph"@
    } else if evidence == "page_index_seed"@ {
        "page_index"@
    } else {
        evidence
    }
}

/// The bucket token that a required-evidence value asks for.
pub fn required_evidence_route_bucket(evidence: &str) -> (r: String)
    ensures
        r@ == required_evidence_bucket(evidence@),
{
    let e = chars_of(evidence);
    if is(&e, "ownership_boundary") {
        "authority".to_owned()
    } else if is(&e, "validation_path") {
        "validation".to_owned()
    } else if is(&e, "relation_path") {
        "link_graph".to_owned()
    } else if is(&e, "page_index_seed") {
        "page_index".to_owned()
    } else {
        evidence.to_owned()
    }
}

/// One frontier row as evidence coverage reads it.
#[derive(Clone, Debug, PartialEq, Eq)]
pub struct FrontierSelectionRow {
    /// Candidate id of the row.
    pub candidate_id: String,
    /// Whether the frontier selected the row.
    pub selected: bool,
}

/// Some selected frontier row falls in the bucket that `evidence` asks for.
pub open spec fn evidence_covered(frontier: Seq<FrontierSelectionRow>, evidence: Seq<char>) -> bool {
    exists|i: int| 0 <= i < frontier.len() && #[trigger] frontier[i].selected
        && bucket_token(frontier_bucket(frontier[i].candidate_id@)) == required_evidence_bucket(evidence)
}

/// Each bucket has its own token.
proof fn lemma_bucket_token_names_bucket(b: FrontierRouteBucket, c: FrontierRouteBucket)
    ensures
        bucket_token(b) == bucket_token(c) <==> b == c,
{
    reveal_strlit("authority");
    reveal_strlit("validation");
    reveal_strlit("search_strategy");
    reveal_strlit("page_index");
    reveal_strlit("link_graph");
    reveal_strlit("general");
    if bucket_token(b) == bucket_token(c) && b != c {
        assert(bucket_token(b).len() == bucket_token(c).len());
        assert(bucket_token(b)[0] == bucket_token(c)[0]);
        assert(bucket_token(b)[1] == bucket_token(c)[1]);
    }
}

/// The named kinds of required evidence are covered exactly by a selected
/// frontier row of their bucket: an ownership boundary by an authority row,
/// a validation path by a validation row, a relation path by a link-graph
/// row and a page-index seed by a page-index row.
pub proof fn lemma_named_evidence_coverage(frontier: Seq<FrontierSelectionRow>)
    ensures
        evidence_covered(frontier, "ownership_boundary"@) <==> exists|i: int| 0 <= i < frontier.len()
            && #[trigger] frontier[i].selected && frontier_bucket(frontier[i].candidate_id@) == FrontierRouteBucket::Authority,
        evidence_covered(frontier, "validation_path"@) <==> exists|i: int| 0 <= i < frontier.len()
            && #[trigger] frontier[i].selected && frontier_bucket(frontier[i].candidate_id@) == FrontierRouteBucket::Validation,
        evidence_covered(frontier, "relation_path"@) <==> exists|i: int| 0 <= i < frontier.len()
            && #[trigger] frontier[i].selected && frontier_bucket(frontier[i].candidate_id@) == FrontierRouteBucket::LinkGraph,
        evidence_covered(frontier, "page_index_seed"@) <==> exists|i: int| 0 <= i < frontier.len()
            && #[trigger] frontier[i].selected && frontier_bucket(frontier[i].candidate_id@) == FrontierRouteBucket::PageIndex,
{
    reveal_strlit("ownership_boundary");
    reveal_strlit("validation_path");
    reveal_strlit("relation_path");
    reveal_strlit("page_index_seed");
    assert("validation_path"@.len() != "ownership_boundary"@.len());
    assert("relation_path"@.len() != "ownership_boundary"@.len());
    assert("relation_path"@.len() != "validation_path"@.len());
    assert("page_index_seed"@.len() != "ownership_boundary"@.len());
    assert("page_index_seed"@[0] != "validation_path"@[0]);
    assert("page_index_seed"@.len() != "relation_path"@.len());
    assert(required_evidence_bucket("ownership_boundary"@) == bucket_token(FrontierRouteBucket::Authority));
    assert(required_evidence_bucket("validation_path"@) == bucket_token(FrontierRouteBucket::Validation));
    assert(required_evidence_bucket("relation_path"@) == bucket_token(FrontierRouteBucket::LinkGraph));
    assert(required_evidence_bucket("page_index_seed"@) == bucket_token(FrontierRouteBucket::PageIndex));
    assert forall|b: FrontierRouteBucket, c: FrontierRouteBucket| #[trigger] bucket_token(b) == #[trigger] bucket_token(c) <==> b == c by {
        lemma_bucket_token_names_bucket(b, c);
    }
}

fn evidence_covered_exec(frontier: &Vec<FrontierSelectionRow>, evidence: &str) -> (b: bool)
    ensures
        b == evidence_covered(frontier@, evidence@),
{
    let wanted = required_evidence_route_bucket(evidence);
    let w = chars_of(wanted.as_str());
    let mut i: usize = 0;
    while i < frontier.len()
        invariant
            i <= frontier.len(),
            w@ == required_evidence_bucket(evidence@),
            forall|j: int| 0 <= j < i ==> !(#[trigger] frontier@[j].selected
                && bucket_token(frontier_bucket(frontier@[j].candidate_id@)) == required_evidence_bucket(evidence@)),
        decreases frontier.len() - i,
    {
        if frontier[i].selected {
            let bucket = frontier_route_bucket(frontier[i].candidate_id.as_str());
            if vec_eq(&chars_of(bucket.as_str()), &w) {
                return true;
            }
        }
        i = i + 1;
    }
    false
}

/// The required evidence that the selected frontier covers, in order.
pub fn selected_required_evidence_values(required_evidence: &Vec<String>, frontier: &Vec<FrontierSelectionRow>) -> (r: Vec<String>)
    ensures
        r.deep_view() == required_evidence.deep_view().filter(|e: Seq<char>| evidence_covered(frontier@, e)),
{
    let mut out: Vec<String> = Vec::new();
    let mut i: usize = 0;
    while i < required_evidence.len()
        invariant
            i <= required_evidence.len(),
            out.deep_view() == required_evidence.deep_view().take(i as int).filter(|e: Seq<char>| evidence_covered(frontier@, e)),
        decreases required_evidence.len() - i,
    {
        let ghost prev = required_evidence.deep_view().take(i as int);
        let ghost x = required_evidence@[i as int]@;
        assert(required_evidence.deep_view().take(i + 1) =~= prev.push(x));
        proof {
            prev.lemma_filter_push(x, |e: Seq<char>| evidence_covered(frontier@, e));
        }
        if evidence_covered_exec(frontier, required_evidence[i].as_str()) {
            let s = string_of(&chars_of(required_evidence[i].as_str()));
            crate::text::push_string(&mut out, s);
        }
        i = i + 1;
    }
    assert(required_evidence.deep_view().take(required_evidence.len() as int) =~= required_evidence.deep_view());
    out
}

/// The distinct non-empty required-evidence values of the query-understanding rows, sorted.
pub fn required_evidence_values(values: &Vec<Option<String>>) -> (r: Vec<String>)
    ensures
        strictly_sorted(r.deep_view()),
        forall|t: Seq<char>| #[trigger] r.deep_view().contains(t) <==> (t.len() > 0 && exists|i: int|
            0 <= i < values@.len() && names(#[trigger] values@[i], t)),
{
    let mut present: Vec<Vec<char>> = Vec::new();
    let mut i: usize = 0;
    while i < values.len()
        invariant
            i <= values.len(),
            forall|t: Seq<char>| #[trigger] seqs_of(present@).contains(t) <==> (t.len() > 0 && exists|j: int|
                0 <= j < i && names(#[trigger] values@[j], t)),
        decreases values.len() - i,
    {
        let ghost before = seqs_of(present@);
        let ghost mut added: Option<Seq<char>> = None;
        if let Some(v) = &values[i] {
            let cv = chars_of(v.as_str());
            if cv.len() > 0 {
                proof {
                    added = Some(cv@);
                }
                present.push(cv);
            }
        }
        proof {
            if added is Some {
                assert(seqs_of(present@) =~= before.push(added->0));
                assert(names(values@[i as int], added->0));
            } else {
                assert(seqs_of(present@) =~= before);
            }
            assert forall|t: Seq<char>| #[trigger] seqs_of(present@).contains(t) <==> (t.len() > 0 && exists|j: int|
                0 <= j < i + 1 && names(#[trigger] values@[j], t)) by {
                if seqs_of(present@).contains(t) {
                    let k = choose|k: int| 0 <= k < seqs_of(present@).len() && seqs_of(present@)[k] == t;
                    if k < before.len() {
                        assert(before[k] == t);
                        assert(before.contains(t));
                    }
                }
                if before.contains(t) {
                    let k = choose|k: int| 0 <= k < before.len() && before[k] == t;
                    assert(seqs_of(present@)[k] == t);
                }
                if t.len() > 0 && names(values@[i as int], t) {
                    assert(added == Some(t));
                    assert(seqs_of(present@)[before.len() as int] == t);
                }
            }
        }
        i = i + 1;
    }
    strings_of(&sorted_unique(&present))
}

} // verus!
