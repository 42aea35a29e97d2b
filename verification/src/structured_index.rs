//! The total structured candidate-index contract of `SearchStrategyFlow`: the
//! Rust-owned candidate surfaces, and how a narrowed Julia input batch relates
//! to them.
use vstd::prelude::*;
use crate::text::{chars_of, lit, starts_with, starts_with_vec, vec_eq};

verus! {

/// Candidate source of Markdown heading discovery.
pub const MARKDOWN_HEADING_CANDIDATE_SOURCE: &'static str = "rust-markdown-headings";

/// Candidate source of the code-intelligence inventory.
pub const CODE_INTELLIGENCE_CANDIDATE_SOURCE: &'static str = "rust-code-intelligence-inventory";

/// Candidate source of registry metadata.
pub const REGISTRY_METADATA_CANDIDATE_SOURCE: &'static str = "rust-registry-metadata";

/// Source of the structured candidate-index contract itself.
pub const STRUCTURED_INDEX_CANDIDATE_SOURCE: &'static str = "rust-structured-candidate-index";

/// The Rust backend of every structured surface.
pub const RUST_DUCKDB_STRUCTURED_INDEX_BACKEND: &'static str = "rust-duckdb-structured-index";

/// The Julia input policy of every structured surface.
pub const NARROWED_CANDIDATE_BATCH_POLICY: &'static str = "narrowed-candidate-batch";

/// Candidate counts of the three structured surfaces.
#[derive(Clone, Copy, Debug, PartialEq, Eq, Structural)]
pub struct SearchStrategyFlowStructuredCandidateCounts {
    /// Markdown heading candidates.
    pub primary_markdown: usize,
    /// Code-intelligence inventory candidates.
    pub code_intelligence: usize,
    /// Registry authority candidates.
    pub registry_authority: usize,
}

/// One Rust-owned structured candidate surface.
#[derive(Clone, Copy, Debug, PartialEq, Eq)]
pub struct SearchStrategyFlowStructuredCandidateSurface {
    /// Surface id.
    pub surface_id: &'static str,
    /// Candidate source that feeds the surface.
    pub candidate_source: &'static str,
    /// Candidates on the surface.
    pub candidate_count: usize,
    /// Role of the surface.
    pub structured_surface_role: &'static str,
    /// Rust backend of the surface.
    pub rust_backend: &'static str,
    /// Bridge status of the surface.
    pub bridge_status: &'static str,
    /// Julia input policy of the surface.
    pub julia_input_policy: &'static str,
    /// Whether the surface counts toward the promotion denominator.
    pub promotion_denominator: bool,
}

/// A surface has the given id, source, count, role and status, with the
/// shared backend, the narrowed-batch policy, and promotion counting.
pub open spec fn surface_is(
    s: SearchStrategyFlowStructuredCandidateSurface,
    id: Seq<char>,
    source: Seq<char>,
    count: usize,
    role: Seq<char>,
    status: Seq<char>,
) -> bool {
    &&& s.surface_id@ == id
    &&& s.candidate_source@ == source
    &&& s.candidate_count == count
    &&& s.structured_surface_role@ == role
    &&& s.rust_backend@ == RUST_DUCKDB_STRUCTURED_INDEX_BACKEND@
    &&& s.bridge_status@ == status
    &&& s.julia_input_policy@ == NARROWED_CANDIDATE_BATCH_POLICY@
    &&& s.promotion_denominator
}

/// The three surfaces of the contract, in order.
pub open spec fn contract_surfaces_are(r: Seq<SearchStrategyFlowStructuredCandidateSurface>, counts: SearchStrategyFlowStructuredCandidateCounts) -> bool {
    &&& r.len() == 3
    &&& surface_is(r[0], "primary-markdown"@, MARKDOWN_HEADING_CANDIDATE_SOURCE@, counts.primary_markdown, "primary-markdown-scenario"@, "measured-local-rust-trace"@)
    &&& surface_is(r[1], "code-intelligence-downlink"@, CODE_INTELLIGENCE_CANDIDATE_SOURCE@, counts.code_intelligence, "code-intelligence-support-evidence"@, "measured-git-tracked-inventory"@)
    &&& surface_is(r[2], "registry-authority"@, REGISTRY_METADATA_CANDIDATE_SOURCE@, counts.registry_authority, "registry-authority-index"@, "measured-registry-metadata-replay"@)
}

fn surface(
    surface_id: &'static str,
    candidate_source: &'static str,
    candidate_count: usize,
    structured_surface_role: &'static str,
    bridge_status: &'static str,
) -> (r: SearchStrategyFlowStructuredCandidateSurface)
    ensures
        surface_is(r, surface_id@, candidate_source@, candidate_count, structured_surface_role@, bridge_status@),
{
    SearchStrategyFlowStructuredCandidateSurface {
        surface_id,
        candidate_source,
        candidate_count,
        structured_surface_role,
        rust_backend: RUST_DUCKDB_STRUCTURED_INDEX_BACKEND,
        bridge_status,
        julia_input_policy: NARROWED_CANDIDATE_BATCH_POLICY,
        promotion_denominator: true,
    }
}

/// The structured candidate-index contract for the given surface counts.
pub fn search_strategy_flow_total_structured_candidate_index_contract(counts: SearchStrategyFlowStructuredCandidateCounts) -> (r: Vec<SearchStrategyFlowStructuredCandidateSurface>)
    ensures
        contract_surfaces_are(r@, counts),
{
    let mut r: Vec<SearchStrategyFlowStructuredCandidateSurface> = Vec::new();
    r.push(surface("primary-markdown", MARKDOWN_HEADING_CANDIDATE_SOURCE, counts.primary_markdown, "primary-markdown-scenario", "measured-local-rust-trace"));
    r.push(surface("code-intelligence-downlink", CODE_INTELLIGENCE_CANDIDATE_SOURCE, counts.code_intelligence, "code-intelligence-support-evidence", "measured-git-tracked-inventory"));
    r.push(surface("registry-authority", REGISTRY_METADATA_CANDIDATE_SOURCE, counts.registry_authority, "registry-authority-index", "measured-registry-metadata-replay"));
    r
}

/// The sum of the candidate counts of the surfaces.
pub open spec fn total_count(s: Seq<SearchStrategyFlowStructuredCandidateSurface>) -> nat
    decreases s.len(),
{
    if s.len() == 0 {
        0
    } else {
        total_count(s.drop_last()) + s.last().candidate_count as nat
    }
}

proof fn lemma_total_count_prefix(s: Seq<SearchStrategyFlowStructuredCandidateSurface>, n: int)
    requires
        0 <= n <= s.len(),
    ensures
        total_count(s.take(n)) <= total_count(s),
    decreases s.len() - n,
{
    if n < s.len() {
        lemma_total_count_prefix(s, n + 1);
        assert(s.take(n + 1).drop_last() =~= s.take(n));
    } else {
        assert(s.take(n) =~= s);
    }
}

/// The total candidate count of all surfaces.
pub fn total_candidate_count(surfaces: &Vec<SearchStrategyFlowStructuredCandidateSurface>) -> (r: usize)
    requires
        total_count(surfaces@) <= usize::MAX,
    ensures
        r == total_count(surfaces@),
{
    let mut total: usize = 0;
    let mut i: usize = 0;
    while i < surfaces.len()
        invariant
            i <= surfaces.len(),
            total_count(surfaces@) <= usize::MAX,
            total == total_count(surfaces@.take(i as int)),
        decreases surfaces.len() - i,
    {
        assert(surfaces@.take(i + 1).drop_last() =~= surfaces@.take(i as int));
        proof {
            lemma_total_count_prefix(surfaces@, i + 1);
        }
        total = total + surfaces[i].candidate_count;
        i = i + 1;
    }
    assert(surfaces@.take(surfaces.len() as int) =~= surfaces@);
    total
}

/// The number of surfaces whose bridge status is still pending.
pub open spec fn pending_count(s: Seq<SearchStrategyFlowStructuredCandidateSurface>) -> nat
    decreases s.len(),
{
    if s.len() == 0 {
        0
    } else {
        pending_count(s.drop_last()) + if starts_with(s.last().bridge_status@, "pending-"@) {
            1nat
        } else {
            0nat
        }
    }
}

/// The number of surfaces whose bridge status starts with `pending-`.
pub fn pending_surface_count(surfaces: &Vec<SearchStrategyFlowStructuredCandidateSurface>) -> (r: usize)
    ensures
        r == pending_count(surfaces@),
{
    let mut n: usize = 0;
    let mut i: usize = 0;
    while i < surfaces.len()
        invariant
            i <= surfaces.len(),
            n == pending_count(surfaces@.take(i as int)),
            n <= i,
        decreases surfaces.len() - i,
    {
        assert(surfaces@.take(i + 1).drop_last() =~= surfaces@.take(i as int));
        if starts_with_vec(&chars_of(surfaces[i].bridge_status), &lit("pending-")) {
            n = n + 1;
        }
        i = i + 1;
    }
    assert(surfaces@.take(surfaces.len() as int) =~= surfaces@);
    n
}

/// Whether every surface uses the shared Rust backend.
pub fn all_surfaces_share_rust_backend(surfaces: &Vec<SearchStrategyFlowStructuredCandidateSurface>) -> (r: bool)
    ensures
        r == forall|i: int| 0 <= i < surfaces@.len() ==> (#[trigger] surfaces@[i]).rust_backend@ == RUST_DUCKDB_STRUCTURED_INDEX_BACKEND@,
{
    let backend = lit(RUST_DUCKDB_STRUCTURED_INDEX_BACKEND);
    let mut i: usize = 0;
    while i < surfaces.len()
        invariant
            i <= surfaces.len(),
            backend@ == RUST_DUCKDB_STRUCTURED_INDEX_BACKEND@,
            forall|j: int| 0 <= j < i ==> (#[trigger] surfaces@[j]).rust_backend@ == RUST_DUCKDB_STRUCTURED_INDEX_BACKEND@,
        decreases surfaces.len() - i,
    {
        if !vec_eq(&chars_of(surfaces[i].rust_backend), &backend) {
            return false;
        }
        i = i + 1;
    }
    true
}

/// Whether every surface hands Julia narrowed candidate batches.
pub fn all_surfaces_use_narrowed_julia_batches(surfaces: &Vec<SearchStrategyFlowStructuredCandidateSurface>) -> (r: bool)
    ensures
        r == forall|i: int| 0 <= i < surfaces@.len() ==> (#[trigger] surfaces@[i]).julia_input_policy@ == NARROWED_CANDIDATE_BATCH_POLICY@,
{
    let policy = lit(NARROWED_CANDIDATE_BATCH_POLICY);
    let mut i: usize = 0;
    while i < surfaces.len()
        invariant
            i <= surfaces.len(),
            policy@ == NARROWED_CANDIDATE_BATCH_POLICY@,
            forall|j: int| 0 <= j < i ==> (#[trigger] surfaces@[j]).julia_input_policy@ == NARROWED_CANDIDATE_BATCH_POLICY@,
        decreases surfaces.len() - i,
    {
        if !vec_eq(&chars_of(surfaces[i].julia_input_policy), &policy) {
            return false;
        }
        i = i + 1;
    }
    true
}

/// Whether every surface counts toward the promotion denominator.
pub fn all_surfaces_are_promotion_denominator(surfaces: &Vec<SearchStrategyFlowStructuredCandidateSurface>) -> (r: bool)
    ensures
        r == forall|i: int| 0 <= i < surfaces@.len() ==> (#[trigger] surfaces@[i]).promotion_denominator,
{
    let mut i: usize = 0;
    while i < surfaces.len()
        invariant
            i <= surfaces.len(),
            forall|j: int| 0 <= j < i ==> (#[trigger] surfaces@[j]).promotion_denominator,
        decreases surfaces.len() - i,
    {
        if !surfaces[i].promotion_denominator {
            return false;
        }
        i = i + 1;
    }
    true
}

/// The contract keeps its promises: its total is the sum of the three
/// counts, no surface is pending, and every surface shares the Rust backend,
/// hands Julia narrowed batches and counts toward promotion.
pub proof fn lemma_contract_surfaces(r: Seq<SearchStrategyFlowStructuredCandidateSurface>, counts: SearchStrategyFlowStructuredCandidateCounts)
    requires
        contract_surfaces_are(r, counts),
    ensures
        total_count(r) == counts.primary_markdown + counts.code_intelligence + counts.registry_authority,
        pending_count(r) == 0,
        forall|i: int| 0 <= i < r.len() ==> (#[trigger] r[i]).rust_backend@ == RUST_DUCKDB_STRUCTURED_INDEX_BACKEND@
            && r[i].julia_input_policy@ == NARROWED_CANDIDATE_BATCH_POLICY@ && r[i].promotion_denominator,
{
    reveal_strlit("pending-");
    reveal_strlit("measured-local-rust-trace");
    reveal_strlit("measured-git-tracked-inventory");
    reveal_strlit("measured-registry-metadata-replay");
    assert(r.drop_last().drop_last().drop_last() =~= Seq::<SearchStrategyFlowStructuredCandidateSurface>::empty());
    assert(!starts_with(r[0].bridge_status@, "pending-"@)) by {
        assert(r[0].bridge_status@[0] != "pending-"@[0]);
    }
    assert(!starts_with(r[1].bridge_status@, "pending-"@)) by {
        assert(r[1].bridge_status@[0] != "pending-"@[0]);
    }
    assert(!starts_with(r[2].bridge_status@, "pending-"@)) by {
        assert(r[2].bridge_status@[0] != "pending-"@[0]);
    }
    let r1 = r.drop_last();
    let r2 = r1.drop_last();
    let r3 = r2.drop_last();
    assert(r1.last() == r[1] && r2.last() == r[0] && r.last() == r[2]);
    assert(total_count(r3) == 0 && pending_count(r3) == 0);
    assert(total_count(r2) == r[0].candidate_count && pending_count(r2) == 0);
    assert(total_count(r1) == r[0].candidate_count + r[1].candidate_count && pending_count(r1) == 0);
}

/// How a narrowed candidate input batch relates to the structured contract.
#[derive(Clone, Debug, PartialEq, Eq)]
pub struct SearchStrategyFlowCandidateDiscoveryContract {
    /// Candidate input source (`unknown` when the trace names none).
    pub candidate_input_source: String,
    /// Candidates in the input batch.
    pub candidate_input_count: usize,
    /// Candidates on all structured surfaces; also the promotion denominator.
    pub total_structured_candidate_count: usize,
    /// Whether the input batch holds fewer candidates than the surfaces.
    pub input_is_narrowed_batch: bool,
    /// The surface fed by the input source, when there is one.
    pub structured_surface: Option<SearchStrategyFlowStructuredCandidateSurface>,
}

/// Relates a candidate input batch to the structured contract for the given counts.
pub fn search_strategy_flow_candidate_discovery_contract(
    counts: SearchStrategyFlowStructuredCandidateCounts,
    candidate_input_source: Option<&str>,
    candidate_input_count: usize,
) -> (r: SearchStrategyFlowCandidateDiscoveryContract)
    requires
        counts.primary_markdown + counts.code_intelligence + counts.registry_authority <= usize::MAX,
    ensures
        r.candidate_input_source@ == match candidate_input_source {
            Some(s) => s@,
            None => "unknown"@,
        },
        r.candidate_input_count == candidate_input_count,
        r.total_structured_candidate_count == counts.primary_markdown + counts.code_intelligence + counts.registry_authority,
        r.input_is_narrowed_batch == (candidate_input_count < r.total_structured_candidate_count),
        match r.structured_surface {
            Some(s) => {
                let src = r.candidate_input_source@;
                (src == MARKDOWN_HEADING_CANDIDATE_SOURCE@ && s.surface_id@ == "primary-markdown"@ && s.candidate_count == counts.primary_markdown)
                || (src == CODE_INTELLIGENCE_CANDIDATE_SOURCE@ && s.surface_id@ == "code-intelligence-downlink"@ && s.candidate_count == counts.code_intelligence)
                || (src == REGISTRY_METADATA_CANDIDATE_SOURCE@ && s.surface_id@ == "registry-authority"@ && s.candidate_count == counts.registry_authority)
            },
            None => r.candidate_input_source@ != MARKDOWN_HEADING_CANDIDATE_SOURCE@
                && r.candidate_input_source@ != CODE_INTELLIGENCE_CANDIDATE_SOURCE@
                && r.candidate_input_source@ != REGISTRY_METADATA_CANDIDATE_SOURCE@,
        },
{
    let surfaces = search_strategy_flow_total_structured_candidate_index_contract(counts);
    proof {
        lemma_contract_surfaces(surfaces@, counts);
    }
    let total = total_candidate_count(&surfaces);
    let source: &str = match candidate_input_source {
        Some(s) => s,
        None => "unknown",
    };
    let sv = chars_of(source);
    let mut found: Option<SearchStrategyFlowStructuredCandidateSurface> = None;
    let mut i: usize = 0;
    while i < surfaces.len()
        invariant
            i <= surfaces.len(),
            sv@ == source@,
            contract_surfaces_are(surfaces@, counts),
            found matches Some(s) ==> exists|j: int| 0 <= j < i && surfaces@[j] == s && (#[trigger] surfaces@[j]).candidate_source@ == source@,
            found is None ==> forall|j: int| 0 <= j < i ==> (#[trigger] surfaces@[j]).candidate_source@ != source@,
        decreases surfaces.len() - i,
    {
        if found.is_none() && vec_eq(&chars_of(surfaces[i].candidate_source), &sv) {
            found = Some(surfaces[i]);
        }
        i = i + 1;
    }
    SearchStrategyFlowCandidateDiscoveryContract {
        candidate_input_source: source.to_owned(),
        candidate_input_count,
        total_structured_candidate_count: total,
        input_is_narrowed_batch: candidate_input_count < total,
        structured_surface: found,
    }
}

} // verus!
