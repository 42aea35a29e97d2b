//! Rust-owned retrieval-route plans and projected evidence rows for a
//! `WendaoGraph.jl` `SearchStrategyFlow` trace.
//!
//! Julia owns query understanding, graph scoring, frontier pruning and planner
//! actions. From the candidates that the frontier selected or the planner acted
//! on, this module derives the Studio Flight route contract, and for every
//! candidate one projected evidence row.
use vstd::prelude::*;
use crate::text::{
    after_first, before_first, chars_of, lemma_split_rejoins, vec_eq, concat2, contains, contains_vec, has_char, lit, lower_seq,
    push_string, split_once_vec, string_of, to_ascii_lowercase_vec,
};

verus! {

/// A Markdown section candidate id split into its source path and heading anchor.
#[derive(Clone, Debug, PartialEq, Eq)]
pub struct MarkdownSectionCandidate {
    /// The text before the first `#`, or the whole id.
    pub source_path: String,
    /// The text after the first `#`, when there is such text.
    pub heading_anchor: Option<String>,
}

/// The source path of a candidate id: the text before its first `#`.
pub open spec fn section_source_path(id: Seq<char>) -> Seq<char> {
    if has_char(id, '#') {
        before_first(id, '#')
    } else {
        id
    }
}

/// The heading anchor of a candidate id: the non-empty text after its first `#`.
pub open spec fn section_heading_anchor(id: Seq<char>) -> Option<Seq<char>> {
    if has_char(id, '#') && after_first(id, '#').len() > 0 {
        Some(after_first(id, '#'))
    } else {
        None
    }
}

/// Splits a candidate id at its first `#` into source path and heading anchor.
pub fn parse_markdown_section_candidate_id(candidate_id: &str) -> (r: MarkdownSectionCandidate)
    ensures
        r.source_path@ == section_source_path(candidate_id@),
        match (r.heading_anchor, section_heading_anchor(candidate_id@)) {
            (Some(a), Some(b)) => a@ == b,
            (None, None) => true,
            _ => false,
        },
{
    let id = chars_of(candidate_id);
    match split_once_vec(&id, '#') {
        Some((source, anchor)) => {
            let heading_anchor = if anchor.len() == 0 {
                None
            } else {
                Some(string_of(&anchor))
            };
            MarkdownSectionCandidate { source_path: string_of(&source), heading_anchor }
        },
        None => MarkdownSectionCandidate { source_path: candidate_id.to_owned(), heading_anchor: None },
    }
}

/// The kind of evidence a Markdown section gives, read off its path and anchor.
#[derive(Clone, Copy, Debug, PartialEq, Eq, Structural)]
pub enum SearchStrategyFlowEvidenceKind {
    /// A `PageIndex` reasoning-tree section.
    PageIndexReasoningTree,
    /// A link-graph dependency path.
    LinkGraphDependencyPath,
    /// A validation guard.
    ValidationGuard,
    /// A notebook validation surface.
    NotebookValidationSurface,
    /// Any other `SearchStrategyFlow` authority section.
    SearchStrategyFlowAuthority,
}

/// The token of an evidence kind.
pub open spec fn evidence_kind_token(kind: SearchStrategyFlowEvidenceKind) -> Seq<char> {
    match kind {
        SearchStrategyFlowEvidenceKind::PageIndexReasoningTree => "page_index_reasoning_tree"@,
        SearchStrategyFlowEvidenceKind::LinkGraphDependencyPath => "link_graph_dependency_path"@,
        SearchStrategyFlowEvidenceKind::ValidationGuard => "validation_guard"@,
        SearchStrategyFlowEvidenceKind::NotebookValidationSurface => "notebook_validation_surface"@,
        SearchStrategyFlowEvidenceKind::SearchStrategyFlowAuthority => "search_strategy_flow_authority"@,
    }
}

impl SearchStrategyFlowEvidenceKind {
    /// The token of this evidence kind.
    pub fn as_str(&self) -> (r: &'static str)
        ensures
            r@ == evidence_kind_token(*self),
    {
        match self {
            SearchStrategyFlowEvidenceKind::PageIndexReasoningTree => "page_index_reasoning_tree",
            SearchStrategyFlowEvidenceKind::LinkGraphDependencyPath => "link_graph_dependency_path",
            SearchStrategyFlowEvidenceKind::ValidationGuard => "validation_guard",
            SearchStrategyFlowEvidenceKind::NotebookValidationSurface => "notebook_validation_surface",
            SearchStrategyFlowEvidenceKind::SearchStrategyFlowAuthority => "search_strategy_flow_authority",
        }
    }
}

/// The lowercased path, a space, and the lowercased anchor.
pub open spec fn evidence_text(source_path: Seq<char>, heading_anchor: Seq<char>) -> Seq<char> {
    lower_seq(source_path) + seq![' '] + lower_seq(heading_anchor)
}

/// The evidence kind of a section: the first family whose marker occurs in
/// its lowercased path and anchor.
pub open spec fn evidence_kind_of(source_path: Seq<char>, heading_anchor: Seq<char>) -> SearchStrategyFlowEvidenceKind {
    let t = evidence_text(source_path, heading_anchor);
    if contains(t, "page_index"@) || contains(t, "page-index"@) {
        SearchStrategyFlowEvidenceKind::PageIndexReasoningTree
    } else if contains(t, "graph_compute"@) || contains(t, "link_graph"@) || contains(
        t,
        "link-graph"@,
    ) {
        SearchStrategyFlowEvidenceKind::LinkGraphDependencyPath
    } else if contains(t, "validation"@) {
        SearchStrategyFlowEvidenceKind::ValidationGuard
    } else if contains(t, "notebook"@) || contains(t, "pluto"@) {
        SearchStrategyFlowEvidenceKind::NotebookValidationSurface
    } else {
        SearchStrategyFlowEvidenceKind::SearchStrategyFlowAuthority
    }
}

/// Classifies the evidence that a Markdown section gives.
pub fn search_strategy_flow_evidence_kind_of(source_path: &str, heading_anchor: &str) -> (r:
    SearchStrategyFlowEvidenceKind)
    ensures
        r == evidence_kind_of(source_path@, heading_anchor@),
{
    let mut t = to_ascii_lowercase_vec(&chars_of(source_path));
    t.push(' ');
    let a = to_ascii_lowercase_vec(&chars_of(heading_anchor));
    let t = concat2(&t, &a);
    assert(t@ =~= evidence_text(source_path@, heading_anchor@));
    if contains_vec(&t, &lit("page_index")) || contains_vec(&t, &lit("page-index")) {
        SearchStrategyFlowEvidenceKind::PageIndexReasoningTree
    } else if contains_vec(&t, &lit("graph_compute")) || contains_vec(&t, &lit("link_graph"))
        || contains_vec(&t, &lit("link-graph")) {
        SearchStrategyFlowEvidenceKind::LinkGraphDependencyPath
    } else if contains_vec(&t, &lit("validation")) {
        SearchStrategyFlowEvidenceKind::ValidationGuard
    } else if contains_vec(&t, &lit("notebook")) || contains_vec(&t, &lit("pluto")) {
        SearchStrategyFlowEvidenceKind::NotebookValidationSurface
    } else {
        SearchStrategyFlowEvidenceKind::SearchStrategyFlowAuthority
    }
}

/// The evidence kind token of a Markdown section.
pub fn search_strategy_flow_evidence_kind(source_path: &str, heading_anchor: &str) -> (r: &'static str)
    ensures
        r@ == evidence_kind_token(evidence_kind_of(source_path@, heading_anchor@)),
{
    search_strategy_flow_evidence_kind_of(source_path, heading_anchor).as_str()
}

/// The proof tag that an evidence kind of a bare source path adds.
pub open spec fn kind_tag(kind: SearchStrategyFlowEvidenceKind) -> Seq<char> {
    match kind {
        SearchStrategyFlowEvidenceKind::PageIndexReasoningTree => "page_index"@,
        SearchStrategyFlowEvidenceKind::LinkGraphDependencyPath => "link_graph"@,
        SearchStrategyFlowEvidenceKind::ValidationGuard => "negative_guard"@,
        SearchStrategyFlowEvidenceKind::NotebookValidationSurface => "notebook"@,
        SearchStrategyFlowEvidenceKind::SearchStrategyFlowAuthority => "search_strategy"@,
    }
}

/// The proof tags of a projected evidence row, in order.
pub open spec fn projection_tags(
    source_path: Seq<char>,
    selected: bool,
    materialized: bool,
    route_count: nat,
) -> Seq<Seq<char>> {
    seq!["rust_projected"@, "real_document"@, kind_tag(evidence_kind_of(source_path, Seq::empty()))]
        + (if selected {
        seq!["frontier_selected"@]
    } else {
        Seq::empty()
    }) + (if materialized {
        seq!["planner_materialized"@]
    } else {
        Seq::empty()
    }) + (if route_count > 0 {
        seq!["route_planned"@]
    } else {
        Seq::empty()
    })
}

/// The proof tags of one projected evidence row.
pub fn search_strategy_flow_projection_tags(
    source_path: &str,
    selected: bool,
    materialized: bool,
    route_count: usize,
) -> (r: Vec<&'static str>)
    ensures
        r@.map_values(|x: &str| x@) == projection_tags(
            source_path@,
            selected,
            materialized,
            route_count as nat,
        ),
{
    let mut tags: Vec<&'static str> = Vec::new();
    tags.push("rust_projected");
    tags.push("real_document");
    let kind = search_strategy_flow_evidence_kind_of(source_path, "");
    proof {
        reveal_strlit("");
        assert(""@ =~= Seq::<char>::empty());
    }
    let tag = match kind {
        SearchStrategyFlowEvidenceKind::PageIndexReasoningTree => "page_index",
        SearchStrategyFlowEvidenceKind::LinkGraphDependencyPath => "link_graph",
        SearchStrategyFlowEvidenceKind::ValidationGuard => "negative_guard",
        SearchStrategyFlowEvidenceKind::NotebookValidationSurface => "notebook",
        SearchStrategyFlowEvidenceKind::SearchStrategyFlowAuthority => "search_strategy",
    };
    tags.push(tag);
    let ghost base = tags@;
    if selected {
        tags.push("frontier_selected");
    }
    let ghost s1 = tags@;
    if materialized {
        tags.push("planner_materialized");
    }
    let ghost s2 = tags@;
    if route_count > 0 {
        tags.push("route_planned");
    }
    proof {
        let f = |x: &str| x@;
        let sel: Seq<Seq<char>> = if selected {
            seq!["frontier_selected"@]
        } else {
            Seq::empty()
        };
        let mat: Seq<Seq<char>> = if materialized {
            seq!["planner_materialized"@]
        } else {
            Seq::empty()
        };
        let rp: Seq<Seq<char>> = if route_count > 0 {
            seq!["route_planned"@]
        } else {
            Seq::empty()
        };
        assert(base.map_values(f) =~= seq![
            "rust_projected"@,
            "real_document"@,
            kind_tag(evidence_kind_of(source_path@, Seq::empty())),
        ]);
        assert(s1.map_values(f) =~= base.map_values(f) + sel);
        assert(s2.map_values(f) =~= s1.map_values(f) + mat);
        assert(tags@.map_values(f) =~= s2.map_values(f) + rp);
    }
    tags
}

/// One native Flight step of a planned retrieval route.
#[derive(Clone, Debug, PartialEq, Eq)]
pub struct SearchStrategyFlowFlightStepPlan {
    /// Step name.
    pub step: &'static str,
    /// Flight route the step calls.
    pub route: &'static str,
    /// Request metadata, with `<...>` placeholders for values resolved by earlier steps.
    pub metadata_templates: Vec<String>,
    /// What the step does.
    pub note: &'static str,
    /// Whether the step needs a page id resolved by an earlier step.
    pub requires_resolved_page_id: bool,
    /// Whether the step needs a node id resolved by an earlier step.
    pub requires_resolved_node_id: bool,
    /// Whether the step needs a graph node id resolved by an earlier step.
    pub requires_resolved_graph_node_id: bool,
}

/// The repo-search query for a section: `path#anchor`, or the path alone.
pub open spec fn section_query(source_path: Seq<char>, heading_anchor: Option<Seq<char>>) -> Seq<char> {
    match heading_anchor {
        Some(a) => source_path + "#"@ + a,
        None => source_path,
    }
}

pub open spec fn search_page_templates(source_path: Seq<char>, heading_anchor: Option<Seq<char>>) -> Seq<Seq<char>> {
    seq![
        "x-wendao-repo-search-repo=<repo>"@,
        "x-wendao-repo-search-query="@ + section_query(source_path, heading_anchor),
        "x-wendao-repo-search-limit=5"@,
        "x-wendao-repo-search-path-prefixes="@ + source_path,
    ]
}

pub open spec fn page_index_templates(heading_anchor: Option<Seq<char>>) -> Seq<Seq<char>> {
    seq![
        "x-wendao-repo-projected-page-index-tree-repo=<repo>"@,
        "x-wendao-repo-projected-page-index-tree-page-id=<resolved-page-id>"@,
    ] + match heading_anchor {
        Some(a) => seq!["candidate-heading-anchor="@ + a],
        None => Seq::empty(),
    }
}

pub open spec fn retrieval_context_templates() -> Seq<Seq<char>> {
    seq![
        "x-wendao-repo-projected-retrieval-context-repo=<repo>"@,
        "x-wendao-repo-projected-retrieval-context-page-id=<resolved-page-id>"@,
        "x-wendao-repo-projected-retrieval-context-node-id=<resolved-node-id>"@,
        "x-wendao-repo-projected-retrieval-context-related-limit=5"@,
    ]
}

pub open spec fn graph_context_templates() -> Seq<Seq<char>> {
    seq![
        "x-wendao-graph-node-id=<resolved-graph-node-id>"@,
        "x-wendao-graph-direction=both"@,
        "x-wendao-graph-hops=2"@,
        "x-wendao-graph-limit=50"@,
    ]
}

/// A step plan has the given fields.
pub open spec fn step_is(
    s: SearchStrategyFlowFlightStepPlan,
    step: Seq<char>,
    route: Seq<char>,
    templates: Seq<Seq<char>>,
    note: Seq<char>,
    page: bool,
    node: bool,
    graph: bool,
) -> bool {
    &&& s.step@ == step
    &&& s.route@ == route
    &&& s.metadata_templates.deep_view() == templates
    &&& s.note@ == note
    &&& s.requires_resolved_page_id == page
    &&& s.requires_resolved_node_id == node
    &&& s.requires_resolved_graph_node_id == graph
}

/// The four Flight steps that materialize one Markdown section: search the
/// page, resolve its page-index tree, open the retrieval context, expand the
/// graph context.
pub open spec fn flight_steps_are(
    r: Seq<SearchStrategyFlowFlightStepPlan>,
    source_path: Seq<char>,
    heading_anchor: Option<Seq<char>>,
) -> bool {
    &&& r.len() == 4
    &&& step_is(
        r[0],
        "flight_search_page"@,
        "/search/repos/main"@,
        search_page_templates(source_path, heading_anchor),
        "Resolve the Markdown section candidate to a page hit through native repo search."@,
        false,
        false,
        false,
    )
    &&& step_is(
        r[1],
        "flight_resolve_page_index_tree"@,
        "/analysis/repo-projected-page-index-tree"@,
        page_index_templates(heading_anchor),
        "Select the concrete page-index node from the returned tree; do not treat the Markdown anchor as the node id."@,
        true,
        false,
        false,
    )
    &&& step_is(
        r[2],
        "flight_open_retrieval_context"@,
        "/analysis/repo-projected-retrieval-context"@,
        retrieval_context_templates(),
        "Open the section-level projected retrieval context through the native Flight route."@,
        true,
        true,
        false,
    )
    &&& step_is(
        r[3],
        "flight_expand_graph_context"@,
        "/graph/neighbors"@,
        graph_context_templates(),
        "Expand document-level graph context through the graph relation layer before the next reasoning-tree branch."@,
        true,
        true,
        true,
    )
}

fn owned_list2(a: &str, b: &str) -> (r: Vec<String>)
    ensures
        r.deep_view() == seq![a@, b@],
{
    let mut r: Vec<String> = Vec::new();
    push_string(&mut r, a.to_owned());
    push_string(&mut r, b.to_owned());
    assert(r.deep_view() =~= seq![a@, b@]);
    r
}

fn owned_list4(a: &str, b: &str, c: &str, d: &str) -> (r: Vec<String>)
    ensures
        r.deep_view() == seq![a@, b@, c@, d@],
{
    let mut r = owned_list2(a, b);
    push_string(&mut r, c.to_owned());
    push_string(&mut r, d.to_owned());
    assert(r.deep_view() =~= seq![a@, b@, c@, d@]);
    r
}

fn prefixed(prefix: &str, value: &str) -> (r: String)
    ensures
        r@ == prefix@ + value@,
{
    let mut r = prefix.to_owned();
    r.append(value);
    r
}

/// The Flight steps that materialize one Markdown section candidate.
pub fn search_strategy_flow_flight_steps(source_path: &str, heading_anchor: Option<&str>) -> (r: Vec<
    SearchStrategyFlowFlightStepPlan,
>)
    ensures
        flight_steps_are(
            r@,
            source_path@,
            match heading_anchor {
                Some(a) => Some(a@),
                None => None,
            },
        ),
{
    let ghost anchor_view: Option<Seq<char>> = match heading_anchor {
        Some(a) => Some(a@),
        None => None,
    };
    let query = match heading_anchor {
        Some(a) => {
            let mut q = source_path.to_owned();
            q.append("#");
            q.append(a);
            q
        },
        None => source_path.to_owned(),
    };
    assert(query@ == section_query(source_path@, anchor_view));
    let mut search_templates: Vec<String> = Vec::new();
    push_string(&mut search_templates, "x-wendao-repo-search-repo=<repo>".to_owned());
    push_string(&mut search_templates, prefixed("x-wendao-repo-search-query=", query.as_str()));
    push_string(&mut search_templates, "x-wendao-repo-search-limit=5".to_owned());
    push_string(
        &mut search_templates,
        prefixed("x-wendao-repo-search-path-prefixes=", source_path),
    );
    assert(search_templates.deep_view() =~= search_page_templates(source_path@, anchor_view));
    let mut page_index_templates_v = owned_list2(
        "x-wendao-repo-projected-page-index-tree-repo=<repo>",
        "x-wendao-repo-projected-page-index-tree-page-id=<resolved-page-id>",
    );
    if let Some(a) = heading_anchor {
        push_string(&mut page_index_templates_v, prefixed("candidate-heading-anchor=", a));
    }
    assert(page_index_templates_v.deep_view() =~= page_index_templates(anchor_view));
    let mut steps: Vec<SearchStrategyFlowFlightStepPlan> = Vec::new();
    steps.push(
        SearchStrategyFlowFlightStepPlan {
            step: "flight_search_page",
            route: "/search/repos/main",
            metadata_templates: search_templates,
            note: "Resolve the Markdown section candidate to a page hit through native repo search.",
            requires_resolved_page_id: false,
            requires_resolved_node_id: false,
            requires_resolved_graph_node_id: false,
        },
    );
    steps.push(
        SearchStrategyFlowFlightStepPlan {
            step: "flight_resolve_page_index_tree",
            route: "/analysis/repo-projected-page-index-tree",
            metadata_templates: page_index_templates_v,
            note: "Select the concrete page-index node from the returned tree; do not treat the Markdown anchor as the node id.",
            requires_resolved_page_id: true,
            requires_resolved_node_id: false,
            requires_resolved_graph_node_id: false,
        },
    );
    steps.push(
        SearchStrategyFlowFlightStepPlan {
            step: "flight_open_retrieval_context",
            route: "/analysis/repo-projected-retrieval-context",
            metadata_templates: owned_list4(
                "x-wendao-repo-projected-retrieval-context-repo=<repo>",
                "x-wendao-repo-projected-retrieval-context-page-id=<resolved-page-id>",
                "x-wendao-repo-projected-retrieval-context-node-id=<resolved-node-id>",
                "x-wendao-repo-projected-retrieval-context-related-limit=5",
            ),
            note: "Open the section-level projected retrieval context through the native Flight route.",
            requires_resolved_page_id: true,
            requires_resolved_node_id: true,
            requires_resolved_graph_node_id: false,
        },
    );
    steps.push(
        SearchStrategyFlowFlightStepPlan {
            step: "flight_expand_graph_context",
            route: "/graph/neighbors",
            metadata_templates: owned_list4(
                "x-wendao-graph-node-id=<resolved-graph-node-id>",
                "x-wendao-graph-direction=both",
                "x-wendao-graph-hops=2",
                "x-wendao-graph-limit=50",
            ),
            note: "Expand document-level graph context through the graph relation layer before the next reasoning-tree branch.",
            requires_resolved_page_id: true,
            requires_resolved_node_id: true,
            requires_resolved_graph_node_id: true,
        },
    );
    steps
}

/// One frontier row of a trace, as far as route planning reads it.
#[derive(Clone, Debug, PartialEq, Eq)]
pub struct SearchStrategyFlowFrontierRow {
    /// The row's `candidateId`, when it is a string.
    pub candidate_id: Option<String>,
    /// The row's `selected` flag (`false` when absent).
    pub selected: bool,
}

/// One planner action of a trace, as far as route planning reads it.
#[derive(Clone, Debug, PartialEq, Eq)]
pub struct SearchStrategyFlowPlannerActionRow {
    /// The action's `actionKind`, when it is a string.
    pub action_kind: Option<String>,
    /// The action's `candidateId`, when it is a string.
    pub candidate_id: Option<String>,
    /// The action's `targetCandidateId`, when it is a string.
    pub target_candidate_id: Option<String>,
}

/// One candidate of a trace, as far as route planning reads it.
#[derive(Clone, Debug, PartialEq, Eq)]
pub struct SearchStrategyFlowTraceCandidate {
    /// The candidate's `candidateId`, when it is a string.
    pub candidate_id: Option<String>,
    /// The candidate's `blocked` flag (`false` when absent).
    pub blocked: bool,
    /// The candidate's `contextCost` (`0` when absent).
    pub context_cost: usize,
}

/// The parts of a `WendaoGraph.jl` `SearchStrategyFlow` trace that route planning reads.
#[derive(Clone, Debug, PartialEq, Eq)]
pub struct SearchStrategyFlowTrace {
    /// `frontier` rows, in order.
    pub frontier: Vec<SearchStrategyFlowFrontierRow>,
    /// `plannerActions` rows, in order.
    pub planner_actions: Vec<SearchStrategyFlowPlannerActionRow>,
    /// `candidates` rows, in order.
    pub candidates: Vec<SearchStrategyFlowTraceCandidate>,
}

/// An optional string field holds exactly `id`.
pub open spec fn names(field: Option<String>, id: Seq<char>) -> bool {
    field matches Some(s) && s@ == id
}

/// Some selected frontier row names `id`.
pub open spec fn frontier_selects(frontier: Seq<SearchStrategyFlowFrontierRow>, id: Seq<char>) -> bool {
    exists|i: int| 0 <= i < frontier.len() && #[trigger] frontier[i].selected && names(frontier[i].candidate_id, id)
}

/// A planner action names the non-empty `id` as its candidate or its target.
pub open spec fn action_names(a: SearchStrategyFlowPlannerActionRow, id: Seq<char>) -> bool {
    id.len() > 0 && (names(a.candidate_id, id) || names(a.target_candidate_id, id))
}

/// Some planner action other than `stop` names `id`.
pub open spec fn planner_targets(actions: Seq<SearchStrategyFlowPlannerActionRow>, id: Seq<char>) -> bool {
    exists|i: int| 0 <= i < actions.len() && !names(actions[i].action_kind, "stop"@) && #[trigger] action_names(actions[i], id)
}

/// Some `materialize` planner action names `id`.
pub open spec fn planner_materializes(actions: Seq<SearchStrategyFlowPlannerActionRow>, id: Seq<char>) -> bool {
    exists|i: int| 0 <= i < actions.len() && names(actions[i].action_kind, "materialize"@) && #[trigger] action_names(actions[i], id)
}

fn field_names(field: &Option<String>, id: &[char]) -> (b: bool)
    ensures
        b == names(*field, id@),
{
    match field {
        Some(s) => vec_eq(&chars_of(s.as_str()), id),
        None => false,
    }
}

fn frontier_selects_exec(frontier: &Vec<SearchStrategyFlowFrontierRow>, id: &[char]) -> (b: bool)
    ensures
        b == frontier_selects(frontier@, id@),
{
    let mut i: usize = 0;
    while i < frontier.len()
        invariant
            i <= frontier.len(),
            forall|j: int| 0 <= j < i ==> !(#[trigger] frontier@[j].selected && names(frontier@[j].candidate_id, id@)),
        decreases frontier.len() - i,
    {
        if frontier[i].selected && field_names(&frontier[i].candidate_id, id) {
            return true;
        }
        i = i + 1;
    }
    false
}

fn action_names_exec(a: &SearchStrategyFlowPlannerActionRow, id: &[char]) -> (b: bool)
    ensures
        b == action_names(*a, id@),
{
    id.len() > 0 && (field_names(&a.candidate_id, id) || field_names(&a.target_candidate_id, id))
}

fn planner_targets_exec(actions: &Vec<SearchStrategyFlowPlannerActionRow>, id: &[char]) -> (b: bool)
    ensures
        b == planner_targets(actions@, id@),
{
    let stop = lit("stop");
    let mut i: usize = 0;
    while i < actions.len()
        invariant
            i <= actions.len(),
            stop@ == "stop"@,
            forall|j: int| 0 <= j < i ==> !(!names(actions@[j].action_kind, "stop"@) && #[trigger] action_names(actions@[j], id@)),
        decreases actions.len() - i,
    {
        if !field_names(&actions[i].action_kind, &stop) && action_names_exec(&actions[i], id) {
            return true;
        }
        i = i + 1;
    }
    false
}

fn planner_materializes_exec(actions: &Vec<SearchStrategyFlowPlannerActionRow>, id: &[char]) -> (b: bool)
    ensures
        b == planner_materializes(actions@, id@),
{
    let kind = lit("materialize");
    let mut i: usize = 0;
    while i < actions.len()
        invariant
            i <= actions.len(),
            kind@ == "materialize"@,
            forall|j: int| 0 <= j < i ==> !(names(actions@[j].action_kind, "materialize"@) && #[trigger] action_names(actions@[j], id@)),
        decreases actions.len() - i,
    {
        if field_names(&actions[i].action_kind, &kind) && action_names_exec(&actions[i], id) {
            return true;
        }
        i = i + 1;
    }
    false
}

/// A candidate gets a retrieval route: it is not blocked, the frontier selected
/// it or a planner action other than `stop` names it, and its id carries a
/// heading anchor.
pub open spec fn candidate_routed(c: SearchStrategyFlowTraceCandidate, t: SearchStrategyFlowTrace) -> bool {
    &&& !c.blocked
    &&& c.candidate_id is Some
    &&& frontier_selects(t.frontier@, c.candidate_id->0@) || planner_targets(t.planner_actions@, c.candidate_id->0@)
    &&& section_heading_anchor(c.candidate_id->0@) is Some
}

/// The ids of the routed candidates, in candidate order.
pub open spec fn routed_ids(cands: Seq<SearchStrategyFlowTraceCandidate>, t: SearchStrategyFlowTrace) -> Seq<Seq<char>>
    decreases cands.len(),
{
    if cands.len() == 0 {
        Seq::empty()
    } else if candidate_routed(cands.last(), t) {
        routed_ids(cands.drop_last(), t).push(cands.last().candidate_id->0@)
    } else {
        routed_ids(cands.drop_last(), t)
    }
}

/// A planned retrieval route for one Markdown section candidate.
#[derive(Clone, Debug, PartialEq, Eq)]
pub struct SearchStrategyFlowRetrievalRoutePlan {
    /// The candidate id.
    pub candidate_id: String,
    /// Who materializes the route (`studio-rust`).
    pub materialization_owner: &'static str,
    /// Materialization status (`planned`).
    pub materialization_status: &'static str,
    /// Receipt source (`rust-bridge`).
    pub receipt_source: &'static str,
    /// Primary transport (`arrow-flight`).
    pub primary_transport: &'static str,
    /// Source path of the section.
    pub source_path: String,
    /// Heading anchor of the section.
    pub heading_anchor: String,
    /// Whether the Agent may read the file directly (never).
    pub direct_file_read_allowed: bool,
    /// Whether the route runs before an answer (always).
    pub execute_before_answer: bool,
    /// The Flight steps, in order.
    pub flight_steps: Vec<SearchStrategyFlowFlightStepPlan>,
}

/// A route plan is the plan for candidate `id`.
pub open spec fn route_plan_for(p: SearchStrategyFlowRetrievalRoutePlan, id: Seq<char>) -> bool {
    &&& p.candidate_id@ == id
    &&& p.materialization_owner@ == "studio-rust"@
    &&& p.materialization_status@ == "planned"@
    &&& p.receipt_source@ == "rust-bridge"@
    &&& p.primary_transport@ == "arrow-flight"@
    &&& p.source_path@ == section_source_path(id)
    &&& section_heading_anchor(id) matches Some(a) && p.heading_anchor@ == a
    &&& !p.direct_file_read_allowed
    &&& p.execute_before_answer
    &&& flight_steps_are(p.flight_steps@, section_source_path(id), section_heading_anchor(id))
}

/// The route plan for a candidate id, when its id carries a heading anchor.
pub fn search_strategy_flow_retrieval_route(candidate_id: &str) -> (r: Option<SearchStrategyFlowRetrievalRoutePlan>)
    ensures
        match r {
            Some(p) => route_plan_for(p, candidate_id@),
            None => section_heading_anchor(candidate_id@) is None,
        },
{
    let section = parse_markdown_section_candidate_id(candidate_id);
    match section.heading_anchor {
        Some(anchor) => {
            let flight_steps = search_strategy_flow_flight_steps(section.source_path.as_str(), Some(anchor.as_str()));
            Some(SearchStrategyFlowRetrievalRoutePlan {
                candidate_id: candidate_id.to_owned(),
                materialization_owner: "studio-rust",
                materialization_status: "planned",
                receipt_source: "rust-bridge",
                primary_transport: "arrow-flight",
                source_path: section.source_path,
                heading_anchor: anchor,
                direct_file_read_allowed: false,
                execute_before_answer: true,
                flight_steps,
            })
        },
        None => None,
    }
}

/// Plans one retrieval route for every routed candidate, in candidate order.
pub fn build_search_strategy_flow_retrieval_routes(trace: &SearchStrategyFlowTrace) -> (r: Vec<SearchStrategyFlowRetrievalRoutePlan>)
    ensures
        r@.len() == routed_ids(trace.candidates@, *trace).len(),
        forall|i: int| 0 <= i < r@.len() ==> route_plan_for(#[trigger] r@[i], routed_ids(trace.candidates@, *trace)[i]),
{
    let mut routes: Vec<SearchStrategyFlowRetrievalRoutePlan> = Vec::new();
    let mut i: usize = 0;
    while i < trace.candidates.len()
        invariant
            i <= trace.candidates.len(),
            routes@.len() == routed_ids(trace.candidates@.take(i as int), *trace).len(),
            forall|j: int| 0 <= j < routes@.len() ==> route_plan_for(#[trigger] routes@[j], routed_ids(trace.candidates@.take(i as int), *trace)[j]),
        decreases trace.candidates.len() - i,
    {
        let c = &trace.candidates[i];
        let ghost prev = trace.candidates@.take(i as int);
        assert(trace.candidates@.take(i + 1).drop_last() =~= prev);
        assert(trace.candidates@.take(i + 1).last() == *c);
        if !c.blocked {
            if let Some(id) = &c.candidate_id {
                let idv = chars_of(id.as_str());
                if frontier_selects_exec(&trace.frontier, &idv) || planner_targets_exec(&trace.planner_actions, &idv) {
                    if let Some(plan) = search_strategy_flow_retrieval_route(id.as_str()) {
                        routes.push(plan);
                    }
                }
            }
        }
        i = i + 1;
    }
    assert(trace.candidates@.take(trace.candidates.len() as int) =~= trace.candidates@);
    routes
}

/// How many times `id` occurs in `ids`.
pub open spec fn count_of(ids: Seq<Seq<char>>, id: Seq<char>) -> nat
    decreases ids.len(),
{
    if ids.len() == 0 {
        0
    } else {
        count_of(ids.drop_last(), id) + if ids.last() == id {
            1nat
        } else {
            0nat
        }
    }
}

/// The candidate ids of a list of route plans.
pub open spec fn plan_ids(routes: Seq<SearchStrategyFlowRetrievalRoutePlan>) -> Seq<Seq<char>> {
    routes.map_values(|p: SearchStrategyFlowRetrievalRoutePlan| p.candidate_id@)
}

proof fn lemma_count_of_bound(ids: Seq<Seq<char>>, id: Seq<char>)
    ensures
        count_of(ids, id) <= ids.len(),
    decreases ids.len(),
{
    if ids.len() > 0 {
        lemma_count_of_bound(ids.drop_last(), id);
    }
}

/// The number of planned routes for one candidate id.
pub fn search_strategy_flow_route_count(routes: &Vec<SearchStrategyFlowRetrievalRoutePlan>, candidate_id: &str) -> (r: usize)
    ensures
        r == count_of(plan_ids(routes@), candidate_id@),
{
    let id = chars_of(candidate_id);
    let mut count: usize = 0;
    let mut i: usize = 0;
    while i < routes.len()
        invariant
            i <= routes.len(),
            id@ == candidate_id@,
            count == count_of(plan_ids(routes@).take(i as int), candidate_id@),
        decreases routes.len() - i,
    {
        let ghost prev = plan_ids(routes@).take(i as int);
        assert(plan_ids(routes@).take(i + 1).drop_last() =~= prev);
        proof {
            lemma_count_of_bound(prev, candidate_id@);
        }
        if vec_eq(&chars_of(routes[i].candidate_id.as_str()), &id) {
            count = count + 1;
        }
        i = i + 1;
    }
    assert(plan_ids(routes@).take(routes.len() as int) =~= plan_ids(routes@));
    count
}

/// One projected evidence row of a trace candidate.
#[derive(Clone, Debug, PartialEq, Eq)]
pub struct SearchStrategyFlowProjectedEvidenceRow {
    /// Projection source (`rust-bridge-search-strategy-flow-v1`).
    pub projection_source: &'static str,
    /// The candidate id.
    pub candidate_id: String,
    /// Source path of the section.
    pub source_path: String,
    /// Heading anchor of the section, or empty.
    pub heading_anchor: String,
    /// Evidence kind token.
    pub evidence_kind: &'static str,
    /// The candidate's context cost.
    pub context_cost: usize,
    /// Whether the candidate is blocked.
    pub blocked: bool,
    /// Whether the frontier selected the candidate.
    pub selected: bool,
    /// Whether a `materialize` planner action names the candidate.
    pub planner_materialized: bool,
    /// Number of planned retrieval routes for the candidate.
    pub retrieval_route_count: usize,
    /// Whether at least one route is planned.
    pub route_planned: bool,
    /// Proof tags, in order.
    pub proof_tags: Vec<&'static str>,
}

/// The heading anchor of an id, or empty text.
pub open spec fn anchor_or_empty(id: Seq<char>) -> Seq<char> {
    match section_heading_anchor(id) {
        Some(a) => a,
        None => Seq::empty(),
    }
}

/// An evidence row is the row for candidate `c` of trace `t`, given the ids of the planned routes.
pub open spec fn evidence_row_for(
    row: SearchStrategyFlowProjectedEvidenceRow,
    c: SearchStrategyFlowTraceCandidate,
    t: SearchStrategyFlowTrace,
    route_ids: Seq<Seq<char>>,
) -> bool {
    let id = c.candidate_id->0@;
    let count = count_of(route_ids, id);
    let selected = frontier_selects(t.frontier@, id);
    let materialized = planner_materializes(t.planner_actions@, id);
    &&& row.projection_source@ == "rust-bridge-search-strategy-flow-v1"@
    &&& row.candidate_id@ == id
    &&& row.source_path@ == section_source_path(id)
    &&& row.heading_anchor@ == anchor_or_empty(id)
    &&& row.evidence_kind@ == evidence_kind_token(evidence_kind_of(section_source_path(id), anchor_or_empty(id)))
    &&& row.context_cost == c.context_cost
    &&& row.blocked == c.blocked
    &&& row.selected == selected
    &&& row.planner_materialized == materialized
    &&& row.retrieval_route_count == count
    &&& row.route_planned == (count > 0)
    &&& row.proof_tags@.map_values(|x: &str| x@) == projection_tags(section_source_path(id), selected, materialized, count)
}

/// The candidates that carry an id, in order.
pub open spec fn identified(cands: Seq<SearchStrategyFlowTraceCandidate>) -> Seq<SearchStrategyFlowTraceCandidate> {
    cands.filter(|c: SearchStrategyFlowTraceCandidate| c.candidate_id is Some)
}

/// The projected evidence row of one candidate.
pub fn search_strategy_flow_rust_projected_evidence_row(
    candidate_id: &str,
    candidate: &SearchStrategyFlowTraceCandidate,
    trace: &SearchStrategyFlowTrace,
    routes: &Vec<SearchStrategyFlowRetrievalRoutePlan>,
) -> (r: SearchStrategyFlowProjectedEvidenceRow)
    requires
        names(candidate.candidate_id, candidate_id@),
    ensures
        evidence_row_for(r, *candidate, *trace, plan_ids(routes@)),
{
    let section = parse_markdown_section_candidate_id(candidate_id);
    let heading_anchor = match section.heading_anchor {
        Some(a) => a,
        None => String::new(),
    };
    proof {
        if section_heading_anchor(candidate_id@) is None {
            assert(heading_anchor@ =~= anchor_or_empty(candidate_id@));
        }
    }
    let idv = chars_of(candidate_id);
    let selected = frontier_selects_exec(&trace.frontier, &idv);
    let materialized = planner_materializes_exec(&trace.planner_actions, &idv);
    let route_count = search_strategy_flow_route_count(routes, candidate_id);
    let evidence_kind = search_strategy_flow_evidence_kind(section.source_path.as_str(), heading_anchor.as_str());
    let proof_tags = search_strategy_flow_projection_tags(section.source_path.as_str(), selected, materialized, route_count);
    SearchStrategyFlowProjectedEvidenceRow {
        projection_source: "rust-bridge-search-strategy-flow-v1",
        candidate_id: candidate_id.to_owned(),
        source_path: section.source_path,
        heading_anchor,
        evidence_kind,
        context_cost: candidate.context_cost,
        blocked: candidate.blocked,
        selected,
        planner_materialized: materialized,
        retrieval_route_count: route_count,
        route_planned: route_count > 0,
        proof_tags,
    }
}

/// One projected evidence row for every candidate that carries an id, in candidate order.
pub fn build_search_strategy_flow_rust_projected_evidence_rows(
    trace: &SearchStrategyFlowTrace,
    routes: &Vec<SearchStrategyFlowRetrievalRoutePlan>,
) -> (r: Vec<SearchStrategyFlowProjectedEvidenceRow>)
    ensures
        r@.len() == identified(trace.candidates@).len(),
        forall|i: int| 0 <= i < r@.len() ==> evidence_row_for(#[trigger] r@[i], identified(trace.candidates@)[i], *trace, plan_ids(routes@)),
{
    let mut rows: Vec<SearchStrategyFlowProjectedEvidenceRow> = Vec::new();
    let mut i: usize = 0;
    while i < trace.candidates.len()
        invariant
            i <= trace.candidates.len(),
            rows@.len() == identified(trace.candidates@.take(i as int)).len(),
            forall|j: int| 0 <= j < rows@.len() ==> evidence_row_for(#[trigger] rows@[j], identified(trace.candidates@.take(i as int))[j], *trace, plan_ids(routes@)),
        decreases trace.candidates.len() - i,
    {
        let c = &trace.candidates[i];
        let ghost prev = trace.candidates@.take(i as int);
        assert(trace.candidates@.take(i + 1) =~= prev.push(*c));
        proof {
            let f = |c: SearchStrategyFlowTraceCandidate| c.candidate_id is Some;
            prev.lemma_filter_push(*c, f);
        }
        if let Some(id) = &c.candidate_id {
            let row = search_strategy_flow_rust_projected_evidence_row(id.as_str(), c, trace, routes);
            rows.push(row);
        }
        i = i + 1;
    }
    assert(trace.candidates@.take(trace.candidates.len() as int) =~= trace.candidates@);
    rows
}

/// The Rust-owned additions to a trace: its retrieval routes and its projected evidence rows.
#[derive(Clone, Debug, PartialEq, Eq)]
pub struct SearchStrategyFlowTraceProjection {
    /// `retrievalRoutes`.
    pub retrieval_routes: Vec<SearchStrategyFlowRetrievalRoutePlan>,
    /// `rustProjectedEvidenceRows`.
    pub rust_projected_evidence_rows: Vec<SearchStrategyFlowProjectedEvidenceRow>,
}

/// Derives the retrieval routes of a trace, then one evidence row per identified candidate.
pub fn project_search_strategy_flow_trace(trace: &SearchStrategyFlowTrace) -> (r: SearchStrategyFlowTraceProjection)
    ensures
        r.retrieval_routes@.len() == routed_ids(trace.candidates@, *trace).len(),
        forall|i: int| 0 <= i < r.retrieval_routes@.len() ==> route_plan_for(#[trigger] r.retrieval_routes@[i], routed_ids(trace.candidates@, *trace)[i]),
        r.rust_projected_evidence_rows@.len() == identified(trace.candidates@).len(),
        forall|i: int| 0 <= i < r.rust_projected_evidence_rows@.len() ==> evidence_row_for(
            #[trigger] r.rust_projected_evidence_rows@[i],
            identified(trace.candidates@)[i],
            *trace,
            routed_ids(trace.candidates@, *trace),
        ),
{
    let retrieval_routes = build_search_strategy_flow_retrieval_routes(trace);
    let rust_projected_evidence_rows = build_search_strategy_flow_rust_projected_evidence_rows(trace, &retrieval_routes);
    assert(plan_ids(retrieval_routes@) =~= routed_ids(trace.candidates@, *trace));
    SearchStrategyFlowTraceProjection { retrieval_routes, rust_projected_evidence_rows }
}

/// A candidate id splits back into itself: when it carries a heading anchor,
/// the source path, `#` and the anchor spell the id; otherwise the source path
/// is the id, or the id is the source path followed by a bare `#`.
pub proof fn lemma_section_candidate_rejoins(id: Seq<char>)
    ensures
        match section_heading_anchor(id) {
            Some(a) => id == section_source_path(id) + "#"@ + a && !section_source_path(id).contains('#'),
            None => id == section_source_path(id) || id == section_source_path(id) + "#"@,
        },
{
    reveal_strlit("#");
    if has_char(id, '#') {
        lemma_split_rejoins(id, '#');
        assert(seq!['#'] =~= "#"@);
        if after_first(id, '#').len() == 0 {
            assert(id =~= before_first(id, '#') + "#"@);
        }
    }
}

/// A candidate id occurs among the routed ids exactly when some candidate with
/// that id is routed: it is not blocked, selected or planned, and anchored.
pub proof fn lemma_routed_iff_some_candidate_routed(
    cands: Seq<SearchStrategyFlowTraceCandidate>,
    t: SearchStrategyFlowTrace,
    id: Seq<char>,
)
    ensures
        count_of(routed_ids(cands, t), id) > 0 <==> exists|j: int|
            0 <= j < cands.len() && candidate_routed(#[trigger] cands[j], t) && cands[j].candidate_id->0@ == id,
    decreases cands.len(),
{
    if cands.len() > 0 {
        let init = cands.drop_last();
        let last = cands.last();
        lemma_routed_iff_some_candidate_routed(init, t, id);
        let ri = routed_ids(init, t);
        if candidate_routed(last, t) {
            assert(ri.push(last.candidate_id->0@).drop_last() =~= ri);
            assert(count_of(routed_ids(cands, t), id) == count_of(ri, id) + if last.candidate_id->0@ == id {
                1nat
            } else {
                0nat
            });
        } else {
            assert(count_of(routed_ids(cands, t), id) == count_of(ri, id));
        }
        if count_of(ri, id) > 0 {
            let j = choose|j: int| 0 <= j < init.len() && candidate_routed(#[trigger] init[j], t) && init[j].candidate_id->0@ == id;
            assert(cands[j] == init[j]);
        }
        assert forall|j: int| 0 <= j < cands.len() && candidate_routed(#[trigger] cands[j], t) && cands[j].candidate_id->0@ == id
            implies count_of(routed_ids(cands, t), id) > 0 by {
            if j < init.len() {
                assert(init[j] == cands[j]);
            }
        }
    }
}

/// Every routed id carries a heading anchor, and every routed candidate is unblocked.
pub proof fn lemma_routed_ids_are_anchored(cands: Seq<SearchStrategyFlowTraceCandidate>, t: SearchStrategyFlowTrace)
    ensures
        forall|i: int| 0 <= i < routed_ids(cands, t).len() ==> section_heading_anchor(#[trigger] routed_ids(cands, t)[i]) is Some,
        routed_ids(cands, t).len() <= cands.len(),
    decreases cands.len(),
{
    if cands.len() > 0 {
        lemma_routed_ids_are_anchored(cands.drop_last(), t);
        let prev = routed_ids(cands.drop_last(), t);
        assert forall|i: int| 0 <= i < routed_ids(cands, t).len() implies section_heading_anchor(#[trigger] routed_ids(cands, t)[i]) is Some by {
            if i < prev.len() {
                assert(routed_ids(cands, t)[i] == prev[i]);
            }
        }
    }
}

} // verus!
