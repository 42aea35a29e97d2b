use xiuxian_wendao_julia::ontology_request::{
    build_wendaograph_ontology_read_model_quality_flight_binding,
    WendaoGraphOntologyReadModelQualityArrowRequest,
    WendaoGraphOntologyReadModelQualityFlightBindingOptions,
};
use xiuxian_wendao_julia::probe_actions::{
    parse_search_strategy_flow_probe_action, search_strategy_flow_probe_action_route,
    validate_search_strategy_flow_intent, SearchStrategyFlowProbeAction,
};
use xiuxian_wendao_julia::trace_routes::{
    build_search_strategy_flow_retrieval_routes, parse_markdown_section_candidate_id,
    project_search_strategy_flow_trace, search_strategy_flow_evidence_kind,
    search_strategy_flow_flight_steps, search_strategy_flow_projection_tags,
    search_strategy_flow_route_count, SearchStrategyFlowFrontierRow,
    SearchStrategyFlowPlannerActionRow, SearchStrategyFlowTrace, SearchStrategyFlowTraceCandidate,
};

#[test]
fn probe_action_parse_accepts_whitelisted_kind_with_payload() {
    assert_eq!(
        parse_search_strategy_flow_probe_action("  expand_neighbors:node-7 "),
        Ok(SearchStrategyFlowProbeAction::ExpandNeighbors)
    );
    assert_eq!(
        parse_search_strategy_flow_probe_action("stop"),
        Ok(SearchStrategyFlowProbeAction::Stop)
    );
    assert_eq!(
        parse_search_strategy_flow_probe_action("open_adjacent_sections:a:b"),
        Ok(SearchStrategyFlowProbeAction::OpenAdjacentSections)
    );
}

#[test]
fn probe_action_parse_refuses_unknown_kind() {
    assert_eq!(
        parse_search_strategy_flow_probe_action(" jump:x "),
        Err("SearchStrategyFlow probe action `jump` is not whitelisted".to_string())
    );
    assert_eq!(
        parse_search_strategy_flow_probe_action(""),
        Err("SearchStrategyFlow probe action `` is not whitelisted".to_string())
    );
}

#[test]
fn probe_action_routes_map_to_native_flight_routes() {
    assert_eq!(
        search_strategy_flow_probe_action_route("expand_neighbors"),
        Ok(Some("/graph/neighbors"))
    );
    assert_eq!(
        search_strategy_flow_probe_action_route("open_parent_child"),
        Ok(Some("/analysis/repo-projected-page-index-tree"))
    );
    assert_eq!(
        search_strategy_flow_probe_action_route("compare_provenance"),
        Ok(Some("/search/repos/main"))
    );
    assert_eq!(
        search_strategy_flow_probe_action_route("open_adjacent_sections"),
        Ok(Some("/analysis/repo-projected-retrieval-context"))
    );
    assert_eq!(search_strategy_flow_probe_action_route("stop:now"), Ok(None));
    assert!(search_strategy_flow_probe_action_route("explode").is_err());
}

#[test]
fn blank_intent_is_refused() {
    assert_eq!(
        validate_search_strategy_flow_intent(" \t\n"),
        Err("SearchStrategyFlow intent must not be blank".to_string())
    );
    assert_eq!(validate_search_strategy_flow_intent("page index"), Ok(()));
}

#[test]
fn section_candidate_id_splits_at_first_hash() {
    let with_anchor = parse_markdown_section_candidate_id("docs/a.md#stage-1#x");
    assert_eq!(with_anchor.source_path, "docs/a.md");
    assert_eq!(with_anchor.heading_anchor.as_deref(), Some("stage-1#x"));
    let empty_anchor = parse_markdown_section_candidate_id("docs/a.md#");
    assert_eq!(empty_anchor.source_path, "docs/a.md");
    assert_eq!(empty_anchor.heading_anchor, None);
    let no_anchor = parse_markdown_section_candidate_id("docs/a.md");
    assert_eq!(no_anchor.source_path, "docs/a.md");
    assert_eq!(no_anchor.heading_anchor, None);
}

#[test]
fn evidence_kind_follows_path_and_anchor_markers() {
    assert_eq!(
        search_strategy_flow_evidence_kind("docs/20_Page_Index/tree.md", ""),
        "page_index_reasoning_tree"
    );
    assert_eq!(
        search_strategy_flow_evidence_kind("docs/x.md", "Link-Graph-fanout"),
        "link_graph_dependency_path"
    );
    assert_eq!(
        search_strategy_flow_evidence_kind("docs/10_graph_compute/a.md", "validation"),
        "link_graph_dependency_path"
    );
    assert_eq!(
        search_strategy_flow_evidence_kind("docs/x.md", "validation-gate"),
        "validation_guard"
    );
    assert_eq!(
        search_strategy_flow_evidence_kind("notebooks/Pluto.jl", ""),
        "notebook_validation_surface"
    );
    assert_eq!(
        search_strategy_flow_evidence_kind("docs/search.md", "intro"),
        "search_strategy_flow_authority"
    );
}

#[test]
fn projection_tags_list_kind_and_route_state() {
    assert_eq!(
        search_strategy_flow_projection_tags("docs/search.md", true, false, 2),
        vec!["rust_projected", "real_document", "search_strategy", "frontier_selected", "route_planned"]
    );
    assert_eq!(
        search_strategy_flow_projection_tags("docs/page_index.md", false, true, 0),
        vec!["rust_projected", "real_document", "page_index", "planner_materialized"]
    );
}

#[test]
fn flight_steps_resolve_page_then_tree_then_context_then_graph() {
    let steps = search_strategy_flow_flight_steps("docs/a.md", Some("intro"));
    assert_eq!(steps.len(), 4);
    assert_eq!(steps[0].step, "flight_search_page");
    assert_eq!(steps[0].route, "/search/repos/main");
    assert_eq!(
        steps[0].metadata_templates,
        vec![
            "x-wendao-repo-search-repo=<repo>".to_string(),
            "x-wendao-repo-search-query=docs/a.md#intro".to_string(),
            "x-wendao-repo-search-limit=5".to_string(),
            "x-wendao-repo-search-path-prefixes=docs/a.md".to_string(),
        ]
    );
    assert_eq!(
        steps[1].metadata_templates.last().map(String::as_str),
        Some("candidate-heading-anchor=intro")
    );
    assert!(steps[1].requires_resolved_page_id && !steps[1].requires_resolved_node_id);
    assert_eq!(steps[2].route, "/analysis/repo-projected-retrieval-context");
    assert!(steps[3].requires_resolved_graph_node_id);
    assert!(!steps[2].requires_resolved_graph_node_id);
    let bare = search_strategy_flow_flight_steps("docs/a.md", None);
    assert_eq!(bare[0].metadata_templates[1], "x-wendao-repo-search-query=docs/a.md");
    assert_eq!(bare[1].metadata_templates.len(), 2);
}

fn trace_fixture() -> SearchStrategyFlowTrace {
    let cand = |id: Option<&str>, blocked: bool, cost: usize| SearchStrategyFlowTraceCandidate {
        candidate_id: id.map(str::to_string),
        blocked,
        context_cost: cost,
    };
    SearchStrategyFlowTrace {
        frontier: vec![
            SearchStrategyFlowFrontierRow {
                candidate_id: Some("docs/a.md#intro".to_string()),
                selected: true,
            },
            SearchStrategyFlowFrontierRow {
                candidate_id: Some("docs/b.md#body".to_string()),
                selected: false,
            },
        ],
        planner_actions: vec![
            SearchStrategyFlowPlannerActionRow {
                action_kind: Some("materialize".to_string()),
                candidate_id: None,
                target_candidate_id: Some("docs/c.md#deep".to_string()),
            },
            SearchStrategyFlowPlannerActionRow {
                action_kind: Some("stop".to_string()),
                candidate_id: Some("docs/b.md#body".to_string()),
                target_candidate_id: None,
            },
        ],
        candidates: vec![
            cand(Some("docs/a.md#intro"), false, 40),
            cand(Some("docs/b.md#body"), false, 10),
            cand(Some("docs/c.md#deep"), false, 12),
            cand(Some("docs/d.md"), false, 8),
            cand(Some("docs/c.md#deep"), true, 3),
            cand(None, false, 1),
        ],
    }
}

#[test]
fn retrieval_routes_cover_selected_and_planned_unblocked_sections() {
    let trace = trace_fixture();
    let routes = build_search_strategy_flow_retrieval_routes(&trace);
    let ids: Vec<&str> = routes.iter().map(|r| r.candidate_id.as_str()).collect();
    assert_eq!(ids, vec!["docs/a.md#intro", "docs/c.md#deep"]);
    assert_eq!(routes[0].materialization_owner, "studio-rust");
    assert_eq!(routes[0].materialization_status, "planned");
    assert_eq!(routes[1].source_path, "docs/c.md");
    assert_eq!(routes[1].heading_anchor, "deep");
    assert!(!routes[1].direct_file_read_allowed && routes[1].execute_before_answer);
    assert_eq!(search_strategy_flow_route_count(&routes, "docs/c.md#deep"), 1);
    assert_eq!(search_strategy_flow_route_count(&routes, "docs/b.md#body"), 0);
}

#[test]
fn projected_evidence_rows_describe_every_identified_candidate() {
    let projection = project_search_strategy_flow_trace(&trace_fixture());
    let rows = projection.rust_projected_evidence_rows;
    assert_eq!(rows.len(), 5);
    assert_eq!(rows[0].candidate_id, "docs/a.md#intro");
    assert!(rows[0].selected && rows[0].route_planned);
    assert_eq!(rows[0].retrieval_route_count, 1);
    assert_eq!(rows[0].context_cost, 40);
    assert!(!rows[1].selected && !rows[1].route_planned);
    assert!(rows[2].planner_materialized);
    assert_eq!(rows[3].heading_anchor, "");
    assert_eq!(rows[3].retrieval_route_count, 0);
    assert!(rows[4].blocked);
    assert_eq!(rows[4].retrieval_route_count, 1);
    assert_eq!(rows[4].projection_source, "rust-bridge-search-strategy-flow-v1");
    assert_eq!(
        rows[2].proof_tags,
        vec!["rust_projected", "real_document", "search_strategy", "planner_materialized", "route_planned"]
    );
}

#[test]
fn ontology_request_reports_payload_sizes_in_service_order() {
    let request = WendaoGraphOntologyReadModelQualityArrowRequest::from_encoded_tables(
        vec![1, 2, 3],
        vec![4],
        vec![],
    );
    assert_eq!(request.payload_byte_sizes(), [3, 1, 0]);
    assert_eq!(
        request.request_tables,
        ["semantic_objects", "semantic_relations", "semantic_projection_state"]
    );
    assert_eq!(request.response_table, "ontology_quality_rows");
    assert_eq!(
        request.schema_version,
        "xiuxian_wendao.graph.ontology_read_model_quality.service.v1"
    );
}

#[test]
fn ontology_binding_trims_base_url_and_refuses_blank() {
    let binding = build_wendaograph_ontology_read_model_quality_flight_binding(
        WendaoGraphOntologyReadModelQualityFlightBindingOptions {
            base_url: "  http://127.0.0.1:41082 ".to_string(),
            health_route: Some("/health".to_string()),
            timeout_secs: Some(5),
            max_in_flight_requests: None,
        },
    )
    .expect("binding");
    assert_eq!(binding.base_url, "http://127.0.0.1:41082");
    assert_eq!(binding.route, "/wendao/graph/ontology_read_model_quality");
    assert_eq!(binding.provider_id, "wendaograph");
    assert_eq!(binding.capability_id, "ontology-read-model-quality");
    assert_eq!(binding.timeout_secs, Some(5));
    let refused = build_wendaograph_ontology_read_model_quality_flight_binding(
        WendaoGraphOntologyReadModelQualityFlightBindingOptions {
            base_url: "   ".to_string(),
            health_route: None,
            timeout_secs: None,
            max_in_flight_requests: None,
        },
    );
    assert_eq!(
        refused,
        Err("WendaoGraph ontology quality Flight base URL must not be blank".to_string())
    );
}
