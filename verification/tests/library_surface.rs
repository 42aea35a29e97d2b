use xiuxian_wendao_julia::candidate_inputs::{
    search_strategy_flow_evidence_edge_kinds, SearchStrategyFlowParserPriority,
    SearchStrategyFlowParserResolution,
};
use xiuxian_wendao_julia::flight_config::{
    saturating_timeout_millis, saturating_usize_to_u32, SearchStrategyFlowFlightMaterializationConfig,
};
use xiuxian_wendao_julia::flight_ids::{graph_node_display_id_candidates, markdown_surrogate_source_paths};
use xiuxian_wendao_julia::flight_query::{
    push_exact_anchor_candidate_attempts, push_route_hint_candidate_attempts,
};
use xiuxian_wendao_julia::flight_request::{
    build_search_strategy_flow_service_arrow_request, SearchStrategyFlowCandidateInputBatch,
    SearchStrategyFlowServiceRequestOptions,
};
use xiuxian_wendao_julia::gateway_artifact::{
    julia_gateway_artifact_base_url, julia_gateway_artifact_schema_version,
    julia_gateway_artifact_selected_transport,
};
use xiuxian_wendao_julia::link_graph_launch::LinkGraphJuliaSearchServiceDescriptor;
use xiuxian_wendao_julia::reports::{
    graph_structural_stability_verdict, percentile_index, recommended_max_in_flight_for,
    SearchStrategyFlowPersistentHostStabilizationReason, WendaoSearchGraphStructuralStabilizationReason,
};

fn chars(s: &str) -> Vec<char> {
    s.chars().collect()
}

fn text_pairs(buf: &[(Vec<char>, Vec<char>)]) -> Vec<(String, String)> {
    buf.iter()
        .map(|(q, p)| (q.iter().collect(), p.iter().collect()))
        .collect()
}

fn candidate_batch(stream: Vec<u8>) -> SearchStrategyFlowCandidateInputBatch {
    SearchStrategyFlowCandidateInputBatch {
        source: "rust-markdown-headings".to_owned(),
        row_count: 1,
        candidate_input_arrow_ipc_stream: stream,
        discovery_receipt_json: "{}".to_owned(),
    }
}

#[test]
fn evidence_edge_kinds_list_the_parser_resolution_sorted() {
    let resolution = SearchStrategyFlowParserResolution {
        priority: SearchStrategyFlowParserPriority::LocalOverride,
        effective_parser: "markdown-lang-parser".to_owned(),
        baseline_parser: Some("general-ast".to_owned()),
    };
    assert_eq!(
        search_strategy_flow_evidence_edge_kinds(&resolution),
        vec![
            "baseline-parser:general-ast",
            "effective-parser:markdown-lang-parser",
            "general-ast-baseline",
            "native-parser-override",
            "parser-priority:local-override",
        ]
    );
}

#[test]
fn flight_config_timeout_is_at_least_one_second() {
    let config = SearchStrategyFlowFlightMaterializationConfig::new(
        "http://127.0.0.1:8815".to_owned(),
        "wendao".to_owned(),
    )
    .expect("config");
    assert_eq!(config.clone().with_timeout_seconds(0).timeout_seconds, 1);
    let longer = config.with_timeout_seconds(45);
    assert_eq!(longer.timeout_seconds, 45);
    assert_eq!(longer.repo_id, "wendao");
    assert_eq!(longer.base_url, "http://127.0.0.1:8815");
}

#[test]
fn saturating_conversions_cap_at_u32_max() {
    assert_eq!(saturating_usize_to_u32(5), 5);
    assert_eq!(saturating_usize_to_u32(u32::MAX as usize), u32::MAX);
    assert_eq!(saturating_timeout_millis(30), 30_000);
    assert_eq!(saturating_timeout_millis(5_000_000), u32::MAX);
}

#[test]
fn markdown_surrogates_of_a_source_file() {
    assert_eq!(
        markdown_surrogate_source_paths("src/lib.rs"),
        vec!["src/lib.rs.md", "src/lib.md"]
    );
    assert_eq!(markdown_surrogate_source_paths("/Makefile/"), vec!["Makefile.md"]);
    assert!(markdown_surrogate_source_paths("docs/guide.md").is_empty());
    assert!(markdown_surrogate_source_paths("  ").is_empty());
}

#[test]
fn graph_node_candidates_include_markdown_surrogates() {
    assert_eq!(
        graph_node_display_id_candidates("wendao", "src/lib.rs"),
        vec!["wendao/src/lib.rs", "wendao/src/lib.rs.md", "wendao/src/lib.md"]
    );
    assert_eq!(
        graph_node_display_id_candidates("wendao", "docs/guide.md"),
        vec!["wendao/docs/guide.md"]
    );
}

#[test]
fn exact_anchor_attempts_follow_the_named_surfaces() {
    let mut attempts = Vec::new();
    let terms = vec![chars("search"), chars("strategy"), chars("flow")];
    push_exact_anchor_candidate_attempts(&mut attempts, &terms);
    assert_eq!(
        text_pairs(&attempts),
        vec![
            ("SearchStrategyFlow".to_owned(), "docs/30_search_strategy".to_owned()),
            ("SearchStrategyFlow".to_owned(), String::new()),
        ]
    );
    push_exact_anchor_candidate_attempts(&mut attempts, &terms);
    assert_eq!(attempts.len(), 2);
}

#[test]
fn route_hint_attempts_follow_the_named_surfaces() {
    let mut attempts = Vec::new();
    push_route_hint_candidate_attempts(&mut attempts, &vec![chars("graph")]);
    assert_eq!(
        text_pairs(&attempts),
        vec![("link graph compute".to_owned(), "docs/10_graph_compute".to_owned())]
    );
    let mut none = Vec::new();
    push_route_hint_candidate_attempts(&mut none, &vec![chars("weather")]);
    assert!(none.is_empty());
}

#[test]
fn service_request_carries_payloads_and_sizes() {
    let batch = candidate_batch(vec![1, 2, 3]);
    assert_eq!(batch.candidate_input_arrow_ipc_byte_len(), 3);
    let options = SearchStrategyFlowServiceRequestOptions::new()
        .with_query_understanding_arrow_ipc_stream(vec![4])
        .with_ontology_registry_arrow_ipc_stream(vec![5, 6])
        .with_branch_judgements_arrow_ipc_stream(vec![7, 8, 9, 10]);
    let request = build_search_strategy_flow_service_arrow_request(&batch, options).expect("request");
    assert_eq!(request.strategy_candidates_payload, vec![1, 2, 3]);
    assert_eq!(request.ontology_registry_payload, Some(vec![5, 6]));
    assert_eq!(request.payload_byte_size(), 10);
}

#[test]
fn service_request_refuses_empty_payloads() {
    let options = SearchStrategyFlowServiceRequestOptions::new();
    assert_eq!(
        build_search_strategy_flow_service_arrow_request(&candidate_batch(Vec::new()), options.clone()),
        Err("SearchStrategyFlow candidate Arrow IPC payload must not be empty".to_owned())
    );
    assert_eq!(
        build_search_strategy_flow_service_arrow_request(
            &candidate_batch(vec![1]),
            options.with_branch_judgements_arrow_ipc_stream(Vec::new()),
        ),
        Err("SearchStrategyFlow optional `branch_judgements` Arrow IPC payload must not be empty".to_owned())
    );
}

#[test]
fn gateway_artifact_fixture_values() {
    assert_eq!(julia_gateway_artifact_base_url(), "http://127.0.0.1:18080");
    assert_eq!(julia_gateway_artifact_schema_version(), "v1");
    assert_eq!(julia_gateway_artifact_selected_transport(), "arrow_flight");
}

#[test]
fn launch_spec_maps_mode_and_config_to_cli_args() {
    let descriptor = LinkGraphJuliaSearchServiceDescriptor {
        service_mode: Some("stream".to_owned()),
        search_config_path: Some("config/search.toml".to_owned()),
    };
    let manifest = descriptor.plugin_launch_spec("scripts/run_search.sh".to_owned());
    assert_eq!(manifest.launcher_path, "scripts/run_search.sh");
    assert_eq!(manifest.args, vec!["--mode", "stream", "--config", "config/search.toml"]);
    let bare = LinkGraphJuliaSearchServiceDescriptor {
        service_mode: None,
        search_config_path: None,
    };
    assert!(bare.plugin_launch_spec("x".to_owned()).args.is_empty());
}

#[test]
fn persistent_host_budget_falls_back_to_degraded() {
    assert_eq!(recommended_max_in_flight_for(SearchStrategyFlowPersistentHostStabilizationReason::Stable, 4, 1), 4);
    assert_eq!(recommended_max_in_flight_for(SearchStrategyFlowPersistentHostStabilizationReason::P95Exceeded, 4, 2), 2);
    assert_eq!(recommended_max_in_flight_for(SearchStrategyFlowPersistentHostStabilizationReason::MaxExceeded, 4, 0), 1);
    assert_eq!(SearchStrategyFlowPersistentHostStabilizationReason::SpreadExceeded.as_str(), "spread_exceeded");
}

#[test]
fn graph_structural_verdict_per_pass_combination() {
    assert_eq!(graph_structural_stability_verdict(true, true, 0, 2), (WendaoSearchGraphStructuralStabilizationReason::Stable, true, 1));
    assert_eq!(
        graph_structural_stability_verdict(true, false, 4, 2),
        (WendaoSearchGraphStructuralStabilizationReason::ConcurrentExceeded, false, 2)
    );
    assert_eq!(
        graph_structural_stability_verdict(false, true, 4, 2),
        (WendaoSearchGraphStructuralStabilizationReason::SequentialExceeded, false, 2)
    );
    assert_eq!(
        graph_structural_stability_verdict(false, false, 2, 5),
        (WendaoSearchGraphStructuralStabilizationReason::BothExceeded, false, 2)
    );
}

#[test]
fn percentile_index_rounds_up() {
    assert_eq!(percentile_index(20, 950), 19);
    assert_eq!(percentile_index(10, 500), 5);
    assert_eq!(percentile_index(1, 500), 0);
    assert_eq!(percentile_index(3, 1000), 2);
}
