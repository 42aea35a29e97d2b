use xiuxian_wendao_julia::frontier_buckets::{
    frontier_route_bucket, required_evidence_route_bucket, required_evidence_values,
    selected_required_evidence_values, FrontierRouteBucket, FrontierSelectionRow,
};
use xiuxian_wendao_julia::host_replies::{
    check_optional_arrow_ipc_payload, classify_wendaosearch_contract_path, host_trace_from_stdout,
    optional_arrow_ipc_path, parse_batch_stdout, validate_batch_request, WendaoSearchContractTarget,
};
use xiuxian_wendao_julia::link_graph_settings::{
    first_non_empty, get_setting_string, parse_positive_u64, resolve_with_env_lookup,
    LinkGraphJuliaRerankEnvironment, SettingValue,
};
use xiuxian_wendao_julia::probe_report::{
    find_probe_report_line, parse_bool_field, parse_decimal_i64, parse_decimal_u64,
    parse_decimal_usize, parse_gnn_backend_load_diagnostics, parse_probe_report_fields,
    parse_usize_field, DecimalParseError,
};
use xiuxian_wendao_julia::registry_authority::{
    project_table_line, registry_authority_candidate_input, registry_project_counts,
    SearchStrategyFlowRegistryAuthorityProject,
};
use xiuxian_wendao_julia::repo_discovery::{
    candidate_discovery_attempt_label, candidate_discovery_priority, narrow_candidate_discovery_results,
    rank_candidate_discovery_results, retain_unique_candidate_sources,
    should_stop_candidate_discovery, zero_candidates_message, DiscoveredCandidate,
};
use xiuxian_wendao_julia::semantic_tables::{
    int64_column_values, parse_semantic_tsv_rows, require_projection_nonblank,
    semantic_object_columns, semantic_relation_columns, text_column_values,
    validate_relation_endpoints,
    validate_projection_state_rows, SemanticPreviewProjectionStateRow,
};
use xiuxian_wendao_julia::structured_index::{
    all_surfaces_are_promotion_denominator, all_surfaces_share_rust_backend,
    all_surfaces_use_narrowed_julia_batches, pending_surface_count,
    search_strategy_flow_candidate_discovery_contract,
    search_strategy_flow_total_structured_candidate_index_contract, total_candidate_count,
    SearchStrategyFlowStructuredCandidateCounts,
};

fn chars(s: &str) -> Vec<char> {
    s.chars().collect()
}

#[test]
fn probe_report_fields_split_key_value_words() {
    let fields = parse_probe_report_fields(
        "wendaograph_gnn_host_probe sample_count=3 metal_loaded=true cuda_loaded=false amdgpu_loaded=false sample_count=4",
    )
    .expect("fields");
    assert_eq!(fields.len(), 5);
    assert_eq!(parse_usize_field(&fields, "sample_count"), Ok(4));
    assert_eq!(parse_bool_field(&fields, "metal_loaded"), Ok(true));
    let diagnostics = parse_gnn_backend_load_diagnostics(&fields).expect("diagnostics");
    assert!(diagnostics.metal_loaded && !diagnostics.cuda_loaded && !diagnostics.amdgpu_loaded);
    assert_eq!(
        parse_usize_field(&fields, "node_count"),
        Err("missing probe field `node_count`".to_string())
    );
}

#[test]
fn probe_report_refuses_malformed_tokens_and_values() {
    assert_eq!(
        parse_probe_report_fields("prefix ok=1 broken"),
        Err("invalid probe token `broken`".to_string())
    );
    assert!(parse_probe_report_fields("").expect("empty").is_empty());
    let fields = parse_probe_report_fields("p a=x1 b=maybe c=").expect("fields");
    assert_eq!(
        parse_usize_field(&fields, "a"),
        Err("parse probe field `a` as usize: invalid digit found in string".to_string())
    );
    assert_eq!(
        parse_usize_field(&fields, "c"),
        Err("parse probe field `c` as usize: cannot parse integer from empty string".to_string())
    );
    assert_eq!(
        parse_bool_field(&fields, "b"),
        Err("parse probe field `b` as bool: `maybe`".to_string())
    );
}

#[test]
fn probe_report_line_is_found_in_stdout() {
    assert_eq!(
        find_probe_report_line("noise\nwendaograph_gnn_host_probe a=1\r\nmore", "wendaograph_gnn_host_probe"),
        Ok("wendaograph_gnn_host_probe a=1".to_string())
    );
    assert_eq!(
        find_probe_report_line("noise", "probe"),
        Err("WendaoGraph host probe did not print `probe`; stdout:\nnoise".to_string())
    );
}

#[test]
fn decimal_parsers_follow_std_from_str() {
    assert_eq!(parse_decimal_usize(&chars("+12")), Ok(12));
    assert_eq!(parse_decimal_usize(&chars("+")), Err(DecimalParseError::InvalidDigit));
    assert_eq!(parse_decimal_usize(&chars("")), Err(DecimalParseError::Empty));
    assert_eq!(parse_decimal_usize(&chars("-1")), Err(DecimalParseError::InvalidDigit));
    assert_eq!(parse_decimal_u64(&chars("18446744073709551615")), Ok(u64::MAX));
    assert_eq!(parse_decimal_u64(&chars("18446744073709551616")), Err(DecimalParseError::PosOverflow));
    assert_eq!(parse_decimal_i64(&chars("-9223372036854775808")), Ok(i64::MIN));
    assert_eq!(parse_decimal_i64(&chars("-9223372036854775809")), Err(DecimalParseError::NegOverflow));
    assert_eq!(parse_decimal_i64(&chars("9223372036854775808")), Err(DecimalParseError::PosOverflow));
    assert_eq!(parse_decimal_i64(&chars("-42")), Ok(-42));
    assert_eq!(parse_decimal_i64(&chars("-")), Err(DecimalParseError::InvalidDigit));
    assert_eq!(DecimalParseError::NegOverflow.message(), "number too small to fit in target type");
}

fn settings_fixture() -> SettingValue {
    let rerank = SettingValue::Mapping(vec![
        (Some("base_url".to_string()), SettingValue::Text("  http://julia:8080 ".to_string())),
        (Some("route".to_string()), SettingValue::Text("   ".to_string())),
        (Some("timeout_secs".to_string()), SettingValue::Number("15".to_string())),
        (Some("service_mode".to_string()), SettingValue::Bool(true)),
        (None, SettingValue::Text("ignored".to_string())),
    ]);
    let retrieval = SettingValue::Mapping(vec![(Some("julia_rerank".to_string()), rerank)]);
    let link_graph = SettingValue::Mapping(vec![(Some("retrieval".to_string()), retrieval)]);
    SettingValue::Mapping(vec![(Some("link_graph".to_string()), link_graph)])
}

#[test]
fn settings_strings_follow_dotted_keys() {
    let settings = settings_fixture();
    assert_eq!(
        get_setting_string(&settings, "link_graph.retrieval.julia_rerank.base_url"),
        Some("  http://julia:8080 ".to_string())
    );
    assert_eq!(
        get_setting_string(&settings, "link_graph.retrieval.julia_rerank.timeout_secs"),
        Some("15".to_string())
    );
    assert_eq!(
        get_setting_string(&settings, "link_graph.retrieval.julia_rerank.service_mode"),
        Some("true".to_string())
    );
    assert_eq!(get_setting_string(&settings, "link_graph.retrieval"), None);
    assert_eq!(get_setting_string(&settings, "link_graph.missing.key"), None);
}

#[test]
fn runtime_config_takes_environment_over_settings() {
    let env = LinkGraphJuliaRerankEnvironment {
        base_url: Some("http://env:1".to_string()),
        route: Some(" /rerank ".to_string()),
        health_route: Some("  ".to_string()),
        schema_version: None,
        timeout_secs: Some("99".to_string()),
        service_mode: None,
        search_config_path: Some("config/search.toml".to_string()),
    };
    let config = resolve_with_env_lookup(&settings_fixture(), &env);
    assert_eq!(config.base_url.as_deref(), Some("http://env:1"));
    assert_eq!(config.route.as_deref(), Some("/rerank"));
    assert_eq!(config.health_route, None);
    assert_eq!(config.schema_version, None);
    assert_eq!(config.timeout_secs, Some(99));
    assert_eq!(config.service_mode.as_deref(), Some("true"));
    assert_eq!(config.search_config_path.as_deref(), Some("config/search.toml"));
    assert!(config.is_configured());
    assert_eq!(config.contract_version(), "v1");
    let descriptor = config.provider_launch_descriptor();
    assert_eq!(descriptor.search_config_path.as_deref(), Some("config/search.toml"));
}

#[test]
fn blank_environment_value_falls_back_to_settings() {
    let env = LinkGraphJuliaRerankEnvironment {
        base_url: Some("   ".to_string()),
        route: None,
        health_route: None,
        schema_version: None,
        timeout_secs: Some("0".to_string()),
        service_mode: None,
        search_config_path: None,
    };
    let config = resolve_with_env_lookup(&settings_fixture(), &env);
    assert_eq!(config.base_url.as_deref(), Some("http://julia:8080"));
    assert_eq!(config.timeout_secs, None);
}

#[test]
fn positive_u64_and_first_non_empty_helpers() {
    assert_eq!(parse_positive_u64(" 30 "), Some(30));
    assert_eq!(parse_positive_u64("0"), None);
    assert_eq!(parse_positive_u64("-3"), None);
    assert_eq!(parse_positive_u64("abc"), None);
    assert_eq!(
        first_non_empty(&vec![None, Some("  ".to_string()), Some(" x ".to_string()), Some("y".to_string())]),
        Some("x".to_string())
    );
    assert_eq!(first_non_empty(&vec![]), None);
}

#[test]
fn semantic_tsv_rows_are_read_and_checked() {
    let body = "id\tkind\tsource\ttarget\tdomain\tevidence_id\tevidence_status\ttarget_rdf_file\treview_decision\tpromotion_decision\treviewer_id\tstatus\tread_model_projection_staleness\n\
r1\tdepends_on\to1\to2\td\te\tok\tf.ttl\tapprove\tpromote\trev\tactive\tfresh\n\
\n\
r2\tnote\\tx\to2\to3\td\te\tok\tf.ttl\tapprove\tpromote\trev\tactive\tfresh\n";
    let rows = parse_semantic_tsv_rows(body, "semantic_relations", &semantic_relation_columns()).expect("rows");
    assert_eq!(rows.len(), 2);
    assert_eq!(rows[1][1], ("kind".to_string(), "note\tx".to_string()));
    let sources = text_column_values("semantic_relations", "source", &rows).expect("sources");
    assert_eq!(sources, vec!["o1".to_string(), "o2".to_string()]);
    let objects = vec![
        vec![("id".to_string(), "o1".to_string())],
        vec![("id".to_string(), "o2".to_string())],
    ];
    assert_eq!(
        validate_relation_endpoints(&objects, &rows),
        Err("semantic preview `semantic_relations` TSV row 3 references unknown target `o3`".to_string())
    );
}

#[test]
fn semantic_tsv_reports_header_count_and_blank_problems() {
    assert_eq!(
        parse_semantic_tsv_rows("", "semantic_objects", &semantic_object_columns()),
        Err("semantic preview `semantic_objects` TSV is empty".to_string())
    );
    assert_eq!(
        parse_semantic_tsv_rows("id\tkind\n", "semantic_objects", &semantic_object_columns()),
        Err("semantic preview `semantic_objects` TSV is missing required column(s): title, domain, evidence_id, evidence_status, target_rdf_file, review_decision, promotion_decision, reviewer_id, relation_count, status, read_model_projection_staleness".to_string())
    );
    let header = "id\tkind\ttitle\tdomain\tevidence_id\tevidence_status\ttarget_rdf_file\treview_decision\tpromotion_decision\treviewer_id\trelation_count\tstatus\tread_model_projection_staleness";
    assert_eq!(
        parse_semantic_tsv_rows(&format!("{header}\n"), "semantic_objects", &semantic_object_columns()),
        Err("semantic preview `semantic_objects` TSV must contain at least one data row".to_string())
    );
    assert_eq!(
        parse_semantic_tsv_rows(&format!("{header}\na\tb\n"), "semantic_objects", &semantic_object_columns()),
        Err("semantic preview `semantic_objects` TSV row 2 has 2 values for 13 columns".to_string())
    );
    let blank_title = format!("{header}\no1\tconcept\t \td\te\tok\tf\tr\tp\trev\t2\tactive\tfresh\n");
    assert_eq!(
        parse_semantic_tsv_rows(&blank_title, "semantic_objects", &semantic_object_columns()),
        Err("semantic preview `semantic_objects` TSV row 2 has blank `title`".to_string())
    );
    let good = format!("{header}\no1\tconcept\tT\td\te\tok\tf\tr\tp\trev\tx2\tactive\tfresh\n");
    let rows = parse_semantic_tsv_rows(&good, "semantic_objects", &semantic_object_columns()).expect("rows");
    assert_eq!(
        int64_column_values("semantic_objects", "relation_count", &rows),
        Err("semantic preview `semantic_objects` TSV row 2 field `relation_count` must be int64: invalid digit found in string".to_string())
    );
    assert_eq!(
        require_projection_nonblank(3, "status", " "),
        Err("semantic preview projection state row 3 has blank `status`".to_string())
    );
}

#[test]
fn frontier_buckets_classify_candidates() {
    assert_eq!(
        frontier_route_bucket("docs/rfcs/2026-03-26-wendao-query-engine-rfc.md#intro"),
        FrontierRouteBucket::Authority
    );
    assert_eq!(frontier_route_bucket("src/lib.rs#ownership"), FrontierRouteBucket::General);
    assert_eq!(frontier_route_bucket("docs/30_search_strategy/x.md#intro"), FrontierRouteBucket::SearchStrategy);
    assert_eq!(frontier_route_bucket("notes/run-audit.md"), FrontierRouteBucket::Validation);
    assert_eq!(frontier_route_bucket("packages/foo/README.md#usage"), FrontierRouteBucket::Authority);
    assert_eq!(frontier_route_bucket("docs/misc.md#relation-map"), FrontierRouteBucket::LinkGraph);
    assert_eq!(FrontierRouteBucket::PageIndex.as_str(), "page_index");
}

#[test]
fn required_evidence_is_covered_by_selected_buckets() {
    assert_eq!(required_evidence_route_bucket("ownership_boundary"), "authority");
    assert_eq!(required_evidence_route_bucket("relation_path"), "link_graph");
    assert_eq!(required_evidence_route_bucket("custom"), "custom");
    let frontier = vec![
        FrontierSelectionRow { candidate_id: "docs/30_search_strategy/x.md#a".to_string(), selected: true },
        FrontierSelectionRow { candidate_id: "docs/misc.md#relation".to_string(), selected: false },
    ];
    let required = vec!["search_strategy".to_string(), "relation_path".to_string()];
    assert_eq!(
        selected_required_evidence_values(&required, &frontier),
        vec!["search_strategy".to_string()]
    );
    assert_eq!(
        required_evidence_values(&vec![Some("b".to_string()), None, Some(String::new()), Some("a".to_string()), Some("b".to_string())]),
        vec!["a".to_string(), "b".to_string()]
    );
}

#[test]
fn structured_contract_sums_surfaces() {
    let counts = SearchStrategyFlowStructuredCandidateCounts {
        primary_markdown: 12,
        code_intelligence: 30,
        registry_authority: 4,
    };
    let surfaces = search_strategy_flow_total_structured_candidate_index_contract(counts);
    assert_eq!(surfaces.len(), 3);
    assert_eq!(total_candidate_count(&surfaces), 46);
    assert_eq!(pending_surface_count(&surfaces), 0);
    assert!(all_surfaces_share_rust_backend(&surfaces));
    assert!(all_surfaces_use_narrowed_julia_batches(&surfaces));
    assert!(all_surfaces_are_promotion_denominator(&surfaces));
    let contract = search_strategy_flow_candidate_discovery_contract(counts, Some("rust-markdown-headings"), 12);
    assert!(contract.input_is_narrowed_batch);
    assert_eq!(contract.structured_surface.map(|s| s.surface_id), Some("primary-markdown"));
    let unknown = search_strategy_flow_candidate_discovery_contract(counts, None, 50);
    assert_eq!(unknown.candidate_input_source, "unknown");
    assert!(!unknown.input_is_narrowed_batch);
    assert!(unknown.structured_surface.is_none());
}

fn discovered(path: &str, title: &str) -> DiscoveredCandidate {
    DiscoveredCandidate {
        relative_path: path.to_string(),
        heading_anchor: "a".to_string(),
        title: title.to_string(),
        evidence_key: 0,
        graph_key: 0,
    }
}

#[test]
fn discovery_priority_orders_owner_docs_first_and_tests_last() {
    assert_eq!(candidate_discovery_priority(&discovered("packages/rust/crates/xiuxian-wendao-julia/README.md", "x")), 0);
    assert_eq!(candidate_discovery_priority(&discovered("docs/testing/plan.md", "Validation plan")), 1);
    assert_eq!(candidate_discovery_priority(&discovered("docs/rfcs/x.md", "Ownership")), 2);
    assert_eq!(candidate_discovery_priority(&discovered("docs/x.md", "Other")), 3);
    assert_eq!(candidate_discovery_priority(&discovered("Cargo.toml", "x")), 4);
    assert_eq!(candidate_discovery_priority(&discovered("packages/a/src/lib.rs", "x")), 5);
    assert_eq!(candidate_discovery_priority(&discovered("packages/a/tests/t.rs", "x")), 6);
}

#[test]
fn discovery_keeps_one_candidate_per_source_and_stops_when_saturated() {
    let cands = vec![discovered("a.md", "1"), discovered("b.md", "2"), discovered("a.md", "3")];
    assert_eq!(retain_unique_candidate_sources(&cands), vec![0, 1]);
    let paths = cands.iter().map(|c| c.relative_path.clone()).collect::<Vec<_>>();
    assert!(!should_stop_candidate_discovery(25, &paths));
    let many: Vec<String> = (0..12).map(|i| format!("d{i}.md")).collect();
    assert!(should_stop_candidate_discovery(20, &many));
    assert!(!should_stop_candidate_discovery(19, &many));
    assert_eq!(candidate_discovery_attempt_label("q", "docs/"), "query=`q` prefix=`docs/`");
    let attempted = vec!["query=`a` prefix=``".chars().collect::<Vec<char>>(), "query=`b` prefix=`x`".chars().collect()];
    assert_eq!(
        zero_candidates_message(&attempted),
        "SearchStrategyFlow repo-search candidate discovery returned zero page-index-ready candidate rows after 2 attempts: query=`a` prefix=``; query=`b` prefix=`x`"
    );
}

#[test]
fn host_replies_are_checked() {
    assert_eq!(
        validate_batch_request(&vec![]),
        Err("SearchStrategyFlow batch request must include at least one candidate batch".to_string())
    );
    assert_eq!(
        validate_batch_request(&vec!["a".to_string(), " ".to_string()]),
        Err("SearchStrategyFlow intent must not be blank".to_string())
    );
    assert_eq!(validate_batch_request(&vec!["a".to_string(), "b".to_string()]), Ok(2));
    assert_eq!(
        parse_batch_stdout(" {\"a\":1} \n\n{\"b\":2}\n", 2),
        Ok(vec!["{\"a\":1}".to_string(), "{\"b\":2}".to_string()])
    );
    assert_eq!(
        parse_batch_stdout("x\n", 2),
        Err("WendaoGraph SearchStrategyFlow batch host request returned 1 traces for 2 batches".to_string())
    );
    assert_eq!(
        parse_batch_stdout(" \n", 1),
        Err("WendaoGraph SearchStrategyFlow batch host request returned empty output".to_string())
    );
    assert_eq!(host_trace_from_stdout(" {} \n"), Ok("{}".to_string()));
    assert!(host_trace_from_stdout("  ").is_err());
    assert_eq!(optional_arrow_ipc_path("  "), None);
    assert_eq!(optional_arrow_ipc_path(" /tmp/a.arrow "), Some("/tmp/a.arrow".to_string()));
    assert_eq!(
        check_optional_arrow_ipc_payload("branch-judgements", "/tmp/a.arrow", vec![]),
        Err("SearchStrategyFlow branch-judgements Arrow IPC file `/tmp/a.arrow` is empty".to_string())
    );
    assert_eq!(
        classify_wendaosearch_contract_path(".data/WendaoCodeParser.jl/scripts/run_service.jl", "script"),
        WendaoSearchContractTarget::CodeParserScript
    );
    assert_eq!(
        classify_wendaosearch_contract_path(".data/WendaoSearch.jl/config/a.toml", "config"),
        WendaoSearchContractTarget::WendaoSearchPackage("config/a.toml".to_string())
    );
    assert_eq!(
        classify_wendaosearch_contract_path("contracts/x.toml", "config"),
        WendaoSearchContractTarget::RepoRoot("contracts/x.toml".to_string())
    );
}

#[test]
fn registry_authority_candidates_come_from_project_tables() {
    let config = "imports = []\n\n[link_graph.projects.\"alpha\"]\nroot = \".\"\n  [link_graph.projects.beta]  \n";
    assert_eq!(project_table_line(config, "alpha"), Some(3));
    assert_eq!(project_table_line(config, "beta"), Some(5));
    assert_eq!(project_table_line(config, "gamma"), None);
    let project = SearchStrategyFlowRegistryAuthorityProject {
        project_id: "Alpha Docs".to_string(),
        config_path: "wendao.toml".to_string(),
        line_start: 3,
        line_end: 3,
        root: Some(".".to_string()),
        url: None,
        refresh: None,
        dirs: vec!["docs".to_string()],
        plugins: vec!["julia".to_string()],
    };
    let candidate = registry_authority_candidate_input(&project);
    assert_eq!(candidate.heading_anchor, "registry-authority-source-authority-package-owner-alpha-docs");
    assert_eq!(candidate.title, "Registry authority: Alpha Docs");
    assert_eq!(candidate.context_cost, 12);
    assert_eq!(
        candidate.edge_kinds,
        vec![
            "authority", "local-resource", "package-owner", "plugin:julia", "project-metadata",
            "registry-authority", "rust-discovered", "source-authority", "wendao-config",
        ]
    );
    assert_eq!(registry_project_counts(&vec![project]), (1, 0));
}

fn projection_row(projection: &str, status: &str, staleness: &str) -> SemanticPreviewProjectionStateRow {
    SemanticPreviewProjectionStateRow {
        projection: projection.to_owned(),
        status: status.to_owned(),
        staleness: staleness.to_owned(),
        source_object_count: 1,
        source_relation_count: 0,
        source_evidence_count: 2,
    }
}

#[test]
fn projection_state_rows_need_rows_and_nonblank_fields() {
    assert_eq!(
        validate_projection_state_rows(&Vec::new()),
        Err("semantic preview projection state JSON must contain at least one row".to_owned())
    );
    assert_eq!(
        validate_projection_state_rows(&vec![projection_row("p", "fresh", "none")]),
        Ok(())
    );
    assert_eq!(
        validate_projection_state_rows(&vec![
            projection_row("p", "fresh", "none"),
            projection_row("q", " ", ""),
        ]),
        Err("semantic preview projection state row 2 has blank `status`".to_owned())
    );
}

#[test]
fn narrowing_ranks_then_keeps_at_most_twelve_sources() {
    let mut cands: Vec<DiscoveredCandidate> = (0..15).map(|i| discovered(&format!("docs/d{i:02}.md"), "t")).collect();
    cands.push(discovered("docs/d03.md", "again"));
    cands[15].evidence_key = 9;
    cands.push(discovered("packages/rust/crates/xiuxian-wendao-julia/README.md", "x"));
    let order = rank_candidate_discovery_results(&cands);
    assert_eq!(order[0], 16);
    assert_eq!(order[1], 15);
    let picked = narrow_candidate_discovery_results(&cands);
    assert_eq!(picked.len(), 12);
    assert_eq!(&picked[..4], &[16, 15, 0, 1]);
    assert!(!picked.contains(&3));
}
