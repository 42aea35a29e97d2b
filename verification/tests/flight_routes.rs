use xiuxian_wendao_julia::flight_ids::{
    graph_node_display_id, normalized_repo_search_doc_id, projected_page_id,
    projection_kind_token_for_source_path, repo_relative_source_path,
};
use xiuxian_wendao_julia::flight_query::{
    candidate_discovery_queries, repo_search_attempts_for_route, repo_search_query, search_terms,
    source_path_queries, source_path_query,
};

#[test]
fn projected_page_id_normalizes_markdown_doc_id_with_path() {
    let page_id = projected_page_id(
        "wendaograph_search_strategy",
        "30.01_search_strategy_flow.md",
        "docs/30_search_strategy/30.01_search_strategy_flow.md",
    );

    assert_eq!(
        page_id,
        "repo:wendaograph_search_strategy:projection:explanation:doc:repo:wendaograph_search_strategy:doc:docs/30_search_strategy/30.01_search_strategy_flow.md"
    );
}

#[test]
fn projected_page_id_preserves_full_markdown_doc_id() {
    let page_id = projected_page_id(
        "wendaograph_search_strategy",
        "repo:wendaograph_search_strategy:doc:docs/30_search_strategy/30.01_search_strategy_flow.md",
        "docs/30_search_strategy/30.01_search_strategy_flow.md",
    );

    assert_eq!(
        page_id,
        "repo:wendaograph_search_strategy:projection:explanation:doc:repo:wendaograph_search_strategy:doc:docs/30_search_strategy/30.01_search_strategy_flow.md"
    );
}

#[test]
fn projection_kind_token_for_source_path_matches_default_markdown_parser() {
    assert_eq!(
        projection_kind_token_for_source_path("docs/search.md"),
        "explanation"
    );
    assert_eq!(
        projection_kind_token_for_source_path("src/SearchStrategyFlow.jl"),
        "reference"
    );
}

#[test]
fn graph_node_display_id_scopes_source_path_to_repo_display_path() {
    let node_id = graph_node_display_id(
        "wendaograph_search_strategy",
        "docs/30_search_strategy/30.01_search_strategy_flow.md",
    );

    assert_eq!(
        node_id,
        "wendaograph_search_strategy/docs/30_search_strategy/30.01_search_strategy_flow.md"
    );
}

#[test]
fn graph_node_display_id_does_not_double_scope_repo_prefixed_path() {
    let node_id = graph_node_display_id(
        "wendaograph_search_strategy",
        "wendaograph_search_strategy/docs/30_search_strategy/30.01_search_strategy_flow.md",
    );

    assert_eq!(
        node_id,
        "wendaograph_search_strategy/docs/30_search_strategy/30.01_search_strategy_flow.md"
    );
}

#[test]
fn search_strategy_flow_repo_query_uses_anchor_terms_not_path_fragment() {
    let query = repo_search_query(
        "docs/30_search_strategy/30.01_search_strategy_flow.md",
        Some("stage-1-query-understanding"),
    );

    assert_eq!(query, "query understanding");
}

#[test]
fn search_strategy_flow_repo_query_falls_back_to_source_path_without_anchor() {
    let query = repo_search_query(
        "docs/30_search_strategy/30.01_search_strategy_flow.md",
        None,
    );

    assert_eq!(
        query,
        "docs/30_search_strategy/30.01_search_strategy_flow.md"
    );
}

#[test]
fn candidate_discovery_queries_decompose_natural_language_intent() {
    let attempts = candidate_discovery_queries(
        "query understanding reasoning tree page index search strategy flow",
    );
    let queries = attempts
        .iter()
        .map(|attempt| attempt.query.as_str())
        .collect::<Vec<_>>();

    assert!(
        queries.contains(&"query understanding reasoning tree page index search strategy flow")
    );
    assert!(queries.contains(&"SearchStrategyFlow"));
    assert!(queries.contains(&"PageIndex"));
    assert!(queries.contains(&"search strategy flow"));
    assert!(queries.contains(&"query understanding"));
    assert!(queries.contains(&"reasoning tree"));
    assert!(attempts.iter().any(|attempt| {
        attempt.query == "SearchStrategyFlow" && attempt.path_prefix == "docs/30_search_strategy"
    }));
    assert!(attempts.iter().any(|attempt| {
        attempt.query == "PageIndex" && attempt.path_prefix == "docs/20_page_index"
    }));
    assert!(attempts.iter().any(|attempt| {
        attempt.query == "page index reasoning tree" && attempt.path_prefix == "docs/20_page_index"
    }));
    assert!(attempts.iter().any(|attempt| {
        attempt.query == "search strategy flow" && attempt.path_prefix == "docs/30_search_strategy"
    }));
    let Some(search_strategy_prefixed_index) = attempts.iter().position(|attempt| {
        attempt.query == "SearchStrategyFlow" && attempt.path_prefix == "docs/30_search_strategy"
    }) else {
        panic!("SearchStrategyFlow prefixed anchor should be attempted");
    };
    let Some(search_strategy_broad_index) = attempts.iter().position(|attempt| {
        attempt.query == "SearchStrategyFlow" && attempt.path_prefix.is_empty()
    }) else {
        panic!("SearchStrategyFlow broad anchor should be attempted");
    };
    assert!(
        search_strategy_prefixed_index < search_strategy_broad_index,
        "prefixed exact anchors should run before broad anchors for route diversity"
    );
}

#[test]
fn candidate_discovery_queries_split_camel_case_intent() {
    let attempts = candidate_discovery_queries("SearchStrategyFlow");

    assert!(
        attempts
            .iter()
            .any(|attempt| attempt.query == "search strategy flow")
    );
}

#[test]
fn route_repo_search_attempts_relax_exact_path_prefix() {
    let attempts = repo_search_attempts_for_route(
        "wendaograph",
        "docs/30_search_strategy/30.01_search_strategy_flow.md",
        Some("stage-1-query-understanding"),
    );

    assert_eq!(attempts[0].query, "query understanding");
    assert_eq!(
        attempts[0].path_prefix,
        "docs/30_search_strategy/30.01_search_strategy_flow.md"
    );
    assert!(attempts.iter().any(
        |attempt| attempt.query == "query understanding" && attempt.path_prefix.is_empty()
    ));
    assert!(
        attempts
            .iter()
            .any(|attempt| attempt.query == "30 01 search strategy flow"
                && attempt.path_prefix.is_empty())
    );
}

#[test]
fn route_repo_search_attempts_strip_repo_prefix_and_add_compact_file_query() {
    let attempts = repo_search_attempts_for_route(
        "wendaograph",
        "wendaograph/docs/30_search_strategy/30.01_search_strategy_flow.md",
        Some("stage-1-query-understanding"),
    );

    assert!(attempts.iter().any(|attempt| {
        attempt.query == "searchstrategyflow"
            && attempt.path_prefix == "docs/30_search_strategy/30.01_search_strategy_flow.md"
    }));
    assert!(!attempts.iter().any(|attempt| attempt.path_prefix
        == "wendaograph/docs/30_search_strategy/30.01_search_strategy_flow.md"));
}

#[test]
fn search_terms_split_symbols_and_camel_case() {
    assert_eq!(
        search_terms("SearchStrategyFlow stage-1_query"),
        vec!["search", "strategy", "flow", "stage", "query"]
    );
}

#[test]
fn source_path_query_uses_file_stem_terms() {
    assert_eq!(
        source_path_query("docs/30_search_strategy/30.01_search_strategy_flow.md"),
        "30 01 search strategy flow"
    );
}

#[test]
fn source_path_queries_include_compact_semantic_stem() {
    assert_eq!(
        source_path_queries("docs/30_search_strategy/30.01_search_strategy_flow.md"),
        vec![
            "30 01 search strategy flow",
            "search strategy flow",
            "searchstrategyflow"
        ]
    );
}

#[test]
fn repo_relative_source_path_strips_repo_display_prefix() {
    assert_eq!(
        repo_relative_source_path(
            "wendaograph",
            "wendaograph/docs/30_search_strategy/30.01_search_strategy_flow.md",
        ),
        "docs/30_search_strategy/30.01_search_strategy_flow.md"
    );
}

#[test]
fn normalized_repo_search_doc_id_strips_repo_display_path_prefix() {
    assert_eq!(
        normalized_repo_search_doc_id(
            "wendaograph",
            "docs/30_search_strategy/30.01_search_strategy_flow.md",
            Some(
                "repo:wendaograph:doc:wendaograph/docs/30_search_strategy/30.01_search_strategy_flow.md"
            ),
        ),
        "repo:wendaograph:doc:docs/30_search_strategy/30.01_search_strategy_flow.md"
    );
}

#[test]
fn projected_page_id_is_a_fixed_point_of_itself() {
    let page_id = projected_page_id("repo", "docs/a.md", "docs/a.md");
    assert!(page_id.contains(":projection:"));
    assert_eq!(page_id, "repo:repo:projection:explanation:doc:repo:repo:doc:docs/a.md");
    assert_eq!(projected_page_id("other", &page_id, "src/lib.rs"), page_id);
    assert_eq!(projected_page_id("repo", &page_id, ""), page_id);
}

#[test]
fn graph_node_display_id_is_idempotent_on_clean_paths() {
    let once = graph_node_display_id("repo", "docs/a.md");
    assert_eq!(once, "repo/docs/a.md");
    assert_eq!(graph_node_display_id("repo", &once), once);
    let bare = graph_node_display_id("", "docs/a.md");
    assert_eq!(bare, "/docs/a.md");
    assert_eq!(graph_node_display_id("", &bare), bare);
}
