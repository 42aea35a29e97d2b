use xiuxian_wendao_julia::route_materialization::{
    decoded_payload_receipts, find_node_id_by_anchor_or_title, first_node_id,
    first_page_index_repo_search_row, normalize_anchor, route_receipts, PageIndexNode,
    RepoSearchRow, RouteMaterialization, RouteRead, RouteStage, RouteStep,
    GRAPH_NEIGHBORS_ROUTE, PAGE_INDEX_TREE_ROUTE, REPO_SEARCH_ROUTE, RETRIEVAL_CONTEXT_ROUTE,
};

fn row(path: &str, navigation_path: &str, doc_id: &str) -> RepoSearchRow {
    RepoSearchRow {
        path: Some(path.to_owned()),
        navigation_path: Some(navigation_path.to_owned()),
        doc_id: Some(doc_id.to_owned()),
    }
}

fn node(node_id: Option<&str>, anchors: &[&str], title: Option<&str>, children: Vec<PageIndexNode>) -> PageIndexNode {
    PageIndexNode {
        node_id: node_id.map(str::to_owned),
        anchors: anchors.iter().map(|a| (*a).to_owned()).collect(),
        title: title.map(str::to_owned),
        children,
    }
}

#[test]
fn first_page_index_repo_search_row_prefers_planned_source_path() {
    let rows = vec![
        row("README.md", "README.md", "repo:wendaograph:doc:README.md"),
        row(
            "docs/30_search_strategy/30.01_search_strategy_flow.md",
            "docs/30_search_strategy/30.01_search_strategy_flow.md",
            "repo:wendaograph:doc:docs/30_search_strategy/30.01_search_strategy_flow.md",
        ),
    ];

    let row = first_page_index_repo_search_row(
        &rows,
        "wendaograph",
        Some("docs/30_search_strategy/30.01_search_strategy_flow.md"),
    )
    .unwrap_or_else(|| panic!("expected preferred row"));

    assert_eq!(row.0, "docs/30_search_strategy/30.01_search_strategy_flow.md");
    assert_eq!(
        row.1.as_deref(),
        Some("repo:wendaograph:doc:docs/30_search_strategy/30.01_search_strategy_flow.md")
    );
}

#[test]
fn first_page_index_repo_search_row_does_not_drift_from_planned_source_path() {
    let rows = vec![row("README.md", "README.md", "repo:wendaograph:doc:README.md")];

    let row = first_page_index_repo_search_row(
        &rows,
        "wendaograph",
        Some("docs/10_graph_compute/10.01_reasoning_tree.md"),
    );

    assert_eq!(row, None);
}

#[test]
fn decoded_payload_receipts_include_route_provenance_anchors() {
    let receipts = decoded_payload_receipts(
        "docs/30_search_strategy/30.02_precision_pruning.md",
        &vec!["doc_id".to_owned(), "path".to_owned()],
        1,
        1,
        1,
        &Ok("node:precision-pruning".to_owned()),
        1,
        "node:precision-pruning",
        "wendaograph/docs/30_search_strategy/30.02_precision_pruning.md",
    )
    .unwrap_or_else(|error| panic!("build decoded receipts: {error}"));

    assert_eq!(receipts.len(), 4);
    assert_eq!(receipts[0].route, REPO_SEARCH_ROUTE);
    assert_eq!(
        receipts[0].evidence_anchor,
        "path:docs/30_search_strategy/30.02_precision_pruning.md"
    );
    assert_eq!(receipts[1].evidence_anchor, "node:precision-pruning");
    assert_eq!(receipts[2].evidence_anchor, "node-context:node:precision-pruning");
    assert_eq!(
        receipts[3].evidence_anchor,
        "graph-node:wendaograph/docs/30_search_strategy/30.02_precision_pruning.md"
    );
}

#[test]
fn decoded_payload_receipts_name_the_columns_each_route_decodes() {
    let receipts = decoded_payload_receipts(
        "docs/a.md",
        &vec!["doc".to_owned()],
        3,
        1,
        2,
        &Ok("n1".to_owned()),
        7,
        "n1",
        "repo/docs/a.md",
    )
    .unwrap_or_else(|error| panic!("build decoded receipts: {error}"));

    assert_eq!(receipts[0].decoded_columns, vec!["doc".to_owned()]);
    assert_eq!(receipts[1].decoded_columns, vec!["pageId", "rootCount", "rootsJson"]);
    assert_eq!(
        receipts[2].decoded_columns,
        vec!["pageId", "nodeId", "centerJson", "nodeContextJson"]
    );
    assert_eq!(receipts[3].decoded_columns, vec!["rowType"]);
    assert_eq!(
        receipts.iter().map(|r| r.row_count).collect::<Vec<_>>(),
        vec![3, 1, 2, 7]
    );
    assert_eq!(receipts[1].evidence_anchor, "node:n1");
    assert_eq!(receipts[1].route, PAGE_INDEX_TREE_ROUTE);
    assert_eq!(receipts[2].route, RETRIEVAL_CONTEXT_ROUTE);
    assert_eq!(receipts[3].route, GRAPH_NEIGHBORS_ROUTE);
}

#[test]
fn decoded_payload_receipts_pass_on_missing_retrieval_node_id() {
    let receipts = decoded_payload_receipts(
        "docs/a.md",
        &Vec::new(),
        1,
        1,
        1,
        &Err("missing column `nodeId`".to_owned()),
        1,
        "n1",
        "repo/docs/a.md",
    );
    assert_eq!(receipts.err(), Some("missing column `nodeId`".to_owned()));
}

#[test]
fn route_receipts_follow_read_order() {
    let receipts = route_receipts(4, 3, 2, 1);
    let pairs = receipts
        .iter()
        .map(|r| (r.route.as_str(), r.row_count))
        .collect::<Vec<_>>();
    assert_eq!(
        pairs,
        vec![
            (REPO_SEARCH_ROUTE, 4),
            (PAGE_INDEX_TREE_ROUTE, 3),
            (RETRIEVAL_CONTEXT_ROUTE, 2),
            (GRAPH_NEIGHBORS_ROUTE, 1),
        ]
    );
}

#[test]
fn normalize_anchor_collapses_separators_and_case() {
    assert_eq!(normalize_anchor("  Stage 1: Query_Understanding!  "), "stage-1-query-understanding");
    assert_eq!(normalize_anchor("precision-score"), "precision-score");
    assert_eq!(normalize_anchor("--"), "");
    assert_eq!(normalize_anchor("Übersicht Ä1"), "bersicht-1");
}

#[test]
fn page_index_search_matches_anchor_title_and_node_suffix() {
    let roots = vec![node(
        Some("node:root"),
        &[],
        Some("Search Strategy"),
        vec![
            node(Some("node:intro"), &[], Some("Intro"), Vec::new()),
            node(Some("node:precision-score"), &[], Some("Other"), Vec::new()),
            node(Some("node:x"), &["stage-1"], None, Vec::new()),
        ],
    )];
    assert_eq!(
        find_node_id_by_anchor_or_title(&roots, "Precision Score"),
        None
    );
    assert_eq!(
        find_node_id_by_anchor_or_title(&roots, "precision-score"),
        Some("node:precision-score".to_owned())
    );
    assert_eq!(
        find_node_id_by_anchor_or_title(&roots, "Stage 1"),
        Some("node:x".to_owned())
    );
    assert_eq!(
        find_node_id_by_anchor_or_title(&roots, "intro"),
        Some("node:intro".to_owned())
    );
    assert_eq!(
        find_node_id_by_anchor_or_title(&roots, "search strategy"),
        Some("node:root".to_owned())
    );
    assert_eq!(first_node_id(&roots), Some("node:root".to_owned()));
}

#[test]
fn page_index_match_without_node_id_skips_its_children() {
    let roots = vec![
        node(None, &["wanted"], None, vec![node(Some("child"), &["wanted"], None, Vec::new())]),
        node(Some("sibling"), &[], Some("Wanted"), Vec::new()),
    ];
    assert_eq!(
        find_node_id_by_anchor_or_title(&roots, "wanted"),
        Some("sibling".to_owned())
    );
    assert_eq!(first_node_id(&roots), Some("child".to_owned()));
    assert_eq!(first_node_id(&Vec::new()), None);
}

#[test]
fn route_materialization_walks_the_four_reads() {
    let (mut route, step) = RouteMaterialization::start(
        "wendaograph",
        "docs/30_search_strategy/30.02_precision_pruning.md",
        Some("precision-score"),
        vec!["doc_id".to_owned(), "path".to_owned()],
    );
    assert_eq!(route.stage, RouteStage::RepoSearch);
    let first_query = match &step {
        RouteStep::Read(RouteRead::RepoSearch { query, path_prefix, limit }) => {
            assert_eq!(path_prefix, "docs/30_search_strategy/30.02_precision_pruning.md");
            assert_eq!(*limit, 10);
            query.clone()
        }
        other => panic!("expected a repo search, got {other:?}"),
    };
    assert_eq!(first_query, "precision score");

    // No Markdown row: the next attempt is asked for.
    let step = route.on_repo_search_rows(&vec![row("src/a.jl", "src/a.jl", "x")]);
    assert!(matches!(step, RouteStep::Read(RouteRead::RepoSearch { .. })));
    assert_eq!(route.attempt, 1);

    let step = route.on_repo_search_rows(&vec![
        row("README.md", "README.md", "repo:wendaograph:doc:README.md"),
        row(
            "docs/30_search_strategy/30.02_precision_pruning.md",
            "docs/30_search_strategy/30.02_precision_pruning.md",
            "repo:wendaograph:doc:docs/30_search_strategy/30.02_precision_pruning.md",
        ),
    ]);
    let page_id = "repo:wendaograph:projection:explanation:doc:repo:wendaograph:doc:docs/30_search_strategy/30.02_precision_pruning.md";
    match &step {
        RouteStep::Read(RouteRead::PageIndexTree { page_id: p }) => assert_eq!(p, page_id),
        other => panic!("expected the page-index read, got {other:?}"),
    }
    assert_eq!(route.repo_search_rows, 2);

    let roots = vec![node(
        Some("node:root"),
        &[],
        Some("Precision Pruning"),
        vec![node(Some("node:precision-score"), &["precision-score"], None, Vec::new())],
    )];
    let step = route.on_page_index_tree(1, &roots);
    match &step {
        RouteStep::Read(RouteRead::RetrievalContext { page_id: p, node_id, related_limit }) => {
            assert_eq!(p, page_id);
            assert_eq!(node_id, "node:precision-score");
            assert_eq!(*related_limit, 5);
        }
        other => panic!("expected the retrieval-context read, got {other:?}"),
    }

    let step = route.on_retrieval_context(1, Ok("node:precision-score".to_owned()));
    match &step {
        RouteStep::Read(RouteRead::GraphNeighbors { node_id, direction, hops, limit }) => {
            assert_eq!(node_id, "wendaograph/docs/30_search_strategy/30.02_precision_pruning.md");
            assert_eq!(direction, "both");
            assert_eq!((*hops, *limit), (2, 50));
        }
        other => panic!("expected the graph read, got {other:?}"),
    }

    assert!(route.can_take_graph_rows(3));
    match route.on_graph_neighbors(3) {
        RouteStep::Finished(receipt) => {
            assert_eq!(receipt.materialized_rows, 7);
            assert_eq!(receipt.resolved_page_id, page_id);
            assert_eq!(receipt.resolved_node_id, "node:precision-score");
            assert_eq!(
                receipt.resolved_graph_node_id,
                "wendaograph/docs/30_search_strategy/30.02_precision_pruning.md"
            );
            assert_eq!(receipt.route_receipts.len(), 4);
            assert_eq!(receipt.decoded_payload_receipts.len(), 4);
            assert_eq!(
                receipt.decoded_payload_receipts[2].evidence_anchor,
                "node-context:node:precision-score"
            );
        }
        other => panic!("expected a receipt, got {other:?}"),
    }
    assert_eq!(route.stage, RouteStage::Done);
}

#[test]
fn route_materialization_reports_every_attempt_when_none_seeds() {
    let (mut route, _) = RouteMaterialization::start("repo", "docs/a.md", None, Vec::new());
    let attempts = route.attempts.len();
    assert!(attempts > 0);
    let mut last = None;
    for _ in 0..attempts {
        last = Some(route.on_repo_search_rows(&Vec::new()));
    }
    match last {
        Some(RouteStep::Failed(message)) => {
            assert!(message.starts_with(&format!(
                "SearchStrategyFlow repo search materialization returned zero page-index-ready decoded rows after {attempts} attempts: query=`"
            )));
            assert_eq!(message.matches("; ").count(), attempts - 1);
        }
        other => panic!("expected a failure, got {other:?}"),
    }
    assert_eq!(route.stage, RouteStage::Done);
}

#[test]
fn route_materialization_fails_without_page_index_node() {
    let (mut route, _) = RouteMaterialization::start("repo", "docs/a.md", None, Vec::new());
    let _ = route.on_repo_search_rows(&vec![row("docs/a.md", "docs/a.md", "")]);
    assert_eq!(route.stage, RouteStage::PageIndex);
    match route.on_page_index_tree(1, &vec![node(None, &[], Some("A"), Vec::new())]) {
        RouteStep::Failed(message) => {
            assert_eq!(message, "SearchStrategyFlow page-index tree did not expose a node id")
        }
        other => panic!("expected a failure, got {other:?}"),
    }
}

#[test]
fn route_materialization_settles_on_route_path_when_only_other_rows_seed() {
    let (mut route, _) = RouteMaterialization::start("repo", "docs/a.md", None, Vec::new());
    let step = route.on_repo_search_rows(&vec![row("docs/b.md", "docs/b.md", "repo:repo:doc:docs/b.md")]);
    assert_eq!(route.repo_search_path, "docs/a.md");
    match step {
        RouteStep::Read(RouteRead::PageIndexTree { page_id }) => {
            assert_eq!(page_id, "repo:repo:projection:explanation:doc:repo:repo:doc:docs/a.md")
        }
        other => panic!("expected the page-index read, got {other:?}"),
    }
}

#[test]
fn route_materialization_refuses_a_blank_source_path() {
    let (route, step) = RouteMaterialization::start("repo", "  ", None, Vec::new());
    assert_eq!(route.stage, RouteStage::Done);
    match step {
        RouteStep::Failed(message) => {
            assert_eq!(message, "SearchStrategyFlow retrieval route missing `sourcePath`")
        }
        other => panic!("expected a failure, got {other:?}"),
    }
}

fn route_at_page_index() -> RouteMaterialization {
    let (mut route, _) = RouteMaterialization::start("repo", "docs/a.md", None, Vec::new());
    let _ = route.on_repo_search_rows(&vec![row("docs/a.md", "docs/a.md", "")]);
    assert_eq!(route.stage, RouteStage::PageIndex);
    route
}

#[test]
fn route_materialization_fails_on_an_empty_page_index_read() {
    let mut route = route_at_page_index();
    match route.on_page_index_tree(0, &vec![node(Some("n1"), &[], Some("A"), Vec::new())]) {
        RouteStep::Failed(message) => assert_eq!(
            message,
            "SearchStrategyFlow page-index materialization returned zero decoded rows"
        ),
        other => panic!("expected a failure, got {other:?}"),
    }
    assert_eq!(route.stage, RouteStage::Done);
}

#[test]
fn route_materialization_fails_on_an_empty_retrieval_context_read() {
    let mut route = route_at_page_index();
    let _ = route.on_page_index_tree(1, &vec![node(Some("n1"), &[], Some("A"), Vec::new())]);
    assert_eq!(route.stage, RouteStage::RetrievalContext);
    match route.on_retrieval_context(0, Ok("n1".to_owned())) {
        RouteStep::Failed(message) => assert_eq!(
            message,
            "SearchStrategyFlow retrieval-context materialization returned zero decoded rows"
        ),
        other => panic!("expected a failure, got {other:?}"),
    }
    assert_eq!(route.stage, RouteStage::Done);
}

#[test]
fn route_materialization_fails_on_an_empty_graph_read() {
    let mut route = route_at_page_index();
    let _ = route.on_page_index_tree(1, &vec![node(Some("n1"), &[], Some("A"), Vec::new())]);
    let _ = route.on_retrieval_context(2, Ok("n1".to_owned()));
    assert_eq!(route.stage, RouteStage::GraphNeighbors);
    assert!(route.can_take_graph_rows(0));
    match route.on_graph_neighbors(0) {
        RouteStep::Failed(message) => assert_eq!(
            message,
            "SearchStrategyFlow graph-neighbor materialization returned zero decoded rows"
        ),
        other => panic!("expected a failure, got {other:?}"),
    }
    assert_eq!(route.stage, RouteStage::Done);
}
