use xiuxian_wendao_julia::candidate_inputs::{
    SearchStrategyFlowParserPriority, SearchStrategyFlowParserResolution,
};
use xiuxian_wendao_julia::repo_search_discovery::{
    merge_repo_search_hits, repo_search_candidate_from_hit, DiscoveryStep, RepoSearchCandidate,
    RepoSearchCandidateDiscovery, RepoSearchHit,
};
use xiuxian_wendao_julia::repo_discovery::MIN_FLIGHT_CANDIDATE_DISCOVERY_ATTEMPTS_BEFORE_EARLY_STOP;

fn markdown() -> SearchStrategyFlowParserResolution {
    SearchStrategyFlowParserResolution {
        priority: SearchStrategyFlowParserPriority::LocalOverride,
        effective_parser: "markdown-lang-parser".to_owned(),
        baseline_parser: None,
    }
}

fn hit(path: &str, title: Option<&str>, section: Option<&str>, start: Option<usize>, end: Option<usize>) -> RepoSearchHit {
    RepoSearchHit {
        relative_path: path.to_owned(),
        title: title.map(str::to_owned),
        best_section: section.map(str::to_owned),
        line_start: start,
        line_end: end,
        resolution: markdown(),
    }
}

#[test]
fn repo_search_hit_yields_section_candidate_with_flight_edges() {
    let c = repo_search_candidate_from_hit(
        &hit("docs/search.md", Some("Search Strategy"), Some("Query Understanding"), Some(10), Some(14)),
        3,
        7,
    );
    assert_eq!(c.relative_path, "docs/search.md");
    assert_eq!(c.heading_anchor, "query-understanding");
    assert_eq!(c.title, "Query Understanding");
    assert_eq!((c.line_start, c.line_end), (10, 14));
    assert_eq!(c.context_cost, 40);
    assert!(c.edge_kinds.contains(&"arrow-flight".to_owned()));
    assert!(c.edge_kinds.contains(&"repo-search".to_owned()));
    assert!(c.edge_kinds.contains(&"search-strategy".to_owned()));
    let mut sorted = c.edge_kinds.clone();
    sorted.sort();
    sorted.dedup();
    assert_eq!(sorted, c.edge_kinds);
    assert_eq!((c.attempt, c.hit), (3, 7));
}

#[test]
fn repo_search_hit_falls_back_to_title_then_path_and_orders_lines() {
    let c = repo_search_candidate_from_hit(&hit("docs/a.md", Some(" Intro "), Some("  "), Some(0), Some(0)), 0, 0);
    assert_eq!(c.title, "Intro");
    assert_eq!((c.line_start, c.line_end), (1, 1));
    assert_eq!(c.context_cost, 8);
    let c = repo_search_candidate_from_hit(&hit("docs/b.md", None, None, Some(9), Some(3)), 0, 0);
    assert_eq!(c.title, "docs/b.md");
    assert_eq!(c.heading_anchor, "docs-b-md");
    assert_eq!((c.line_start, c.line_end), (9, 9));
}

#[test]
fn merge_keeps_hits_with_new_keys_relative_to_repo() {
    let mut merged: Vec<RepoSearchCandidate> = Vec::new();
    let hits = vec![
        hit("wendaograph/docs/search.md", Some("Search Strategy"), Some("Query Understanding"), Some(1), Some(3)),
        hit("src/search.jl", Some("Search"), None, None, None),
        hit("docs/search.md", Some("Other"), Some("Query Understanding"), Some(5), Some(6)),
        hit("docs/search.md", None, Some("Frontier"), None, None),
    ];
    merge_repo_search_hits(&mut merged, "wendaograph", &hits, 2);
    let keys = merged
        .iter()
        .map(|c| (c.relative_path.as_str(), c.heading_anchor.as_str(), c.hit))
        .collect::<Vec<_>>();
    assert_eq!(
        keys,
        vec![
            ("docs/search.md", "query-understanding", 0),
            ("src/search.jl", "search", 1),
            ("docs/search.md", "frontier", 3),
        ]
    );
    assert!(merged.iter().all(|c| c.attempt == 2));
}

#[test]
fn discovery_stops_early_once_enough_attempts_found_enough_sources() {
    let (mut d, step) = RepoSearchCandidateDiscovery::start(
        "query understanding reasoning tree page index search strategy flow validation gate",
        "wendaograph",
    );
    assert!(matches!(step, DiscoveryStep::Search { limit: 10, .. }));
    assert!(d.attempts.len() > MIN_FLIGHT_CANDIDATE_DISCOVERY_ATTEMPTS_BEFORE_EARLY_STOP);
    let hits = (0..14)
        .map(|i| hit(&format!("docs/d{i:02}.md"), Some("T"), None, None, None))
        .collect::<Vec<_>>();
    let step = d.on_search_hits(&hits);
    assert!(matches!(step, DiscoveryStep::Search { .. }));
    assert_eq!(d.merged.len(), 14);
    for _ in 1..(MIN_FLIGHT_CANDIDATE_DISCOVERY_ATTEMPTS_BEFORE_EARLY_STOP - 1) {
        assert!(matches!(d.on_search_hits(&Vec::new()), DiscoveryStep::Search { .. }));
    }
    let step = d.on_search_hits(&Vec::new());
    assert!(matches!(step, DiscoveryStep::Finished));
    assert!(d.done);
    assert_eq!(d.attempt, MIN_FLIGHT_CANDIDATE_DISCOVERY_ATTEMPTS_BEFORE_EARLY_STOP - 1);
}

#[test]
fn narrowed_candidates_rank_by_priority_and_keep_one_per_source() {
    let (mut d, _) = RepoSearchCandidateDiscovery::start("page index", "repo");
    let hits = vec![
        hit("docs/guide.md", Some("Guide"), None, None, None),
        hit("packages/rust/crates/xiuxian-wendao-julia/README.md", Some("Readme"), None, None, None),
        hit("docs/guide.md", Some("Guide"), Some("Details"), None, None),
        hit("Cargo.toml", Some("Manifest"), None, None, None),
        hit("packages/a/tests/t.rs", Some("Test"), None, None, None),
    ];
    d.on_search_hits(&hits);
    assert_eq!(d.merged.len(), 5);
    let evidence = vec![10, 10, 20, 10, 10];
    let graph = vec![0, 0, 0, 0, 0];
    let (cands, picked) = d.narrowed_candidates(&evidence, &graph);
    assert_eq!(cands.len(), 5);
    let paths = picked.iter().map(|&k| cands[k].heading_anchor.as_str()).collect::<Vec<_>>();
    assert_eq!(paths, vec!["readme", "details", "manifest", "test"]);
}

#[test]
fn discovery_runs_every_attempt_then_reports_them() {
    let (mut d, _) = RepoSearchCandidateDiscovery::start("page index", "repo");
    let attempts = d.attempts.len();
    assert!(attempts > 1);
    let mut last = None;
    for _ in 0..attempts {
        last = Some(d.on_search_hits(&Vec::new()));
    }
    match last {
        Some(DiscoveryStep::Failed(message)) => {
            assert!(message.starts_with(&format!(
                "SearchStrategyFlow repo-search candidate discovery returned zero page-index-ready candidate rows after {attempts} attempts: query=`page index` prefix=``"
            )));
        }
        other => panic!("expected a failure, got {other:?}"),
    }
}

#[test]
fn discovery_finishes_with_partial_merge_after_last_attempt() {
    let (mut d, _) = RepoSearchCandidateDiscovery::start("page index", "repo");
    let attempts = d.attempts.len();
    let mut last = d.on_search_hits(&vec![hit("docs/a.md", Some("A"), None, None, None)]);
    for _ in 1..attempts {
        last = d.on_search_hits(&vec![hit("docs/a.md", Some("A"), None, None, None)]);
    }
    assert!(matches!(last, DiscoveryStep::Finished));
    assert_eq!(d.merged.len(), 1);
}
