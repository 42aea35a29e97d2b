use xiuxian_wendao_julia::candidate_inputs::{
    context_cost, edge_kinds, edge_kinds_for_resolution, escape_tsv_field, line_context_cost, non_blank,
    repo_search_edge_kinds, section_match_counts, unescape_tsv_field, SearchStrategyFlowParserPriority,
    SearchStrategyFlowParserResolution,
};
use xiuxian_wendao_julia::candidate_routes::{
    candidate_input_key, candidate_matches_route, candidate_route_quality,
    select_route_diverse_candidates, sort_scored_candidates, CandidateRoute, RankedSectionCandidate,
};
use xiuxian_wendao_julia::markdown_candidates::{
    heading_sections, intent_terms, markdown_anchor, parse_heading_line, split_terms,
    is_hidden_entry, is_ignored_walk_entry,
};

fn chars(s: &str) -> Vec<char> {
    s.chars().collect()
}

fn text(v: &[char]) -> String {
    v.iter().collect()
}

#[test]
fn split_terms_lowercases_alphanumeric_runs() {
    let terms: Vec<String> = split_terms("SearchStrategyFlow: page-index v2!")
        .iter()
        .map(|t| text(t))
        .collect();
    assert_eq!(terms, vec!["searchstrategyflow", "page", "index", "v2"]);
}

#[test]
fn intent_terms_are_sorted_distinct_and_skip_stop_words() {
    assert_eq!(
        intent_terms("How the SearchStrategyFlow handles Page-Index in a reasoning tree, page again"),
        vec!["again", "handles", "index", "page", "reasoning", "searchstrategyflow", "tree"]
    );
    assert!(intent_terms("a to of x").is_empty());
}

#[test]
fn markdown_anchor_collapses_punctuation_and_drops_backticks() {
    assert_eq!(markdown_anchor("Stage 1: `Query` Understanding!"), "stage-1-query-understanding");
    assert_eq!(markdown_anchor("  --Hello__World--  "), "hello-world");
    assert_eq!(markdown_anchor("!!!"), "section");
    assert_eq!(markdown_anchor(""), "section");
    assert_eq!(markdown_anchor("Ünïcode Title"), "n-code-title");
}

#[test]
fn heading_line_needs_one_to_six_hashes_a_space_and_a_title() {
    assert_eq!(parse_heading_line(&chars("### Hi there  ")).map(|(l, t)| (l, text(&t))), Some((3, "Hi there".to_string())));
    assert_eq!(parse_heading_line(&chars("#NoSpace")), None);
    assert_eq!(parse_heading_line(&chars("####### seven")), None);
    assert_eq!(parse_heading_line(&chars("##    ")), None);
    assert_eq!(parse_heading_line(&chars("plain text")), None);
    assert_eq!(parse_heading_line(&chars("# Title\r")).map(|(l, t)| (l, text(&t))), Some((1, "Title".to_string())));
}

#[test]
fn heading_sections_end_at_next_heading_of_same_or_higher_level() {
    let sections = heading_sections("# Title\nintro\n## Sub A\nbody\n## Sub A\nx\n# Next\n");
    assert_eq!(sections.len(), 3);
    assert_eq!(sections[0].heading_anchor, "title");
    assert_eq!(sections[0].line_start, 1);
    assert_eq!(sections[0].line_end, 6);
    assert_eq!(sections[0].text, "# Title\nintro\n## Sub A\nbody\n## Sub A\nx");
    assert_eq!(sections[1].heading_anchor, "sub-a");
    assert_eq!(sections[1].level, 2);
    assert_eq!((sections[1].line_start, sections[1].line_end), (3, 4));
    assert_eq!(sections[1].text, "## Sub A\nbody");
    assert_eq!(sections[2].title, "Next");
    assert_eq!((sections[2].line_start, sections[2].line_end), (7, 7));
    assert!(heading_sections("no headings\nat all").is_empty());
}

fn candidate(path: &str, anchor: &str, title: &str, line: usize, cost: usize, rank: u64) -> RankedSectionCandidate {
    RankedSectionCandidate {
        relative_path: path.to_string(),
        heading_anchor: anchor.to_string(),
        title: title.to_string(),
        line_start: line,
        context_cost: cost,
        ranking_key: rank,
    }
}

#[test]
fn candidate_routes_read_path_title_and_anchor() {
    let search = candidate("docs/30_search_strategy/flow.md", "intro", "Intro", 1, 10, 5);
    assert!(candidate_matches_route(&search, CandidateRoute::SearchStrategy));
    assert!(!candidate_matches_route(&search, CandidateRoute::Validation));
    let authority = candidate("AGENTS.md", "rules", "Rules", 1, 10, 5);
    assert!(candidate_matches_route(&authority, CandidateRoute::Authority));
    let tree = candidate("docs/x.md", "reasoning-tree", "Reasoning Tree", 1, 10, 5);
    assert!(candidate_matches_route(&tree, CandidateRoute::PageIndex));
    let graph = candidate("docs/x.md", "y", "Relation Fanout", 1, 10, 5);
    assert!(candidate_matches_route(&graph, CandidateRoute::LinkGraph));
    assert_eq!(text(&candidate_input_key(&graph)), "docs/x.md#y");
}

#[test]
fn route_quality_weighs_marker_groups_in_tenths() {
    let c = candidate("docs/rfcs/a.md", "ownership-boundary", "T", 1, 1, 1);
    assert_eq!(candidate_route_quality(&c, CandidateRoute::Authority), 22);
    let d = candidate("docs/x.md", "sql-validation", "T", 1, 1, 1);
    assert_eq!(candidate_route_quality(&d, CandidateRoute::Authority), -4);
    let e = candidate("docs/testing/README.md", "local-validation-gate", "T", 1, 1, 1);
    assert_eq!(candidate_route_quality(&e, CandidateRoute::Validation), 27);
    let f = candidate("docs/x.md", "query-understanding", "T", 1, 1, 1);
    assert_eq!(candidate_route_quality(&f, CandidateRoute::SearchStrategy), 14);
}

#[test]
fn route_diverse_selection_seeds_each_family_then_fills_by_rank() {
    let scored = vec![
        candidate("docs/general.md", "a", "General", 1, 5, 90),
        candidate("docs/30_search_strategy/s.md", "b", "Search", 1, 5, 80),
        candidate("docs/20_page_index/p.md", "c", "Tree", 1, 5, 70),
        candidate("docs/general.md", "a", "General", 9, 5, 60),
        candidate("docs/other.md", "d", "Other", 1, 5, 50),
    ];
    assert_eq!(select_route_diverse_candidates(&scored, 3), vec![1, 2, 0]);
    assert_eq!(select_route_diverse_candidates(&scored, 10), vec![1, 2, 0, 4]);
    assert_eq!(select_route_diverse_candidates(&scored, 0), Vec::<usize>::new());
}

#[test]
fn route_seed_prefers_quality_then_rank_and_takes_last_of_equals() {
    let scored = vec![
        candidate("docs/30_search_strategy/a.md", "x", "A", 1, 5, 10),
        candidate("docs/30_search_strategy/a.md", "y", "A", 1, 5, 10),
    ];
    assert_eq!(select_route_diverse_candidates(&scored, 1), vec![1]);
    let scored = vec![
        candidate("docs/30_search_strategy/a.md", "query-understanding", "A", 1, 5, 1),
        candidate("docs/30_search_strategy/b.md", "x", "B", 1, 5, 99),
    ];
    assert_eq!(select_route_diverse_candidates(&scored, 1), vec![0]);
}

#[test]
fn scored_candidates_sort_by_rank_then_path_then_line_stably() {
    let scored = vec![
        candidate("b.md", "x", "T", 3, 1, 5),
        candidate("a.md", "x", "T", 9, 1, 5),
        candidate("c.md", "x", "T", 1, 1, 7),
        candidate("a.md", "y", "T", 2, 1, 5),
        candidate("a.md", "z", "T", 2, 1, 5),
    ];
    assert_eq!(sort_scored_candidates(&scored), vec![2, 3, 4, 1, 0]);
}

#[test]
fn tsv_fields_escape_and_unescape() {
    assert_eq!(escape_tsv_field("a\tb\\c\nd\re"), "a\\tb\\\\c\\nd\\re");
    assert_eq!(unescape_tsv_field("a\\tb\\\\c\\nd\\re"), "a\tb\\c\nd\re");
    assert_eq!(unescape_tsv_field("keep\\q and end\\"), "keep\\q and end\\");
    let original = "Query\tUnderstanding\\x\n";
    assert_eq!(unescape_tsv_field(&escape_tsv_field(original)), original);
}

#[test]
fn context_costs_follow_bytes_and_lines() {
    assert_eq!(context_cost(""), 512);
    assert_eq!(context_cost("abc"), 1);
    assert_eq!(context_cost(&"x".repeat(40)), 2);
    assert_eq!(context_cost(&"x".repeat(41)), 3);
    assert_eq!(context_cost("ééé"), 1);
    assert_eq!(line_context_cost(10, 14), 40);
    assert_eq!(line_context_cost(5, 3), 8);
    assert_eq!(line_context_cost(0, usize::MAX), usize::MAX);
}

fn markdown_resolution() -> SearchStrategyFlowParserResolution {
    SearchStrategyFlowParserResolution {
        priority: SearchStrategyFlowParserPriority::LocalOverride,
        effective_parser: "markdown-lang-parser".to_string(),
        baseline_parser: Some("tree-sitter".to_string()),
    }
}

#[test]
fn parser_resolution_edge_kinds_name_priority_parsers_and_override() {
    let kinds: Vec<String> = edge_kinds_for_resolution(&markdown_resolution())
        .iter()
        .map(|k| text(k))
        .collect();
    assert_eq!(
        kinds,
        vec![
            "parser-priority:local-override",
            "effective-parser:markdown-lang-parser",
            "general-ast-baseline",
            "baseline-parser:tree-sitter",
            "native-parser-override",
        ]
    );
    let plain = SearchStrategyFlowParserResolution {
        priority: SearchStrategyFlowParserPriority::PlainText,
        effective_parser: "julia-lang-parser".to_string(),
        baseline_parser: None,
    };
    let kinds: Vec<String> = edge_kinds_for_resolution(&plain).iter().map(|k| text(k)).collect();
    assert_eq!(
        kinds,
        vec!["parser-priority:plain-text", "effective-parser:julia-lang-parser", "plugin-parser-override"]
    );
}

#[test]
fn section_edge_kinds_are_sorted_and_distinct() {
    let kinds = edge_kinds("docs/search.md", "Query Understanding Graph", &markdown_resolution());
    assert_eq!(
        kinds,
        vec![
            "anchor",
            "baseline-parser:tree-sitter",
            "effective-parser:markdown-lang-parser",
            "general-ast-baseline",
            "link-graph",
            "native-parser-override",
            "page-index",
            "parser-priority:local-override",
            "rust-discovered",
            "search-strategy",
        ]
    );
    let repo = repo_search_edge_kinds("docs/search.md", "Query", &markdown_resolution());
    assert!(repo.contains(&"arrow-flight".to_string()));
    assert!(repo.contains(&"repo-search".to_string()));
    assert!(repo.windows(2).all(|w| w[0] < w[1]));
}

#[test]
fn non_blank_trims_present_values() {
    assert_eq!(non_blank(Some("  Query  ")), Some("Query".to_string()));
    assert_eq!(non_blank(Some("   ")), None);
    assert_eq!(non_blank(None), None);
}

#[test]
fn section_match_counts_count_terms_per_haystack() {
    let terms = vec!["query".to_string(), "page".to_string(), "missing".to_string()];
    let counts = section_match_counts("docs/Page_Index/search.md", "Query Understanding", "body text", &terms);
    assert_eq!(counts.term_count, 3);
    assert_eq!(counts.matched_terms, 2);
    assert_eq!(counts.title_matches, 1);
    assert_eq!(counts.path_matches, 1);
    assert!(counts.search_bonus);
    assert!(counts.page_index_bonus);
}

#[test]
fn walk_skips_hidden_and_build_entries_below_the_root() {
    assert!(is_ignored_walk_entry(1, Some(".git")));
    assert!(is_ignored_walk_entry(2, Some("node_modules")));
    assert!(is_ignored_walk_entry(1, Some("target")));
    assert!(!is_ignored_walk_entry(0, Some(".hidden-root")));
    assert!(!is_ignored_walk_entry(1, Some("docs")));
    assert!(!is_ignored_walk_entry(1, None));
    assert!(is_hidden_entry(3, Some(".cache")));
    assert!(!is_hidden_entry(3, Some("target")));
    assert!(!is_hidden_entry(0, Some(".")));
}
