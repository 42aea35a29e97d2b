use xiuxian_wendao_julia::code_inventory::{
    code_intelligence_inventory_audit, IncludeDirsWalk, code_intelligence_inventory_candidates,
    code_inventory_candidate, count_edge_kind, is_inventory_visible_path, path_is_under,
    primary_markdown_candidate_count, tracked_paths_from_ls_files, BENCHMARK_PYTHON_SURFACE,
    LINK_GRAPH_RUST_SURFACE, WENDAO_RUST_SURFACE,
};

fn strings(v: &[&str]) -> Vec<String> {
    v.iter().map(|s| (*s).to_owned()).collect()
}

fn files() -> Vec<String> {
    strings(&[
        "packages/rust/crates/xiuxian-wendao/src/lib.rs",
        "packages/rust/crates/xiuxian-wendao/Cargo.toml",
        "packages/rust/crates/xiuxian-wendao/src/link_graph/mod.rs",
        "packages/rust/crates/xiuxian-wendao/README.md",
        "packages/rust/crates/xiuxian-wendao-julia/src/lib.rs",
        "packages/python/wendao-knowledge-retrieval-benchmark/src/run.py",
        "packages/python/wendao-knowledge-retrieval-benchmark/pyproject.toml",
        "docs/index.md",
        "docs/notes.txt",
        "semantic/ontology.md",
        "other/readme.md",
    ])
}

#[test]
fn inventory_hides_caches_and_build_outputs() {
    assert!(is_inventory_visible_path("docs/index.md"));
    assert!(!is_inventory_visible_path(".cache/x.md"));
    assert!(!is_inventory_visible_path(".data/x"));
    assert!(!is_inventory_visible_path(".run/x"));
    assert!(!is_inventory_visible_path("packages/a/target/debug/x.rs"));
    assert!(!is_inventory_visible_path("web/node_modules/pkg/index.js"));
    assert!(is_inventory_visible_path("target/x.rs"));
}

#[test]
fn path_is_under_needs_a_segment_boundary() {
    assert!(path_is_under("docs", "docs"));
    assert!(path_is_under("docs/a.md", "docs/"));
    assert!(path_is_under("docs/a.md", "docs"));
    assert!(!path_is_under("docsx/a.md", "docs"));
    assert!(!path_is_under("packages/rust/crates/xiuxian-wendao-julia/src/lib.rs", WENDAO_RUST_SURFACE));
}

#[test]
fn ls_files_output_is_trimmed_and_filtered() {
    let out = tracked_paths_from_ls_files("docs/a.md\r\n  src/b.rs  \n\n.cache/c.md\nx/target/d.rs\nlast.md");
    assert_eq!(out, strings(&["docs/a.md", "src/b.rs", "last.md"]));
    assert!(tracked_paths_from_ls_files("").is_empty());
}

#[test]
fn inventory_candidate_names_scenario_and_language() {
    let c = code_inventory_candidate(
        "packages/rust/crates/xiuxian-wendao/src/lib.rs",
        "rust-control-plane-source",
        "rust",
    );
    assert_eq!(
        c.heading_anchor,
        "rust-control-plane-source-packages-rust-crates-xiuxian-wendao-src-lib-rs"
    );
    assert_eq!(
        c.title,
        "Code intelligence rust-control-plane-source: packages/rust/crates/xiuxian-wendao/src/lib.rs"
    );
    assert_eq!(
        c.edge_kinds,
        strings(&[
            "code-intelligence",
            "git-tracked-inventory",
            "source-config",
            "rust-control-plane-source",
            "language:rust"
        ])
    );
    assert_eq!((c.line_start, c.line_end, c.context_cost), (1, 1, 8));
    assert_eq!(c.graph_score_permille, 820);
    let focus = code_inventory_candidate("a.rs", "link-graph-source-focus", "rust");
    assert_eq!(focus.graph_score_permille, 900);
    assert!(!focus.blocked);
}

#[test]
fn inventory_orders_candidates_by_anchor_then_path() {
    let dirs = strings(&[WENDAO_RUST_SURFACE, LINK_GRAPH_RUST_SURFACE, BENCHMARK_PYTHON_SURFACE, "docs"]);
    let candidates = code_intelligence_inventory_candidates(&dirs, &files());
    let anchors = candidates
        .iter()
        .map(|c| c.heading_anchor.as_str())
        .collect::<Vec<_>>();
    assert_eq!(
        anchors,
        vec![
            "benchmark-python-adapter-packages-python-wendao-knowledge-retrieval-benchmark-src-run-py",
            "link-graph-source-focus-packages-rust-crates-xiuxian-wendao-src-link-graph-mod-rs",
            "rust-control-plane-source-packages-rust-crates-xiuxian-wendao-src-lib-rs",
            "rust-control-plane-source-packages-rust-crates-xiuxian-wendao-src-link-graph-mod-rs",
            "toml-config-boundary-packages-python-wendao-knowledge-retrieval-benchmark-pyproject-toml",
            "toml-config-boundary-packages-rust-crates-xiuxian-wendao-cargo-toml",
        ]
    );
    assert_eq!(count_edge_kind(&candidates, "toml-config-boundary"), 2);
    assert_eq!(count_edge_kind(&candidates, "language:rust"), 3);
}

#[test]
fn inventory_without_configured_dirs_is_empty() {
    let candidates = code_intelligence_inventory_candidates(&strings(&["docs"]), &files());
    assert!(candidates.is_empty());
}

#[test]
fn inventory_audit_counts_each_surface() {
    let dirs = strings(&[WENDAO_RUST_SURFACE, "docs", "semantic"]);
    let audit = code_intelligence_inventory_audit(&dirs, &files());
    assert_eq!(audit.configured_include_dirs, dirs);
    assert_eq!(audit.primary_markdown_count, 3);
    assert_eq!(audit.rust_control_plane_count, 2);
    assert_eq!(audit.link_graph_source_count, 0);
    assert_eq!(audit.toml_config_count, 1);
    assert_eq!(audit.benchmark_python_count, 0);
    assert_eq!(audit.total_candidate_count, 3);
    assert_eq!(primary_markdown_candidate_count(&Vec::new(), &files()), 0);
}

#[test]
fn include_dirs_walk_merges_imports_once_sorted() {
    let mut walk = IncludeDirsWalk::new();
    let mut read = Vec::new();
    while let Some(config) = walk.next_config() {
        if !walk.enter(config.clone()) {
            continue;
        }
        read.push(config.clone());
        match config.as_str() {
            "wendao.toml" => walk.on_config(&strings(&["semantic", "docs"]), strings(&["x.toml", "y.toml"])),
            "x.toml" => walk.on_config(&strings(&["docs", WENDAO_RUST_SURFACE]), strings(&["wendao.toml"])),
            "y.toml" => walk.on_config(&Vec::new(), Vec::new()),
            other => panic!("unexpected config {other}"),
        }
    }
    assert_eq!(read, vec!["wendao.toml", "x.toml", "y.toml"]);
    assert_eq!(
        walk.into_include_dirs(),
        strings(&["docs", WENDAO_RUST_SURFACE, "semantic"])
    );
}
