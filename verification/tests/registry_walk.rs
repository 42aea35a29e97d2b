use xiuxian_wendao_julia::registry_authority::{
    RegistrySurfaceWalk, SearchStrategyFlowRegistryAuthorityProject,
};

fn project(id: &str, config: &str, root: Option<&str>, url: Option<&str>) -> SearchStrategyFlowRegistryAuthorityProject {
    SearchStrategyFlowRegistryAuthorityProject {
        project_id: id.to_owned(),
        config_path: config.to_owned(),
        line_start: 1,
        line_end: 1,
        root: root.map(str::to_owned),
        url: url.map(str::to_owned),
        refresh: None,
        dirs: Vec::new(),
        plugins: Vec::new(),
    }
}

#[test]
fn walk_reads_imports_depth_first_once_and_keeps_first_declaration() {
    let mut walk = RegistrySurfaceWalk::new();
    let mut order = Vec::new();
    while let Some(config) = walk.next_config() {
        if !walk.enter(config.clone()) {
            continue;
        }
        order.push(config.clone());
        match config.as_str() {
            "wendao.toml" => walk.on_config(
                vec![project("zeta", "wendao.toml", Some("."), None)],
                vec!["a.toml".to_owned(), "b.toml".to_owned()],
            ),
            "a.toml" => walk.on_config(
                vec![
                    project("alpha", "a.toml", None, Some("https://x")),
                    project("zeta", "a.toml", None, None),
                ],
                vec!["c.toml".to_owned(), "wendao.toml".to_owned()],
            ),
            "b.toml" => walk.on_config(vec![project("beta", "b.toml", Some("b"), None)], vec!["c.toml".to_owned()]),
            "c.toml" => walk.on_config(vec![project("alpha", "c.toml", Some("c"), None)], Vec::new()),
            other => panic!("unexpected config {other}"),
        }
    }
    assert_eq!(order, vec!["wendao.toml", "a.toml", "c.toml", "b.toml"]);
    let audit = walk.into_audit();
    assert_eq!(audit.config_surface, "root-wendao.toml");
    let rows = audit
        .rows
        .iter()
        .map(|p| (p.project_id.as_str(), p.config_path.as_str()))
        .collect::<Vec<_>>();
    assert_eq!(rows, vec![("alpha", "a.toml"), ("beta", "b.toml"), ("zeta", "wendao.toml")]);
    assert_eq!(audit.configured_project_count, 3);
    assert_eq!(audit.local_project_count, 2);
    assert_eq!(audit.remote_project_count, 1);
    assert_eq!(audit.visited_config_count, 4);
}

#[test]
fn walk_over_a_lone_root_config() {
    let mut walk = RegistrySurfaceWalk::new();
    assert_eq!(walk.next_config().as_deref(), Some("wendao.toml"));
    assert!(walk.enter("wendao.toml".to_owned()));
    assert!(!walk.enter("wendao.toml".to_owned()));
    walk.on_config(Vec::new(), Vec::new());
    assert_eq!(walk.next_config(), None);
    let audit = walk.into_audit();
    assert!(audit.rows.is_empty());
    assert_eq!(audit.visited_config_count, 1);
}
