use xiuxian_wendao_julia::ontology_registry::{
    ontology_registry_rows, resource_family_for_kind, scope_registry_rows,
    semantic_scope_rows_to_ontology_registry_tsv, SemanticScopeRow,
};

fn scope(id: Option<&str>, kind: Option<&str>, title: Option<&str>, targets: &[&str], validations: &[&str]) -> SemanticScopeRow {
    SemanticScopeRow {
        object_id: id.map(str::to_owned),
        kind: kind.map(str::to_owned),
        title: title.map(str::to_owned),
        relation_targets: targets.iter().map(|t| (*t).to_owned()).collect(),
        required_validations: validations.iter().map(|v| (*v).to_owned()).collect(),
    }
}

#[test]
fn tasks_are_action_types() {
    assert_eq!(resource_family_for_kind(Some("task")), "action_type");
    assert_eq!(resource_family_for_kind(Some("Task")), "object_type");
    assert_eq!(resource_family_for_kind(None), "object_type");
}

#[test]
fn scope_row_yields_object_title_links_and_validations() {
    let rows = scope_registry_rows(&scope(
        Some("Order"),
        Some("entity"),
        Some("Customer order"),
        &["Customer"],
        &["audit"],
    ));
    let view = rows
        .iter()
        .map(|r| (r.resource_family.as_str(), r.api_name.as_str(), r.requires_evidence))
        .collect::<Vec<_>>();
    assert_eq!(
        view,
        vec![
            ("object_type", "Order", false),
            ("object_type", "Customer order", false),
            ("link_type", "Order.Customer", false),
            ("link_type", "Customer", false),
            ("action_type", "audit", true),
        ]
    );
    assert!(scope_registry_rows(&scope(Some("  "), None, Some("T"), &["x"], &[])).is_empty());
    assert!(scope_registry_rows(&scope(None, None, Some("T"), &["x"], &[])).is_empty());
    assert_eq!(scope_registry_rows(&scope(Some("A"), None, Some("A"), &[], &[])).len(), 1);
}

#[test]
fn registry_is_sorted_and_without_repeats() {
    let rows = vec![
        scope(Some("Order"), Some("task"), None, &["Customer"], &["audit"]),
        scope(Some("Customer"), None, None, &[], &["audit"]),
        scope(Some("Ship"), None, None, &["Customer"], &[]),
    ];
    let registry = ontology_registry_rows(&rows);
    let view = registry
        .iter()
        .map(|r| (r.resource_family.as_str(), r.api_name.as_str(), r.requires_evidence))
        .collect::<Vec<_>>();
    assert_eq!(
        view,
        vec![
            ("action_type", "Order", false),
            ("action_type", "audit", true),
            ("link_type", "Customer", false),
            ("link_type", "Order.Customer", false),
            ("link_type", "Ship.Customer", false),
            ("object_type", "Customer", false),
            ("object_type", "Ship", false),
        ]
    );
}

#[test]
fn registry_tsv_escapes_fields_and_joins_lines() {
    let rows = vec![scope(Some("a\tb"), None, None, &[], &["x\\y"])];
    assert_eq!(
        semantic_scope_rows_to_ontology_registry_tsv(&rows),
        "action_type\tx\\\\y\ttrue\nobject_type\ta\\tb\tfalse"
    );
    assert_eq!(semantic_scope_rows_to_ontology_registry_tsv(&Vec::new()), "");
}
