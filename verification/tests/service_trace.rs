use xiuxian_wendao_julia::service_trace::{
    context_sum, context_sum_fits, max_int_field, selected_candidate_ids, service_trace_facts,
    service_trace_sums_fit, stage_receipts, strategy_budget, QueryUnderstandingBudgetRow,
    QueryUnderstandingFacts, ServiceCandidateFacts, ServiceFrontierFacts,
    ServicePlannerActionFacts, ServiceResponseFacts,
};

fn candidate(id: &str, action: &str, cost: i64, blocked: bool, zero: bool) -> ServiceCandidateFacts {
    ServiceCandidateFacts {
        candidate_id: id.to_owned(),
        action: action.to_owned(),
        context_cost: cost,
        blocked,
        semantic_score_is_zero: zero,
    }
}

fn frontier(id: &str, selected: bool, budget: i64, kind: &str) -> ServiceFrontierFacts {
    ServiceFrontierFacts {
        candidate_id: id.to_owned(),
        selected,
        context_budget: budget,
        judgement_kind: kind.to_owned(),
    }
}

fn action(kind: &str, id: &str, cycle: bool, llm: bool, budget: i64) -> ServicePlannerActionFacts {
    ServicePlannerActionFacts {
        action_kind: kind.to_owned(),
        candidate_id: id.to_owned(),
        cycle_allowed: cycle,
        requires_llm_judgement: llm,
        context_budget: budget,
    }
}

fn budget_row(l: Option<i64>, j: Option<i64>, b: Option<i64>) -> QueryUnderstandingBudgetRow {
    QueryUnderstandingBudgetRow {
        recommended_loop_budget: l,
        recommended_judgement_budget: j,
        recommended_beam_width: b,
    }
}

fn response() -> ServiceResponseFacts {
    ServiceResponseFacts {
        candidates: vec![
            candidate("docs/30_search_strategy/a.md#ownership-boundary", "keep", 40, false, true),
            candidate("docs/20_page_index/b.md#intro", "prune", 25, true, true),
            candidate("docs/10_graph_compute/c.md#relation-path", "keep", -5, false, true),
        ],
        frontier: vec![
            frontier("docs/30_search_strategy/a.md#ownership-boundary", true, 30, "subagent_branch_judgement"),
            frontier("docs/10_graph_compute/c.md#relation-path", true, -2, "deterministic"),
            frontier("docs/30_search_strategy/a.md#ownership-boundary", true, 0, "deterministic"),
            frontier("docs/20_page_index/b.md#intro", false, 10, "subagent_branch_judgement"),
        ],
        planner_actions: vec![
            action("materialize", "docs/30_search_strategy/a.md#ownership-boundary", false, false, 12),
            action("judge", "docs/10_graph_compute/c.md#relation-path", true, true, -3),
            action("stop", "", false, false, 4),
        ],
        transition_count: 2,
    }
}

#[test]
fn selected_ids_are_distinct_and_in_frontier_order() {
    let ids = selected_candidate_ids(&response().frontier);
    assert_eq!(
        ids,
        vec![
            "docs/30_search_strategy/a.md#ownership-boundary".to_owned(),
            "docs/10_graph_compute/c.md#relation-path".to_owned(),
        ]
    );
}

#[test]
fn context_sums_count_negative_values_as_zero() {
    assert_eq!(context_sum(&vec![40, 25, -5]), 65);
    assert_eq!(context_sum(&Vec::new()), 0);
    assert!(context_sum_fits(&vec![i64::MAX, -1]));
    assert!(!context_sum_fits(&vec![i64::MAX, 1]));
}

#[test]
fn stage_receipts_count_each_stage() {
    let r = response();
    let receipts = stage_receipts(&r, 3, 65, 30, 2);
    let stages = receipts.iter().map(|s| s.stage.as_str()).collect::<Vec<_>>();
    assert_eq!(
        stages,
        vec![
            "query_understanding",
            "candidate_scoring",
            "transition_inference",
            "frontier_selection",
            "planner_actions"
        ]
    );
    assert_eq!((receipts[0].input_count, receipts[0].output_count), (1, 3));
    assert_eq!(receipts[1].selected_count, 2);
    assert_eq!(receipts[1].context_budget, 65);
    assert_eq!((receipts[2].output_count, receipts[2].selected_count), (2, 2));
    assert_eq!(receipts[3].llm_judgement_count, 1);
    assert_eq!(receipts[3].output_count, 4);
    assert_eq!(receipts[4].selected_count, 2);
    assert_eq!(receipts[4].llm_judgement_count, 1);
    assert_eq!(receipts[4].cycle_allowed_count, 1);
    assert_eq!(receipts[4].context_budget, 16);
    assert_eq!(
        receipts[4].notebook,
        "notebooks/search_strategy_flow_planner_actions.jl"
    );
}

#[test]
fn service_trace_facts_check_the_answer() {
    let r = response();
    assert!(service_trace_sums_fit(&r));
    let qu = vec![
        QueryUnderstandingFacts {
            required_evidence: Some("ownership_boundary".to_owned()),
            budget: budget_row(Some(2), Some(1), Some(4)),
        },
        QueryUnderstandingFacts {
            required_evidence: Some("page_index_seed".to_owned()),
            budget: budget_row(Some(3), None, Some(2)),
        },
        QueryUnderstandingFacts {
            required_evidence: Some(String::new()),
            budget: budget_row(None, None, None),
        },
        QueryUnderstandingFacts {
            required_evidence: Some("ownership_boundary".to_owned()),
            budget: budget_row(Some(1), None, None),
        },
    ];
    let facts = service_trace_facts(&r, &qu);
    assert_eq!(facts.total_context_cost, 65);
    assert_eq!(facts.selected_context_cost, 40);
    assert_eq!(
        facts.required_evidence,
        vec!["ownership_boundary".to_owned(), "page_index_seed".to_owned()]
    );
    assert_eq!(
        facts.validation.selected_required_evidence,
        vec!["ownership_boundary".to_owned()]
    );
    assert_eq!(
        facts.validation.missing_required_evidence,
        vec!["page_index_seed".to_owned()]
    );
    assert!(!facts.validation.required_evidence_covered);
    assert!(facts.validation.no_vector_mode);
    assert!(facts.validation.materialized_top_candidate);
    assert!(facts.validation.blocked_evidence_pruned);
    assert!(facts.validation.selected_context_reduced);
    assert_eq!(facts.stage_receipts[3].selected_count, 2);
    assert_eq!(facts.strategy_budget.source, "query_understanding");
    assert_eq!(facts.strategy_budget.loop_budget, 3);
    assert_eq!(facts.strategy_budget.judgement_budget, 1);
    assert_eq!(facts.strategy_budget.beam_width, 4);
}

#[test]
fn blocked_selected_candidate_fails_the_pruning_check() {
    let mut r = response();
    r.candidates[0].blocked = true;
    r.candidates[1].semantic_score_is_zero = false;
    let facts = service_trace_facts(&r, &Vec::new());
    assert!(!facts.validation.blocked_evidence_pruned);
    assert!(!facts.validation.no_vector_mode);
    assert!(facts.validation.required_evidence_covered);
    assert_eq!(facts.strategy_budget.source, "default");
    assert_eq!(
        (
            facts.strategy_budget.loop_budget,
            facts.strategy_budget.judgement_budget,
            facts.strategy_budget.beam_width
        ),
        (1, 1, 3)
    );
}

#[test]
fn max_int_field_takes_the_largest_present_value() {
    assert_eq!(max_int_field(&vec![Some(-4), None, Some(-2)], 7), -2);
    assert_eq!(max_int_field(&vec![None, None], 7), 7);
    assert_eq!(max_int_field(&Vec::new(), 3), 3);
    let b = strategy_budget(&vec![budget_row(None, Some(5), None)]);
    assert_eq!((b.loop_budget, b.judgement_budget, b.beam_width), (1, 5, 3));
}
