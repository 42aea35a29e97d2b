//! The counts, budgets and checks of a `SearchStrategyFlow` service trace:
//! which candidates the frontier selected, how much context they cost, what
//! each Julia stage took in and gave out, and whether the answer covered the
//! evidence the query asked for.
use vstd::prelude::*;
use crate::frontier_buckets::{
    bucket_token, evidence_covered, frontier_bucket, required_evidence_bucket,
    required_evidence_values, selected_required_evidence_values, FrontierSelectionRow,
};
use crate::ordered::strictly_sorted;
use crate::text::{chars_of, lit, push_string, string_of, vec_eq};
use crate::trace_routes::names;

verus! {

/// What the trace reads of one scored candidate.
#[derive(Clone, Debug)]
pub struct ServiceCandidateFacts {
    pub candidate_id: String,
    pub action: String,
    pub context_cost: i64,
    pub blocked: bool,
    /// Whether the candidate's semantic score is zero.
    pub semantic_score_is_zero: bool,
}

/// What the trace reads of one frontier row.
#[derive(Clone, Debug)]
pub struct ServiceFrontierFacts {
    pub candidate_id: String,
    pub selected: bool,
    pub context_budget: i64,
    pub judgement_kind: String,
}

/// What the trace reads of one planner action.
#[derive(Clone, Debug)]
pub struct ServicePlannerActionFacts {
    pub action_kind: String,
    pub candidate_id: String,
    pub cycle_allowed: bool,
    pub requires_llm_judgement: bool,
    pub context_budget: i64,
}

/// What the trace reads of one service response.
#[derive(Clone, Debug)]
pub struct ServiceResponseFacts {
    pub candidates: Vec<ServiceCandidateFacts>,
    pub frontier: Vec<ServiceFrontierFacts>,
    pub planner_actions: Vec<ServicePlannerActionFacts>,
    pub transition_count: usize,
}

/// Whether some selected frontier row carries the id.
pub open spec fn is_selected_id(frontier: Seq<ServiceFrontierFacts>, id: Seq<char>) -> bool {
    exists|i: int| 0 <= i < frontier.len() && #[trigger] frontier[i].selected && frontier[i].candidate_id@ == id
}

fn copy_string(s: &String) -> (r: String)
    ensures
        r@ == s@,
{
    string_of(&chars_of(s.as_str()))
}

fn contains_string(list: &Vec<String>, s: &String) -> (b: bool)
    ensures
        b == list.deep_view().contains(s@),
{
    let mut i: usize = 0;
    while i < list.len()
        invariant
            i <= list.len(),
            forall|j: int| 0 <= j < i ==> list.deep_view()[j] != s@,
        decreases list.len() - i,
    {
        if vec_eq(&chars_of(list[i].as_str()), &chars_of(s.as_str())) {
            assert(list.deep_view()[i as int] == s@);
            return true;
        }
        i = i + 1;
    }
    false
}

/// The ids of the selected frontier rows, each once, in frontier order.
pub fn selected_candidate_ids(frontier: &Vec<ServiceFrontierFacts>) -> (r: Vec<String>)
    ensures
        r.deep_view().no_duplicates(),
        forall|id: Seq<char>| #[trigger] r.deep_view().contains(id) <==> is_selected_id(frontier@, id),
{
    let mut out: Vec<String> = Vec::new();
    let mut i: usize = 0;
    while i < frontier.len()
        invariant
            i <= frontier.len(),
            out.deep_view().no_duplicates(),
            forall|id: Seq<char>| #[trigger] out.deep_view().contains(id) <==> is_selected_id(
                frontier@.take(i as int),
                id,
            ),
        decreases frontier.len() - i,
    {
        let ghost before = out.deep_view();
        let ghost pre = frontier@.take(i as int);
        let ghost now = frontier@.take(i + 1);
        assert(now =~= pre.push(frontier@[i as int]));
        assert(forall|id: Seq<char>| #[trigger] before.contains(id) <==> is_selected_id(pre, id));
        let ghost mut pushed = false;
        if frontier[i].selected && !contains_string(&out, &frontier[i].candidate_id) {
            let id = copy_string(&frontier[i].candidate_id);
            push_string(&mut out, id);
            proof {
                pushed = true;
            }
            assert(out.deep_view() =~= before.push(frontier@[i as int].candidate_id@));
        }
        proof {
            if !pushed {
                assert(out.deep_view() =~= before);
            }
            assert forall|id: Seq<char>| #[trigger] out.deep_view().contains(id) <==> is_selected_id(now, id) by {
                let last = frontier@[i as int];
                if is_selected_id(now, id) {
                    let k = choose|k: int| 0 <= k < now.len() && #[trigger] now[k].selected && now[k].candidate_id@ == id;
                    if k < i {
                        assert(pre[k] == now[k]);
                        assert(is_selected_id(pre, id));
                        assert(before.contains(id));
                        if pushed {
                            let j = choose|j: int| 0 <= j < before.len() && before[j] == id;
                            assert(out.deep_view()[j] == id);
                        }
                    } else {
                        assert(now[k] == last);
                        if pushed {
                            assert(out.deep_view()[before.len() as int] == id);
                        } else {
                            assert(before.contains(id));
                        }
                    }
                }
                if out.deep_view().contains(id) {
                    if before.contains(id) {
                        assert(is_selected_id(pre, id));
                        let k = choose|k: int| 0 <= k < pre.len() && #[trigger] pre[k].selected && pre[k].candidate_id@ == id;
                        assert(now[k] == pre[k]);
                    } else {
                        assert(pushed);
                        let k = choose|k: int| 0 <= k < out.deep_view().len() && out.deep_view()[k] == id;
                        if k < before.len() {
                            assert(before[k] == id);
                        }
                        assert(now[i as int] == last);
                        assert(now[i as int].selected && now[i as int].candidate_id@ == id);
                    }
                }
            }
        }
        i = i + 1;
    }
    assert(frontier@.take(frontier.len() as int) =~= frontier@);
    out
}

/// A value counted as context: itself where positive, else zero.
pub open spec fn clamp0(x: i64) -> int {
    if x > 0 {
        x as int
    } else {
        0
    }
}

/// The sum of the values, each counted as context.
pub open spec fn nonneg_sum(s: Seq<i64>) -> int
    decreases s.len(),
{
    if s.len() == 0 {
        0
    } else {
        nonneg_sum(s.drop_last()) + clamp0(s.last())
    }
}

proof fn lemma_nonneg_sum_prefix(s: Seq<i64>, i: int)
    requires
        0 <= i <= s.len(),
    ensures
        0 <= nonneg_sum(s.take(i)) <= nonneg_sum(s),
    decreases s.len(),
{
    if s.len() > 0 {
        if i == s.len() {
            assert(s.take(i) =~= s);
            lemma_nonneg_sum_prefix(s.drop_last(), s.len() - 1);
            assert(s.drop_last().take(s.len() - 1) =~= s.drop_last());
        } else {
            lemma_nonneg_sum_prefix(s.drop_last(), i);
            assert(s.drop_last().take(i) =~= s.take(i));
        }
    }
}

/// Whether the context sum fits in an `i64`.
pub fn context_sum_fits(xs: &Vec<i64>) -> (b: bool)
    ensures
        b == (nonneg_sum(xs@) <= i64::MAX),
{
    let mut total: i64 = 0;
    let mut i: usize = 0;
    while i < xs.len()
        invariant
            i <= xs.len(),
            total == nonneg_sum(xs@.take(i as int)),
        decreases xs.len() - i,
    {
        assert(xs@.take(i + 1).drop_last() =~= xs@.take(i as int));
        let x = xs[i];
        let add: i64 = if x > 0 {
            x
        } else {
            0
        };
        if total > i64::MAX - add {
            proof {
                lemma_nonneg_sum_prefix(xs@, i + 1);
            }
            return false;
        }
        total = total + add;
        i = i + 1;
    }
    assert(xs@.take(xs.len() as int) =~= xs@);
    true
}

/// The sum of the values, each counted as context (negative values as zero).
pub fn context_sum(xs: &Vec<i64>) -> (r: i64)
    requires
        nonneg_sum(xs@) <= i64::MAX,
    ensures
        r == nonneg_sum(xs@),
{
    let mut total: i64 = 0;
    let mut i: usize = 0;
    while i < xs.len()
        invariant
            i <= xs.len(),
            nonneg_sum(xs@) <= i64::MAX,
            total == nonneg_sum(xs@.take(i as int)),
        decreases xs.len() - i,
    {
        assert(xs@.take(i + 1).drop_last() =~= xs@.take(i as int));
        proof {
            lemma_nonneg_sum_prefix(xs@, i + 1);
        }
        let x = xs[i];
        let add: i64 = if x > 0 {
            x
        } else {
            0
        };
        total = total + add;
        i = i + 1;
    }
    assert(xs@.take(xs.len() as int) =~= xs@);
    total
}

/// The context costs of the candidates.
pub open spec fn candidate_costs(s: Seq<ServiceCandidateFacts>) -> Seq<i64> {
    s.map_values(|c: ServiceCandidateFacts| c.context_cost)
}

/// The context budgets of the frontier rows.
pub open spec fn frontier_budgets(s: Seq<ServiceFrontierFacts>) -> Seq<i64> {
    s.map_values(|f: ServiceFrontierFacts| f.context_budget)
}

/// The context budgets of the planner actions.
pub open spec fn action_budgets(s: Seq<ServicePlannerActionFacts>) -> Seq<i64> {
    s.map_values(|a: ServicePlannerActionFacts| a.context_budget)
}

/// The context costs of the candidates, in order.
pub fn candidate_context_costs(candidates: &Vec<ServiceCandidateFacts>) -> (r: Vec<i64>)
    ensures
        r@ == candidate_costs(candidates@),
{
    let mut r: Vec<i64> = Vec::new();
    let mut i: usize = 0;
    while i < candidates.len()
        invariant
            i <= candidates.len(),
            r@ == candidate_costs(candidates@.take(i as int)),
        decreases candidates.len() - i,
    {
        r.push(candidates[i].context_cost);
        i = i + 1;
        assert(r@ =~= candidate_costs(candidates@.take(i as int)));
    }
    assert(candidates@.take(candidates.len() as int) =~= candidates@);
    r
}

/// The context budgets of the frontier rows, in order.
pub fn frontier_context_budgets(frontier: &Vec<ServiceFrontierFacts>) -> (r: Vec<i64>)
    ensures
        r@ == frontier_budgets(frontier@),
{
    let mut r: Vec<i64> = Vec::new();
    let mut i: usize = 0;
    while i < frontier.len()
        invariant
            i <= frontier.len(),
            r@ == frontier_budgets(frontier@.take(i as int)),
        decreases frontier.len() - i,
    {
        r.push(frontier[i].context_budget);
        i = i + 1;
        assert(r@ =~= frontier_budgets(frontier@.take(i as int)));
    }
    assert(frontier@.take(frontier.len() as int) =~= frontier@);
    r
}

/// The context budgets of the planner actions, in order.
pub fn planner_context_budgets(actions: &Vec<ServicePlannerActionFacts>) -> (r: Vec<i64>)
    ensures
        r@ == action_budgets(actions@),
{
    let mut r: Vec<i64> = Vec::new();
    let mut i: usize = 0;
    while i < actions.len()
        invariant
            i <= actions.len(),
            r@ == action_budgets(actions@.take(i as int)),
        decreases actions.len() - i,
    {
        r.push(actions[i].context_budget);
        i = i + 1;
        assert(r@ =~= action_budgets(actions@.take(i as int)));
    }
    assert(actions@.take(actions.len() as int) =~= actions@);
    r
}


/// How many of the flags are set.
pub open spec fn count_true(s: Seq<bool>) -> nat
    decreases s.len(),
{
    if s.len() == 0 {
        0
    } else {
        count_true(s.drop_last()) + if s.last() {
            1nat
        } else {
            0nat
        }
    }
}

proof fn lemma_count_true_bound(s: Seq<bool>)
    ensures
        count_true(s) <= s.len(),
    decreases s.len(),
{
    if s.len() > 0 {
        lemma_count_true_bound(s.drop_last());
    }
}

/// How many of the flags are set.
pub fn count_flags(flags: &Vec<bool>) -> (r: usize)
    ensures
        r == count_true(flags@),
{
    let mut n: usize = 0;
    let mut i: usize = 0;
    while i < flags.len()
        invariant
            i <= flags.len(),
            n == count_true(flags@.take(i as int)),
        decreases flags.len() - i,
    {
        assert(flags@.take(i + 1).drop_last() =~= flags@.take(i as int));
        proof {
            lemma_count_true_bound(flags@.take(i as int));
        }
        if flags[i] {
            n = n + 1;
        }
        i = i + 1;
    }
    assert(flags@.take(flags.len() as int) =~= flags@);
    n
}

/// Candidates that scoring did not prune.
pub open spec fn kept_flags(s: Seq<ServiceCandidateFacts>) -> Seq<bool> {
    s.map_values(|c: ServiceCandidateFacts| c.action@ != "prune"@)
}

/// Selected frontier rows judged by a subagent branch judgement.
pub open spec fn branch_judged_flags(s: Seq<ServiceFrontierFacts>) -> Seq<bool> {
    s.map_values(
        |f: ServiceFrontierFacts| f.selected && f.judgement_kind@ == "subagent_branch_judgement"@,
    )
}

/// Planner actions that ask for an LLM judgement.
pub open spec fn llm_flags(s: Seq<ServicePlannerActionFacts>) -> Seq<bool> {
    s.map_values(|a: ServicePlannerActionFacts| a.requires_llm_judgement)
}

/// Planner actions that allow a cycle.
pub open spec fn cycle_flags(s: Seq<ServicePlannerActionFacts>) -> Seq<bool> {
    s.map_values(|a: ServicePlannerActionFacts| a.cycle_allowed)
}

/// Planner actions other than `stop`.
pub open spec fn active_flags(s: Seq<ServicePlannerActionFacts>) -> Seq<bool> {
    s.map_values(|a: ServicePlannerActionFacts| a.action_kind@ != "stop"@)
}

fn is_text(s: &String, t: &str) -> (b: bool)
    ensures
        b == (s@ == t@),
{
    vec_eq(&chars_of(s.as_str()), &lit(t))
}

fn kept_flags_vec(s: &Vec<ServiceCandidateFacts>) -> (r: Vec<bool>)
    ensures
        r@ == kept_flags(s@),
{
    let mut r: Vec<bool> = Vec::new();
    let mut i: usize = 0;
    while i < s.len()
        invariant
            i <= s.len(),
            r@ == kept_flags(s@.take(i as int)),
        decreases s.len() - i,
    {
        r.push(!is_text(&s[i].action, "prune"));
        i = i + 1;
        assert(r@ =~= kept_flags(s@.take(i as int)));
    }
    assert(s@.take(s.len() as int) =~= s@);
    r
}

fn branch_judged_flags_vec(s: &Vec<ServiceFrontierFacts>) -> (r: Vec<bool>)
    ensures
        r@ == branch_judged_flags(s@),
{
    let mut r: Vec<bool> = Vec::new();
    let mut i: usize = 0;
    while i < s.len()
        invariant
            i <= s.len(),
            r@ == branch_judged_flags(s@.take(i as int)),
        decreases s.len() - i,
    {
        r.push(s[i].selected && is_text(&s[i].judgement_kind, "subagent_branch_judgement"));
        i = i + 1;
        assert(r@ =~= branch_judged_flags(s@.take(i as int)));
    }
    assert(s@.take(s.len() as int) =~= s@);
    r
}

fn action_flags_vec(s: &Vec<ServicePlannerActionFacts>) -> (r: (Vec<bool>, Vec<bool>, Vec<bool>))
    ensures
        r.0@ == llm_flags(s@),
        r.1@ == cycle_flags(s@),
        r.2@ == active_flags(s@),
{
    let mut llm: Vec<bool> = Vec::new();
    let mut cycle: Vec<bool> = Vec::new();
    let mut active: Vec<bool> = Vec::new();
    let mut i: usize = 0;
    while i < s.len()
        invariant
            i <= s.len(),
            llm@ == llm_flags(s@.take(i as int)),
            cycle@ == cycle_flags(s@.take(i as int)),
            active@ == active_flags(s@.take(i as int)),
        decreases s.len() - i,
    {
        llm.push(s[i].requires_llm_judgement);
        cycle.push(s[i].cycle_allowed);
        active.push(!is_text(&s[i].action_kind, "stop"));
        i = i + 1;
        assert(llm@ =~= llm_flags(s@.take(i as int)));
        assert(cycle@ =~= cycle_flags(s@.take(i as int)));
        assert(active@ =~= active_flags(s@.take(i as int)));
    }
    assert(s@.take(s.len() as int) =~= s@);
    (llm, cycle, active)
}

/// What one Julia stage of the flow took in and gave out.
#[derive(Clone, Debug)]
pub struct StageReceipt {
    pub stage: String,
    pub notebook: String,
    pub input_count: usize,
    pub output_count: usize,
    pub selected_count: usize,
    pub llm_judgement_count: usize,
    pub cycle_allowed_count: usize,
    pub context_budget: i64,
    pub summary: String,
}

/// A receipt with the given fields.
pub open spec fn receipt_is(
    r: StageReceipt,
    stage: Seq<char>,
    notebook: Seq<char>,
    input: int,
    output: int,
    selected: int,
    llm: int,
    cycle: int,
    budget: int,
    summary: Seq<char>,
) -> bool {
    &&& r.stage@ == stage
    &&& r.notebook@ == notebook
    &&& r.input_count == input
    &&& r.output_count == output
    &&& r.selected_count == selected
    &&& r.llm_judgement_count == llm
    &&& r.cycle_allowed_count == cycle
    &&& r.context_budget == budget
    &&& r.summary@ == summary
}

fn receipt(
    stage: &str,
    notebook: &str,
    input_count: usize,
    output_count: usize,
    selected_count: usize,
    llm_judgement_count: usize,
    cycle_allowed_count: usize,
    context_budget: i64,
    summary: &str,
) -> (r: StageReceipt)
    ensures
        receipt_is(
            r,
            stage@,
            notebook@,
            input_count as int,
            output_count as int,
            selected_count as int,
            llm_judgement_count as int,
            cycle_allowed_count as int,
            context_budget as int,
            summary@,
        ),
{
    StageReceipt {
        stage: stage.to_owned(),
        notebook: notebook.to_owned(),
        input_count,
        output_count,
        selected_count,
        llm_judgement_count,
        cycle_allowed_count,
        context_budget,
        summary: summary.to_owned(),
    }
}

/// The receipts of the five Julia stages, in flow order: query
/// understanding, candidate scoring, transition inference, frontier
/// selection and planner actions.
pub open spec fn stage_receipts_are(
    r: Seq<StageReceipt>,
    response: ServiceResponseFacts,
    query_understanding_count: int,
    total_context: int,
    selected_context: int,
    selected_count: int,
) -> bool {
    &&& r.len() == 5
    &&& receipt_is(
            r[0],
            "query_understanding"@,
            "notebooks/search_strategy_flow_query_understanding.jl"@,
            1,
            query_understanding_count,
            0,
            0,
            0,
            0,
            "intent to graph route hints, required evidence, ambiguity, and strategy budget"@,
        )
    &&& receipt_is(
            r[1],
            "candidate_scoring"@,
            "notebooks/search_strategy_flow_candidate_scoring.jl"@,
            response.candidates.len() as int,
            response.candidates.len() as int,
            count_true(kept_flags(response.candidates@)) as int,
            0,
            0,
            total_context,
            "graph evidence rows to deterministic score rows and branch actions"@,
        )
    &&& receipt_is(
            r[2],
            "transition_inference"@,
            "notebooks/search_strategy_flow_transition_inference.jl"@,
            response.candidates.len() as int,
            response.transition_count as int,
            response.transition_count as int,
            0,
            0,
            0,
            "score rows to revision transition kinds and missing-signal diagnostics"@,
        )
    &&& receipt_is(
            r[3],
            "frontier_selection"@,
            "notebooks/search_strategy_flow_frontier_selection.jl"@,
            response.candidates.len() as int,
            response.frontier.len() as int,
            selected_count,
            count_true(branch_judged_flags(response.frontier@)) as int,
            0,
            selected_context,
            "beam and context-budget bounded Agent-visible frontier"@,
        )
    &&& receipt_is(
            r[4],
            "planner_actions"@,
            "notebooks/search_strategy_flow_planner_actions.jl"@,
            response.frontier.len() as int,
            response.planner_actions.len() as int,
            count_true(active_flags(response.planner_actions@)) as int,
            count_true(llm_flags(response.planner_actions@)) as int,
            count_true(cycle_flags(response.planner_actions@)) as int,
            nonneg_sum(action_budgets(response.planner_actions@)),
            "frontier and transition facts to materialize, refine, judge, compare, and stop actions"@,
        )
}

/// The receipts of the five Julia stages (see `stage_receipts_are`).
pub fn stage_receipts(
    response: &ServiceResponseFacts,
    query_understanding_count: usize,
    total_context: i64,
    selected_context: i64,
    selected_count: usize,
) -> (r: Vec<StageReceipt>)
    requires
        nonneg_sum(action_budgets(response.planner_actions@)) <= i64::MAX,
    ensures
        stage_receipts_are(
            r@,
            *response,
            query_understanding_count as int,
            total_context as int,
            selected_context as int,
            selected_count as int,
        ),
{
    let kept = count_flags(&kept_flags_vec(&response.candidates));
    let judged = count_flags(&branch_judged_flags_vec(&response.frontier));
    let (llm, cycle, active) = action_flags_vec(&response.planner_actions);
    let llm_count = count_flags(&llm);
    let cycle_count = count_flags(&cycle);
    let active_count = count_flags(&active);
    let planner_budget = context_sum(&planner_context_budgets(&response.planner_actions));
    vec![
        receipt(
            "query_understanding",
            "notebooks/search_strategy_flow_query_understanding.jl",
            1,
            query_understanding_count,
            0,
            0,
            0,
            0,
            "intent to graph route hints, required evidence, ambiguity, and strategy budget",
        ),
        receipt(
            "candidate_scoring",
            "notebooks/search_strategy_flow_candidate_scoring.jl",
            response.candidates.len(),
            response.candidates.len(),
            kept,
            0,
            0,
            total_context,
            "graph evidence rows to deterministic score rows and branch actions",
        ),
        receipt(
            "transition_inference",
            "notebooks/search_strategy_flow_transition_inference.jl",
            response.candidates.len(),
            response.transition_count,
            response.transition_count,
            0,
            0,
            0,
            "score rows to revision transition kinds and missing-signal diagnostics",
        ),
        receipt(
            "frontier_selection",
            "notebooks/search_strategy_flow_frontier_selection.jl",
            response.candidates.len(),
            response.frontier.len(),
            selected_count,
            judged,
            0,
            selected_context,
            "beam and context-budget bounded Agent-visible frontier",
        ),
        receipt(
            "planner_actions",
            "notebooks/search_strategy_flow_planner_actions.jl",
            response.frontier.len(),
            response.planner_actions.len(),
            active_count,
            llm_count,
            cycle_count,
            planner_budget,
            "frontier and transition facts to materialize, refine, judge, compare, and stop actions",
        ),
    ]
}


/// Whether some selected frontier row falls in the bucket that the evidence
/// asks for.
pub open spec fn facts_cover(frontier: Seq<ServiceFrontierFacts>, evidence: Seq<char>) -> bool {
    exists|i: int|
        0 <= i < frontier.len() && #[trigger] frontier[i].selected && bucket_token(
            frontier_bucket(frontier[i].candidate_id@),
        ) == required_evidence_bucket(evidence)
}

/// What the trace checks of a service answer.
#[derive(Clone, Debug)]
pub struct ServiceTraceValidation {
    /// Every candidate was scored without a semantic (vector) score.
    pub no_vector_mode: bool,
    /// Some `materialize` action targets a selected candidate.
    pub materialized_top_candidate: bool,
    /// No blocked candidate was selected.
    pub blocked_evidence_pruned: bool,
    /// The selected context costs less than the whole.
    pub selected_context_reduced: bool,
    /// No required evidence is missing.
    pub required_evidence_covered: bool,
    /// Required evidence that the selected frontier covers, in order.
    pub selected_required_evidence: Vec<String>,
    /// Required evidence that it does not cover, in order.
    pub missing_required_evidence: Vec<String>,
}

fn selection_rows(frontier: &Vec<ServiceFrontierFacts>) -> (r: Vec<FrontierSelectionRow>)
    ensures
        r.len() == frontier.len(),
        forall|i: int|
            #![trigger r@[i]]
            0 <= i < r.len() ==> r@[i].selected == frontier@[i].selected
                && r@[i].candidate_id@ == frontier@[i].candidate_id@,
{
    let mut r: Vec<FrontierSelectionRow> = Vec::new();
    let mut i: usize = 0;
    while i < frontier.len()
        invariant
            i <= frontier.len(),
            r.len() == i,
            forall|j: int|
                #![trigger r@[j]]
                0 <= j < i ==> r@[j].selected == frontier@[j].selected
                    && r@[j].candidate_id@ == frontier@[j].candidate_id@,
        decreases frontier.len() - i,
    {
        let ghost before = r@;
        r.push(
            FrontierSelectionRow {
                candidate_id: copy_string(&frontier[i].candidate_id),
                selected: frontier[i].selected,
            },
        );
        assert(forall|j: int| 0 <= j < i ==> r@[j] == before[j]);
        i = i + 1;
    }
    r
}

/// The checks of a service answer, given the selected candidate ids, the
/// required evidence of the query, and the whole and selected context.
pub fn service_trace_validation(
    response: &ServiceResponseFacts,
    selected_ids: &Vec<String>,
    required_evidence: &Vec<String>,
    total_context: i64,
    selected_context: i64,
) -> (r: ServiceTraceValidation)
    ensures
        r.no_vector_mode == forall|i: int|
            0 <= i < response.candidates.len() ==> #[trigger] response.candidates@[i].semantic_score_is_zero,
        r.materialized_top_candidate == exists|i: int|
            0 <= i < response.planner_actions.len() && #[trigger] response.planner_actions@[i].action_kind@
                == "materialize"@ && selected_ids.deep_view().contains(
                response.planner_actions@[i].candidate_id@,
            ),
        r.blocked_evidence_pruned == forall|i: int|
            0 <= i < response.candidates.len() ==> !(#[trigger] response.candidates@[i].blocked
                && selected_ids.deep_view().contains(response.candidates@[i].candidate_id@)),
        r.selected_context_reduced == (selected_context < total_context),
        r.selected_required_evidence.deep_view() == required_evidence.deep_view().filter(
            |e: Seq<char>| facts_cover(response.frontier@, e),
        ),
        r.missing_required_evidence.deep_view() == required_evidence.deep_view().filter(
            |e: Seq<char>| !r.selected_required_evidence.deep_view().contains(e),
        ),
        r.required_evidence_covered == (r.missing_required_evidence.len() == 0),
{
    let mut no_vector = true;
    let mut pruned = true;
    let mut i: usize = 0;
    while i < response.candidates.len()
        invariant
            i <= response.candidates.len(),
            no_vector == forall|j: int| 0 <= j < i ==> #[trigger] response.candidates@[j].semantic_score_is_zero,
            pruned == forall|j: int|
                0 <= j < i ==> !(#[trigger] response.candidates@[j].blocked
                    && selected_ids.deep_view().contains(response.candidates@[j].candidate_id@)),
        decreases response.candidates.len() - i,
    {
        let c = &response.candidates[i];
        if !c.semantic_score_is_zero {
            no_vector = false;
        }
        if c.blocked && contains_string(selected_ids, &c.candidate_id) {
            pruned = false;
        }
        i = i + 1;
    }
    let mut materialized = false;
    let mut k: usize = 0;
    while k < response.planner_actions.len()
        invariant
            k <= response.planner_actions.len(),
            materialized == exists|j: int|
                0 <= j < k && #[trigger] response.planner_actions@[j].action_kind@ == "materialize"@
                    && selected_ids.deep_view().contains(response.planner_actions@[j].candidate_id@),
        decreases response.planner_actions.len() - k,
    {
        let a = &response.planner_actions[k];
        if is_text(&a.action_kind, "materialize") && contains_string(selected_ids, &a.candidate_id) {
            materialized = true;
        }
        k = k + 1;
    }
    let rows = selection_rows(&response.frontier);
    proof {
        assert forall|e: Seq<char>| #[trigger] evidence_covered(rows@, e) == facts_cover(response.frontier@, e) by {
            if evidence_covered(rows@, e) {
                let j = choose|j: int|
                    0 <= j < rows@.len() && #[trigger] rows@[j].selected && bucket_token(
                        frontier_bucket(rows@[j].candidate_id@),
                    ) == required_evidence_bucket(e);
                assert(rows@[j].candidate_id@ == response.frontier@[j].candidate_id@);
                assert(response.frontier@[j].selected);
            }
            if facts_cover(response.frontier@, e) {
                let j = choose|j: int|
                    0 <= j < response.frontier@.len() && #[trigger] response.frontier@[j].selected
                        && bucket_token(frontier_bucket(response.frontier@[j].candidate_id@))
                        == required_evidence_bucket(e);
                assert(rows@[j].candidate_id@ == response.frontier@[j].candidate_id@);
                assert(rows@[j].selected);
            }
        }
        assert((|e: Seq<char>| evidence_covered(rows@, e)) =~= (|e: Seq<char>|
            facts_cover(response.frontier@, e)));
    }
    let selected = selected_required_evidence_values(required_evidence, &rows);
    let mut missing: Vec<String> = Vec::new();
    let mut m: usize = 0;
    while m < required_evidence.len()
        invariant
            m <= required_evidence.len(),
            missing.deep_view() == required_evidence.deep_view().take(m as int).filter(
                |e: Seq<char>| !selected.deep_view().contains(e),
            ),
        decreases required_evidence.len() - m,
    {
        let ghost prev = required_evidence.deep_view().take(m as int);
        let ghost x = required_evidence@[m as int]@;
        assert(required_evidence.deep_view().take(m + 1) =~= prev.push(x));
        proof {
            prev.lemma_filter_push(x, |e: Seq<char>| !selected.deep_view().contains(e));
        }
        if !contains_string(&selected, &required_evidence[m]) {
            push_string(&mut missing, copy_string(&required_evidence[m]));
        }
        m = m + 1;
    }
    assert(required_evidence.deep_view().take(required_evidence.len() as int)
        =~= required_evidence.deep_view());
    let covered = missing.len() == 0;
    ServiceTraceValidation {
        no_vector_mode: no_vector,
        materialized_top_candidate: materialized,
        blocked_evidence_pruned: pruned,
        selected_context_reduced: selected_context < total_context,
        required_evidence_covered: covered,
        selected_required_evidence: selected,
        missing_required_evidence: missing,
    }
}

/// The largest of the values present, if any is.
pub open spec fn opt_max(s: Seq<Option<i64>>) -> Option<i64>
    decreases s.len(),
{
    if s.len() == 0 {
        None
    } else {
        match (opt_max(s.drop_last()), s.last()) {
            (Some(a), Some(b)) => Some(if a >= b { a } else { b }),
            (None, x) => x,
            (a, None) => a,
        }
    }
}

/// The largest value of a field over the rows that carry it, or the
/// default where none does.
pub fn max_int_field(values: &Vec<Option<i64>>, default: i64) -> (r: i64)
    ensures
        r == match opt_max(values@) {
            Some(m) => m,
            None => default,
        },
{
    let mut best: Option<i64> = None;
    let mut i: usize = 0;
    while i < values.len()
        invariant
            i <= values.len(),
            best == opt_max(values@.take(i as int)),
        decreases values.len() - i,
    {
        assert(values@.take(i + 1).drop_last() =~= values@.take(i as int));
        best = match (best, values[i]) {
            (Some(a), Some(b)) => Some(if a >= b { a } else { b }),
            (None, x) => x,
            (a, None) => a,
        };
        i = i + 1;
    }
    assert(values@.take(values.len() as int) =~= values@);
    match best {
        Some(m) => m,
        None => default,
    }
}

/// The budget recommendations of one query-understanding row, where it
/// carries them as integers.
#[derive(Clone, Debug)]
pub struct QueryUnderstandingBudgetRow {
    pub recommended_loop_budget: Option<i64>,
    pub recommended_judgement_budget: Option<i64>,
    pub recommended_beam_width: Option<i64>,
}

/// The strategy budget a trace reports, and where it came from.
#[derive(Clone, Debug)]
pub struct StrategyBudget {
    pub source: String,
    pub loop_budget: i64,
    pub judgement_budget: i64,
    pub beam_width: i64,
}

pub open spec fn loop_budgets(rows: Seq<QueryUnderstandingBudgetRow>) -> Seq<Option<i64>> {
    rows.map_values(|r: QueryUnderstandingBudgetRow| r.recommended_loop_budget)
}

pub open spec fn judgement_budgets(rows: Seq<QueryUnderstandingBudgetRow>) -> Seq<Option<i64>> {
    rows.map_values(|r: QueryUnderstandingBudgetRow| r.recommended_judgement_budget)
}

pub open spec fn beam_widths(rows: Seq<QueryUnderstandingBudgetRow>) -> Seq<Option<i64>> {
    rows.map_values(|r: QueryUnderstandingBudgetRow| r.recommended_beam_width)
}

pub open spec fn max_or(s: Seq<Option<i64>>, default: i64) -> i64 {
    match opt_max(s) {
        Some(m) => m,
        None => default,
    }
}

/// The strategy budget of the rows: the defaults (loop 1, judgement 1,
/// beam 3) when query understanding gave no row, else the largest
/// recommendation of each kind over its rows, with the same defaults where no
/// row carries one.
pub open spec fn strategy_budget_is(r: StrategyBudget, rows: Seq<QueryUnderstandingBudgetRow>) -> bool {
    &&& rows.len() == 0 ==> r.source@ == "default"@ && r.loop_budget == 1 && r.judgement_budget == 1
        && r.beam_width == 3
    &&& rows.len() > 0 ==> {
        &&& r.source@ == "query_understanding"@
        &&& r.loop_budget == max_or(loop_budgets(rows), 1)
        &&& r.judgement_budget == max_or(judgement_budgets(rows), 1)
        &&& r.beam_width == max_or(beam_widths(rows), 3)
    }
}

/// The strategy budget of the rows (see `strategy_budget_is`).
pub fn strategy_budget(rows: &Vec<QueryUnderstandingBudgetRow>) -> (r: StrategyBudget)
    ensures
        strategy_budget_is(r, rows@),
{
    if rows.len() == 0 {
        return StrategyBudget {
            source: "default".to_owned(),
            loop_budget: 1,
            judgement_budget: 1,
            beam_width: 3,
        };
    }
    let mut loops: Vec<Option<i64>> = Vec::new();
    let mut judgements: Vec<Option<i64>> = Vec::new();
    let mut beams: Vec<Option<i64>> = Vec::new();
    let mut i: usize = 0;
    while i < rows.len()
        invariant
            i <= rows.len(),
            loops@ == loop_budgets(rows@.take(i as int)),
            judgements@ == judgement_budgets(rows@.take(i as int)),
            beams@ == beam_widths(rows@.take(i as int)),
        decreases rows.len() - i,
    {
        loops.push(rows[i].recommended_loop_budget);
        judgements.push(rows[i].recommended_judgement_budget);
        beams.push(rows[i].recommended_beam_width);
        i = i + 1;
        assert(loops@ =~= loop_budgets(rows@.take(i as int)));
        assert(judgements@ =~= judgement_budgets(rows@.take(i as int)));
        assert(beams@ =~= beam_widths(rows@.take(i as int)));
    }
    assert(rows@.take(rows.len() as int) =~= rows@);
    StrategyBudget {
        source: "query_understanding".to_owned(),
        loop_budget: max_int_field(&loops, 1),
        judgement_budget: max_int_field(&judgements, 1),
        beam_width: max_int_field(&beams, 3),
    }
}


pub open spec fn opt_string_view(o: Option<String>) -> Option<Seq<char>> {
    match o {
        Some(s) => Some(s@),
        None => None,
    }
}

/// What the trace reads of one query-understanding row.
#[derive(Clone, Debug)]
pub struct QueryUnderstandingFacts {
    pub required_evidence: Option<String>,
    pub budget: QueryUnderstandingBudgetRow,
}

/// The budget rows of the query-understanding rows.
pub open spec fn budget_rows(rows: Seq<QueryUnderstandingFacts>) -> Seq<QueryUnderstandingBudgetRow> {
    rows.map_values(|q: QueryUnderstandingFacts| q.budget)
}

/// Everything a service trace reports besides the rows it copies.
#[derive(Clone, Debug)]
pub struct ServiceTraceFacts {
    pub selected_candidate_ids: Vec<String>,
    pub total_context_cost: i64,
    pub selected_context_cost: i64,
    pub required_evidence: Vec<String>,
    pub stage_receipts: Vec<StageReceipt>,
    pub validation: ServiceTraceValidation,
    pub strategy_budget: StrategyBudget,
}

/// Whether the three context sums of a response fit in an `i64`.
pub open spec fn service_sums_fit(response: ServiceResponseFacts) -> bool {
    &&& nonneg_sum(candidate_costs(response.candidates@)) <= i64::MAX
    &&& nonneg_sum(frontier_budgets(response.frontier@)) <= i64::MAX
    &&& nonneg_sum(action_budgets(response.planner_actions@)) <= i64::MAX
}

/// Whether the three context sums of a response fit in an `i64`.
pub fn service_trace_sums_fit(response: &ServiceResponseFacts) -> (b: bool)
    ensures
        b == service_sums_fit(*response),
{
    context_sum_fits(&candidate_context_costs(&response.candidates)) && context_sum_fits(
        &frontier_context_budgets(&response.frontier),
    ) && context_sum_fits(&planner_context_budgets(&response.planner_actions))
}

/// The facts of a service trace: the selected ids, the whole and the
/// selected context, the required evidence, the stage receipts, the checks,
/// and the strategy budget.
pub fn service_trace_facts(
    response: &ServiceResponseFacts,
    query_understanding: &Vec<QueryUnderstandingFacts>,
) -> (r: ServiceTraceFacts)
    requires
        service_sums_fit(*response),
    ensures
        r.selected_candidate_ids.deep_view().no_duplicates(),
        forall|id: Seq<char>| #[trigger] r.selected_candidate_ids.deep_view().contains(id)
            <==> is_selected_id(response.frontier@, id),
        r.total_context_cost == nonneg_sum(candidate_costs(response.candidates@)),
        r.selected_context_cost == nonneg_sum(frontier_budgets(response.frontier@)),
        strictly_sorted(r.required_evidence.deep_view()),
        forall|t: Seq<char>| #[trigger] r.required_evidence.deep_view().contains(t) <==> (t.len() > 0
            && exists|i: int|
            0 <= i < query_understanding.len() && names(
                #[trigger] query_understanding@[i].required_evidence,
                t,
            )),
        stage_receipts_are(
            r.stage_receipts@,
            *response,
            query_understanding.len() as int,
            r.total_context_cost as int,
            r.selected_context_cost as int,
            r.selected_candidate_ids.len() as int,
        ),
        r.validation.selected_context_reduced == (r.selected_context_cost < r.total_context_cost),
        r.validation.selected_required_evidence.deep_view() == r.required_evidence.deep_view().filter(
            |e: Seq<char>| facts_cover(response.frontier@, e),
        ),
        r.validation.missing_required_evidence.deep_view() == r.required_evidence.deep_view().filter(
            |e: Seq<char>| !r.validation.selected_required_evidence.deep_view().contains(e),
        ),
        r.validation.required_evidence_covered == (r.validation.missing_required_evidence.len() == 0),
        r.validation.materialized_top_candidate == exists|i: int|
            0 <= i < response.planner_actions.len() && #[trigger] response.planner_actions@[i].action_kind@
                == "materialize"@ && is_selected_id(
                response.frontier@,
                response.planner_actions@[i].candidate_id@,
            ),
        r.validation.blocked_evidence_pruned == forall|i: int|
            0 <= i < response.candidates.len() ==> !(#[trigger] response.candidates@[i].blocked
                && is_selected_id(response.frontier@, response.candidates@[i].candidate_id@)),
        r.validation.no_vector_mode == forall|i: int|
            0 <= i < response.candidates.len() ==> #[trigger] response.candidates@[i].semantic_score_is_zero,
        strategy_budget_is(r.strategy_budget, budget_rows(query_understanding@)),
{
    let ids = selected_candidate_ids(&response.frontier);
    let total = context_sum(&candidate_context_costs(&response.candidates));
    let selected = context_sum(&frontier_context_budgets(&response.frontier));
    let mut evidence: Vec<Option<String>> = Vec::new();
    let mut budgets: Vec<QueryUnderstandingBudgetRow> = Vec::new();
    let mut i: usize = 0;
    while i < query_understanding.len()
        invariant
            i <= query_understanding.len(),
            evidence.len() == i,
            budgets@ == budget_rows(query_understanding@.take(i as int)),
            forall|j: int|
                #![trigger evidence@[j]]
                0 <= j < i ==> opt_string_view(evidence@[j]) == opt_string_view(
                    query_understanding@[j].required_evidence,
                ),
        decreases query_understanding.len() - i,
    {
        let ghost before = evidence@;
        let row = &query_understanding[i];
        let e = match &row.required_evidence {
            Some(v) => Some(copy_string(v)),
            None => None,
        };
        evidence.push(e);
        assert(forall|j: int| 0 <= j < i ==> evidence@[j] == before[j]);
        budgets.push(
            QueryUnderstandingBudgetRow {
                recommended_loop_budget: row.budget.recommended_loop_budget,
                recommended_judgement_budget: row.budget.recommended_judgement_budget,
                recommended_beam_width: row.budget.recommended_beam_width,
            },
        );
        i = i + 1;
        assert(budgets@ =~= budget_rows(query_understanding@.take(i as int)));
    }
    assert(query_understanding@.take(query_understanding.len() as int) =~= query_understanding@);
    let required = required_evidence_values(&evidence);
    proof {
        assert forall|t: Seq<char>| #[trigger] required.deep_view().contains(t) <==> (t.len() > 0
            && exists|i: int|
            0 <= i < query_understanding.len() && names(
                #[trigger] query_understanding@[i].required_evidence,
                t,
            )) by {
            if required.deep_view().contains(t) {
                let k = choose|k: int| 0 <= k < evidence@.len() && names(#[trigger] evidence@[k], t);
                assert(opt_string_view(evidence@[k]) == opt_string_view(query_understanding@[k].required_evidence));
                assert(names(query_understanding@[k].required_evidence, t));
            }
            if t.len() > 0 && exists|i: int|
                0 <= i < query_understanding.len() && names(
                    #[trigger] query_understanding@[i].required_evidence,
                    t,
                ) {
                let k = choose|k: int|
                    0 <= k < query_understanding.len() && names(
                        #[trigger] query_understanding@[k].required_evidence,
                        t,
                    );
                assert(opt_string_view(evidence@[k]) == opt_string_view(query_understanding@[k].required_evidence));
                assert(names(evidence@[k], t));
            }
        }
    }
    let receipts = stage_receipts(response, query_understanding.len(), total, selected, ids.len());
    let validation = service_trace_validation(response, &ids, &required, total, selected);
    let budget = strategy_budget(&budgets);
    ServiceTraceFacts {
        selected_candidate_ids: ids,
        total_context_cost: total,
        selected_context_cost: selected,
        required_evidence: required,
        stage_receipts: receipts,
        validation,
        strategy_budget: budget,
    }
}


/// No required evidence is missing exactly when the selected frontier
/// covers every required evidence.
pub proof fn lemma_required_evidence_covered(
    required: Seq<Seq<char>>,
    frontier: Seq<ServiceFrontierFacts>,
    selected: Seq<Seq<char>>,
    missing: Seq<Seq<char>>,
)
    requires
        selected == required.filter(|e: Seq<char>| facts_cover(frontier, e)),
        missing == required.filter(|e: Seq<char>| !selected.contains(e)),
    ensures
        (missing.len() == 0) <==> forall|i: int| 0 <= i < required.len() ==> facts_cover(frontier, #[trigger] required[i]),
{
    let cover = |e: Seq<char>| facts_cover(frontier, e);
    let absent = |e: Seq<char>| !selected.contains(e);
    if missing.len() == 0 {
        assert forall|i: int| 0 <= i < required.len() implies facts_cover(frontier, #[trigger] required[i]) by {
            if !selected.contains(required[i]) {
                required.lemma_filter_contains(absent, i);
                assert(missing.contains(required[i]));
            } else {
                let k = choose|k: int| 0 <= k < selected.len() && selected[k] == required[i];
                required.lemma_filter_pred(cover, k);
            }
        }
    } else {
        required.lemma_filter_pred(absent, 0);
        required.lemma_filter_contains_rev(absent, missing[0]);
        let i = choose|i: int| 0 <= i < required.len() && required[i] == missing[0];
        if facts_cover(frontier, required[i]) {
            required.lemma_filter_contains(cover, i);
        }
    }
}

} // verus!
