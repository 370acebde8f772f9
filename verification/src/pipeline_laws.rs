//! What holds of every plan and of every run.

use vstd::prelude::*;
use crate::error::ErrorView;
use crate::graph::{
    closed, first_ready_first, has_cycle, is_arrangement, is_cycle, latest,
    lemma_arrangement_complete, lemma_arrangement_of, respects, stuck, waits_for_next,
    waits_inside, well_formed,
};
use crate::graph_lemmas::lemma_latest_is;
use crate::pipeline::{
    any_failed, any_needs, blocks, dependency_graph, first_repeat, first_unknown_need,
    first_unknown_step, has_unknown, is_plan_of, is_report_of, is_run_of, may_run, overall_of,
    pick_steps, planned_order, reorders, repeats, repeats_in, skipped_report, statuses_of,
    step_ids, unknown_in, unknown_need, PipelineCapabilityResolver, PipelineRunStatus,
    PipelineStepExecutor, PipelineStepStatus, PlanStepView, PlanView, StepResultView, StepView,
};
use crate::search::{lemma_first_where, lemma_first_where_is, lemma_position, position};

verus! {

/// No two steps share an id.
pub open spec fn ids_differ(steps: Seq<StepView>) -> bool {
    forall|i: int, j: int| 0 <= i < j < steps.len() ==> steps[i].id != steps[j].id
}

/// No step names a dependency.
pub open spec fn no_needs(steps: Seq<StepView>) -> bool {
    forall|c: int| 0 <= c < steps.len() ==> (#[trigger] steps[c]).needs.len() == 0
}

/// Every dependency names a step of the list.
pub open spec fn needs_known(steps: Seq<StepView>) -> bool {
    forall|c: int, k: int|
        0 <= c < steps.len() && 0 <= k < steps[c].needs.len() ==> !#[trigger] unknown_need(
            steps,
            c,
            k,
        )
}

/// Where ids differ, no place repeats an earlier id.
pub proof fn lemma_no_repeat(steps: Seq<StepView>)
    requires
        ids_differ(steps),
    ensures
        first_repeat(step_ids(steps)) == steps.len(),
{
    let ids = step_ids(steps);
    assert forall|j: int| 0 <= j < ids.len() implies !#[trigger] repeats_in(ids)(j) by {
        if repeats(ids, j) {
            let i = choose|i: int| 0 <= i < ids.take(j).len() && ids.take(j)[i] == ids[j];
            assert(steps[i].id == steps[j].id);
        }
    }
    lemma_first_where_is(ids.len() as int, repeats_in(ids), ids.len() as int);
}

/// Where every dependency names a step, no step has an unknown dependency.
pub proof fn lemma_no_unknown(steps: Seq<StepView>)
    requires
        needs_known(steps),
    ensures
        first_unknown_step(steps) == steps.len(),
{
    assert forall|c: int| 0 <= c < steps.len() implies !#[trigger] has_unknown(steps)(c) by {
        assert forall|k: int| 0 <= k < steps[c].needs.len() implies !#[trigger] unknown_in(
            steps,
            c,
        )(k) by {
            assert(!unknown_need(steps, c, k));
        }
        lemma_first_where_is(
            steps[c].needs.len() as int,
            unknown_in(steps, c),
            steps[c].needs.len() as int,
        );
    }
    lemma_first_where_is(steps.len() as int, has_unknown(steps), steps.len() as int);
}

/// A list in which ids differ and no step names a dependency is planned as it stands, with
/// no warning.
pub proof fn lemma_independent_steps_keep_their_order(steps: Seq<StepView>, field: Seq<char>)
    requires
        ids_differ(steps),
        no_needs(steps),
    ensures
        planned_order(steps, field) == Ok::<(Seq<StepView>, Seq<Seq<char>>), ErrorView>(
            (steps, Seq::empty()),
        ),
{
    if steps.len() > 1 {
        let g = dependency_graph(steps);
        let n = steps.len() as int;
        lemma_no_repeat(steps);
        assert(needs_known(steps)) by {
            assert forall|c: int, k: int|
                0 <= c < steps.len() && 0 <= k < steps[c].needs.len() implies !#[trigger] unknown_need(
                steps,
                c,
                k,
            ) by {
                assert(steps[c].needs.len() == 0);
            }
        }
        lemma_no_unknown(steps);
        assert forall|v: int| 0 <= v < n implies (#[trigger] g[v]).len() == 0 by {
            assert(steps[v].needs.len() == 0);
        }
        assert(!has_cycle(g)) by {
            if has_cycle(g) {
                let c = choose|c: Seq<int>| is_cycle(g, c);
                assert(waits_for_next(g, c, 0));
                assert(g[c[0]].len() == 0);
            }
        }
        assert(!any_needs(steps));
        let same = Seq::new(n as nat, |i: int| i);
        assert(is_arrangement(g, same)) by {
            assert forall|a: int| 0 <= a < n implies latest(same, #[trigger] g[same[a]]) == -1 by {
                assert(g[a].len() == 0);
                lemma_latest_is(same, g[same[a]], -1);
            }
            assert(first_ready_first(g, same));
            assert(respects(g, same)) by {
                assert forall|i: int, k: int|
                    0 <= i < same.len() && 0 <= k < g[same[i]].len() implies same.take(i).contains(
                    #[trigger] g[same[i]][k],
                ) by {
                    assert(g[i].len() == 0);
                }
            }
            assert forall|v: int| 0 <= v < g.len() implies (same.contains(v) <==> !stuck(g, v)) by {
                assert(same[v] == v);
                if stuck(g, v) {
                    let s = choose|s: Set<int>| closed(g, s) && s.contains(v);
                    assert(waits_inside(g, s, v));
                    assert(g[v].len() == 0);
                }
            }
        }
        lemma_arrangement_of(g, same);
        assert(pick_steps(steps, same) =~= steps);
    }
}

/// A list of two or more steps in which ids differ and every dependency names a step is
/// planned exactly where no steps depend on each other in a circle; where some do, planning
/// fails with the steps that cannot start.
pub proof fn lemma_planned_unless_circular(steps: Seq<StepView>, field: Seq<char>)
    requires
        steps.len() >= 2,
        ids_differ(steps),
        needs_known(steps),
    ensures
        planned_order(steps, field) is Ok <==> !has_cycle(dependency_graph(steps)),
        has_cycle(dependency_graph(steps)) ==> planned_order(steps, field)->Err_0
            is DependencyCycle,
{
    lemma_no_repeat(steps);
    lemma_no_unknown(steps);
}

/// Where every dependency names a step, every entry of the dependency graph names a place
/// of the list.
pub proof fn lemma_graph_well_formed(steps: Seq<StepView>)
    requires
        needs_known(steps),
    ensures
        well_formed(dependency_graph(steps)),
{
    let g = dependency_graph(steps);
    let ids = step_ids(steps);
    assert forall|v: int, k: int| 0 <= v < g.len() && 0 <= k < g[v].len() implies 0
        <= #[trigger] g[v][k] < g.len() by {
        assert(!unknown_need(steps, v, k));
        lemma_position(ids, steps[v].needs[k]);
        let i = choose|i: int| 0 <= i < ids.len() && ids[i] == steps[v].needs[k];
        assert(ids[i] == steps[v].needs[k]);
    }
}

/// Of a list of two or more steps in which ids differ and every dependency names a step,
/// the plan holds every step once, in the order of the arrangement of the dependency graph;
/// and there is a plan exactly where that arrangement leaves no step out.
pub proof fn lemma_plan_keeps_every_step(steps: Seq<StepView>, field: Seq<char>, order: Seq<int>)
    requires
        steps.len() >= 2,
        ids_differ(steps),
        needs_known(steps),
        is_arrangement(dependency_graph(steps), order),
    ensures
        planned_order(steps, field) is Ok <==> order.len() == steps.len(),
        planned_order(steps, field) is Ok ==> reorders(
            steps,
            order,
            planned_order(steps, field)->Ok_0.0,
        ),
{
    let g = dependency_graph(steps);
    lemma_no_repeat(steps);
    lemma_no_unknown(steps);
    lemma_graph_well_formed(steps);
    lemma_arrangement_complete(g, order);
    lemma_arrangement_of(g, order);
}

/// In a plan every step stands behind the steps that it names.
pub proof fn lemma_steps_follow_their_needs(
    steps: Seq<StepView>,
    field: Seq<char>,
    order: Seq<int>,
    i: int,
    k: int,
)
    requires
        steps.len() >= 2,
        ids_differ(steps),
        needs_known(steps),
        is_arrangement(dependency_graph(steps), order),
        planned_order(steps, field) is Ok,
        0 <= i < steps.len(),
        0 <= k < planned_order(steps, field)->Ok_0.0[i].needs.len(),
    ensures
        exists|j: int|
            0 <= j < i && (#[trigger] planned_order(steps, field)->Ok_0.0[j]).id == planned_order(
                steps,
                field,
            )->Ok_0.0[i].needs[k],
{
    let g = dependency_graph(steps);
    let ids = step_ids(steps);
    let ordered = planned_order(steps, field)->Ok_0.0;
    lemma_plan_keeps_every_step(steps, field, order);
    let need = steps[order[i]].needs[k];
    assert(ordered[i] == steps[order[i]]);
    assert(order.take(i).contains(g[order[i]][k]));
    let j = choose|j: int| 0 <= j < order.take(i).len() && order.take(i)[j] == g[order[i]][k];
    assert(order[j] == position(ids, need));
    assert(!unknown_need(steps, order[i], k));
    lemma_position(ids, need);
    let w = choose|w: int| 0 <= w < ids.len() && ids[w] == need;
    assert(ids[w] == need);
    assert(ids[order[j]] == need);
    assert(ordered[j] == steps[order[j]]);
}

/// A list in which two steps share an id is refused for that reason, whatever else it holds.
pub proof fn lemma_duplicate_id_is_refused(steps: Seq<StepView>, field: Seq<char>, i: int, j: int)
    requires
        0 <= i < j < steps.len(),
        steps[i].id == steps[j].id,
    ensures
        planned_order(steps, field) is Err,
        planned_order(steps, field)->Err_0 is DuplicateStepId,
{
    let ids = step_ids(steps);
    lemma_first_where(ids.len() as int, repeats_in(ids));
    if first_repeat(ids) == ids.len() {
        assert(ids.take(j)[i] == ids[j]);
        assert(repeats_in(ids)(j));
    }
}

/// A list of two or more steps with different ids in which a dependency names no step is
/// refused for that reason.
pub proof fn lemma_unknown_dependency_is_refused(
    steps: Seq<StepView>,
    field: Seq<char>,
    c: int,
    k: int,
)
    requires
        steps.len() >= 2,
        ids_differ(steps),
        0 <= c < steps.len(),
        0 <= k < steps[c].needs.len(),
        unknown_need(steps, c, k),
    ensures
        planned_order(steps, field) is Err,
        planned_order(steps, field)->Err_0 is UnknownDependency,
{
    lemma_no_repeat(steps);
    lemma_first_where(steps.len() as int, has_unknown(steps));
    lemma_first_where(steps[c].needs.len() as int, unknown_in(steps, c));
    if first_unknown_step(steps) == steps.len() {
        if first_unknown_need(steps, c) == steps[c].needs.len() {
            assert(unknown_in(steps, c)(k));
        }
        assert(has_unknown(steps)(c));
    }
}

/// In the plan of a pipeline that is switched off every step is disabled, whatever the
/// resolver supports.
pub proof fn lemma_switched_off_disables_all<R: PipelineCapabilityResolver>(
    steps: Seq<StepView>,
    resolver: &R,
    field: Seq<char>,
    r: Result<PlanView, ErrorView>,
)
    requires
        is_plan_of(steps, resolver, false, field, r),
        r is Ok,
    ensures
        forall|i: int|
            0 <= i < r->Ok_0.steps.len() ==> (#[trigger] r->Ok_0.steps[i]).status
                == PipelineStepStatus::Disabled,
{
}

/// A step that names an earlier step whose report is skipped or failed is reported as
/// skipped: it was not attempted.
pub proof fn lemma_failure_skips_dependents<E: PipelineStepExecutor>(
    executor: &E,
    plan: Seq<PlanStepView>,
    results: Seq<StepResultView>,
    i: int,
    k: int,
    j: int,
)
    requires
        is_run_of(executor, plan, results),
        0 <= j < i < plan.len(),
        0 <= k < plan[i].step.needs.len(),
        plan[i].step.needs[k] == plan[j].step.id,
        results[j].status == PipelineRunStatus::Skipped || results[j].status
            == PipelineRunStatus::Failed,
    ensures
        !may_run(plan, statuses_of(results), i),
        results[i] == skipped_report(plan[i]),
        results[i].status == PipelineRunStatus::Skipped,
{
    assert(blocks(plan, statuses_of(results), i, k, j));
    assert(is_report_of(executor, plan, results, i));
}

/// A run fails as a whole exactly where the report of a step is a failure.
pub proof fn lemma_overall_failed_iff_step_failed(results: Seq<StepResultView>)
    ensures
        overall_of(results) == PipelineRunStatus::Failed <==> any_failed(results),
{
}

} // verus!
