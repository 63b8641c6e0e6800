use vstd::prelude::*;

use crate::constraints::balance_workload::{
    self, lemma_key_totals_permutation, lemma_task_loads_pointwise, lemma_total_duration_permutation, evenly_loaded, exact_load_limit, key_totals, load_unfairness, task_loads, total_duration,
};
use crate::constraints::candidate_availability::{self, availability_weight, hits_unavailable_slot, joins};
use crate::constraints::complete_candidate::{self, is_unassigned, unassigned_weight};
use crate::constraints::complete_start::{self, lacks_start, unstarted_weight};
use crate::constraints::minimize_completion::{self, completion_weight};
use crate::constraints::minimize_idle_gaps::{self, gap_weight, lemma_idle_gap_symmetric};
use crate::constraints::no_candidate_overlap::{
    self, lemma_overlap_symmetric, overlap_weight, overlaps, same_candidate,
};
use crate::constraints::required_skills::{self, lacks_required_skill, skill_weight};
use crate::constraints::sums::{
    lemma_sum_facts_same_weights, lemma_sum_joined_as_tasks, lemma_sum_joined_nonneg,
    lemma_sum_joined_zero, lemma_sum_pairs_nonneg, lemma_sum_pairs_permutation,
    lemma_sum_pairs_pointwise, lemma_sum_pairs_zero, lemma_sum_tasks_nonneg,
    lemma_sum_tasks_permutation, lemma_sum_tasks_pointwise, lemma_sum_tasks_pointwise_with,
    lemma_sum_tasks_zero, sum_facts, sum_joined, sum_pairs, sum_tasks, symmetric,
};
use crate::constraints::task_time_window::{self, violates_time_window, window_weight};
use crate::domain::{Candidate, Plan, Task};
use crate::score::HardSoftScore;

verus! {

/// Number of hard-constraint violations of a sequence of tasks against the
/// candidates, summed over the six hard constraints.
pub open spec fn tasks_hard_penalty(tasks: Seq<Task>, facts: Seq<Candidate>) -> int {
    sum_joined(tasks, facts, availability_weight()) + sum_tasks(tasks, unassigned_weight())
        + sum_tasks(tasks, unstarted_weight()) + sum_pairs(tasks, overlap_weight())
        + sum_joined(tasks, facts, skill_weight()) + sum_tasks(tasks, window_weight())
}

/// Soft penalty of a sequence of tasks, summed over the three soft
/// constraints.
pub open spec fn tasks_soft_penalty(tasks: Seq<Task>) -> int {
    load_unfairness(key_totals(task_loads(tasks))) + sum_tasks(tasks, completion_weight())
        + sum_pairs(tasks, gap_weight())
}

/// Number of hard-constraint violations in a plan, summed over the six hard
/// constraints.
pub open spec fn hard_penalty(plan: Plan) -> int {
    tasks_hard_penalty(plan.tasks@, plan.candidates@)
}

/// Soft penalty of a plan, summed over the three soft constraints.
pub open spec fn soft_penalty(plan: Plan) -> int {
    tasks_soft_penalty(plan.tasks@)
}

/// The plan's penalties fit the `i64` levels of the score, and its total
/// duration stays within the range the workload collector handles (the
/// workload unfairness never exceeds the total duration).
pub open spec fn score_in_range(plan: Plan) -> bool {
    &&& plan.tasks@.len() <= i64::MAX
    &&& hard_penalty(plan) <= i64::MAX
    &&& total_duration(plan.tasks@) <= 1_000_000_000
    &&& sum_tasks(plan.tasks@, completion_weight()) + sum_pairs(plan.tasks@, gap_weight())
        + total_duration(plan.tasks@) <= i64::MAX
}

/// Every hard constraint holds: each task is assigned and started, fits its
/// window and one workday, its assignee is available in every occupied slot
/// and holds every required skill, and no two tasks of one candidate overlap.
pub open spec fn satisfies_hard_constraints(plan: Plan) -> bool {
    let tasks = plan.tasks@;
    let facts = plan.candidates@;
    &&& forall|i: int| 0 <= i < tasks.len() ==> !is_unassigned(#[trigger] tasks[i])
    &&& forall|i: int| 0 <= i < tasks.len() ==> !lacks_start(#[trigger] tasks[i])
    &&& forall|i: int| 0 <= i < tasks.len() ==> !violates_time_window(#[trigger] tasks[i])
    &&& forall|i: int, k: int|
        0 <= i < tasks.len() && 0 <= k < facts.len() && joins(#[trigger] tasks[i], #[trigger] facts[k])
            ==> !hits_unavailable_slot(tasks[i], facts[k]) && !lacks_required_skill(tasks[i], facts[k])
    &&& forall|i: int, j: int|
        0 <= i < j < tasks.len() && same_candidate(#[trigger] tasks[i], #[trigger] tasks[j])
            ==> !overlaps(tasks[i], tasks[j])
}

proof fn lemma_penalties_nonneg(plan: Plan)
    ensures
        sum_joined(plan.tasks@, plan.candidates@, availability_weight()) >= 0,
        sum_tasks(plan.tasks@, unassigned_weight()) >= 0,
        sum_tasks(plan.tasks@, unstarted_weight()) >= 0,
        sum_pairs(plan.tasks@, overlap_weight()) >= 0,
        sum_joined(plan.tasks@, plan.candidates@, skill_weight()) >= 0,
        sum_tasks(plan.tasks@, window_weight()) >= 0,
        sum_tasks(plan.tasks@, completion_weight()) >= 0,
        sum_pairs(plan.tasks@, gap_weight()) >= 0,
{
    lemma_sum_joined_nonneg(plan.tasks@, plan.candidates@, availability_weight());
    lemma_sum_tasks_nonneg(plan.tasks@, unassigned_weight());
    lemma_sum_tasks_nonneg(plan.tasks@, unstarted_weight());
    lemma_sum_pairs_nonneg(plan.tasks@, overlap_weight());
    lemma_sum_joined_nonneg(plan.tasks@, plan.candidates@, skill_weight());
    lemma_sum_tasks_nonneg(plan.tasks@, window_weight());
    lemma_sum_tasks_nonneg(plan.tasks@, completion_weight());
    lemma_sum_pairs_nonneg(plan.tasks@, gap_weight());
}

/// The plan's score under all nine constraints, summed in the order the
/// constraint set lists them.
pub fn evaluate_all(plan: &Plan) -> (s: HardSoftScore)
    requires
        score_in_range(*plan),
    ensures
        s.hard == -hard_penalty(*plan),
        s.soft == -soft_penalty(*plan),
        s.hard <= 0,
        s.soft <= 0,
        0 <= load_unfairness(key_totals(task_loads(plan.tasks@))),
        total_duration(plan.tasks@) <= exact_load_limit() && evenly_loaded(key_totals(task_loads(plan.tasks@)))
            ==> load_unfairness(key_totals(task_loads(plan.tasks@))) == 0,
{
    proof {
        lemma_penalties_nonneg(*plan);
    }
    let balance = balance_workload::evaluate(plan);
    let availability = candidate_availability::evaluate(plan);
    let assigned = complete_candidate::evaluate(plan);
    let started = complete_start::evaluate(plan);
    let completion = minimize_completion::evaluate(plan);
    let gaps = minimize_idle_gaps::evaluate(plan);
    let overlap = no_candidate_overlap::evaluate(plan);
    let skills = required_skills::evaluate(plan);
    let window = task_time_window::evaluate(plan);
    let s = balance.add(availability);
    let s = s.add(assigned);
    let s = s.add(started);
    let s = s.add(completion);
    let s = s.add(gaps);
    let s = s.add(overlap);
    let s = s.add(skills);
    s.add(window)
}

/// A plan's hard score is never positive: every hard constraint only
/// penalizes.
pub proof fn lemma_hard_penalty_nonneg(plan: Plan)
    ensures
        hard_penalty(plan) >= 0,
{
    lemma_penalties_nonneg(plan);
}

/// A plan scores `0hard` exactly when it breaks no hard constraint.
pub proof fn lemma_zero_hard_iff_feasible(plan: Plan)
    ensures
        hard_penalty(plan) == 0 <==> satisfies_hard_constraints(plan),
{
    let tasks = plan.tasks@;
    let facts = plan.candidates@;
    lemma_penalties_nonneg(plan);
    lemma_sum_joined_zero(tasks, facts, availability_weight());
    lemma_sum_tasks_zero(tasks, unassigned_weight());
    lemma_sum_tasks_zero(tasks, unstarted_weight());
    lemma_sum_pairs_zero(tasks, overlap_weight());
    lemma_sum_joined_zero(tasks, facts, skill_weight());
    lemma_sum_tasks_zero(tasks, window_weight());
    if hard_penalty(plan) == 0 {
        assert forall|i: int, k: int|
            0 <= i < tasks.len() && 0 <= k < facts.len() && joins(#[trigger] tasks[i], #[trigger] facts[k])
            implies !hits_unavailable_slot(tasks[i], facts[k]) && !lacks_required_skill(tasks[i], facts[k]) by {
            assert(availability_weight()(tasks[i], facts[k]) == 0);
            assert(skill_weight()(tasks[i], facts[k]) == 0);
        }
        assert forall|i: int, j: int|
            0 <= i < j < tasks.len() && same_candidate(#[trigger] tasks[i], #[trigger] tasks[j])
            implies !overlaps(tasks[i], tasks[j]) by {
            assert(overlap_weight()(tasks[i], tasks[j]) == 0);
        }
        assert forall|i: int| 0 <= i < tasks.len() implies !is_unassigned(#[trigger] tasks[i]) by {
            assert(unassigned_weight()(tasks[i]) == 0);
        }
        assert forall|i: int| 0 <= i < tasks.len() implies !lacks_start(#[trigger] tasks[i]) by {
            assert(unstarted_weight()(tasks[i]) == 0);
        }
        assert forall|i: int| 0 <= i < tasks.len() implies !violates_time_window(#[trigger] tasks[i]) by {
            assert(window_weight()(tasks[i]) == 0);
        }
    }
    if satisfies_hard_constraints(plan) {
        assert forall|i: int, k: int| 0 <= i < tasks.len() && 0 <= k < facts.len()
            implies #[trigger] availability_weight()(tasks[i], facts[k]) == 0 by {
            if joins(tasks[i], facts[k]) {
                assert(!hits_unavailable_slot(tasks[i], facts[k]));
            }
        }
        assert forall|i: int, k: int| 0 <= i < tasks.len() && 0 <= k < facts.len()
            implies #[trigger] skill_weight()(tasks[i], facts[k]) == 0 by {
            if joins(tasks[i], facts[k]) {
                assert(!lacks_required_skill(tasks[i], facts[k]));
            }
        }
        assert forall|i: int, j: int| 0 <= i < j < tasks.len()
            implies #[trigger] overlap_weight()(tasks[i], tasks[j]) == 0 by {
            if same_candidate(tasks[i], tasks[j]) {
                assert(!overlaps(tasks[i], tasks[j]));
            }
        }
        assert forall|i: int| 0 <= i < tasks.len() implies #[trigger] unassigned_weight()(tasks[i]) == 0 by {
            assert(!is_unassigned(tasks[i]));
        }
        assert forall|i: int| 0 <= i < tasks.len() implies #[trigger] unstarted_weight()(tasks[i]) == 0 by {
            assert(!lacks_start(tasks[i]));
        }
        assert forall|i: int| 0 <= i < tasks.len() implies #[trigger] window_weight()(tasks[i]) == 0 by {
            assert(!violates_time_window(tasks[i]));
        }
    }
}

/// A task assigned to a candidate who lacks one of its required skills makes
/// the plan infeasible: the candidate is never silently accepted.
pub proof fn lemma_missing_skill_is_infeasible(plan: Plan, i: int, k: int)
    requires
        0 <= i < plan.tasks@.len(),
        0 <= k < plan.candidates@.len(),
        joins(plan.tasks@[i], plan.candidates@[k]),
        lacks_required_skill(plan.tasks@[i], plan.candidates@[k]),
    ensures
        hard_penalty(plan) > 0,
{
    lemma_zero_hard_iff_feasible(plan);
    lemma_penalties_nonneg(plan);
    assert(!satisfies_hard_constraints(plan)) by {
        assert(joins(plan.tasks@[i], plan.candidates@[k]));
    }
}

proof fn lemma_pair_weights_symmetric()
    ensures
        symmetric(overlap_weight()),
        symmetric(gap_weight()),
{
    assert forall|a: Task, b: Task| #[trigger] overlap_weight()(a, b) == overlap_weight()(b, a) by {
        lemma_overlap_symmetric(a, b);
    }
    assert forall|a: Task, b: Task| #[trigger] gap_weight()(a, b) == gap_weight()(b, a) by {
        lemma_idle_gap_symmetric(a, b);
    }
}

proof fn lemma_joined_permutation(
    a: Seq<Task>,
    b: Seq<Task>,
    facts: Seq<Candidate>,
    w: spec_fn(Task, Candidate) -> int,
)
    requires
        a.to_multiset() == b.to_multiset(),
    ensures
        sum_joined(a, facts, w) == sum_joined(b, facts, w),
{
    lemma_sum_joined_as_tasks(a, facts, w);
    lemma_sum_joined_as_tasks(b, facts, w);
    lemma_sum_tasks_permutation(a, b, |t: Task| sum_facts(t, facts, w));
}

proof fn lemma_penalties_permutation(a: Seq<Task>, b: Seq<Task>, facts: Seq<Candidate>)
    requires
        a.to_multiset() == b.to_multiset(),
    ensures
        tasks_hard_penalty(a, facts) == tasks_hard_penalty(b, facts),
        tasks_soft_penalty(a) == tasks_soft_penalty(b),
        sum_tasks(a, completion_weight()) == sum_tasks(b, completion_weight()),
        sum_pairs(a, gap_weight()) == sum_pairs(b, gap_weight()),
        total_duration(a) == total_duration(b),
        a.len() == b.len(),
{
    broadcast use vstd::seq_lib::group_to_multiset_ensures;
    assert(a.to_multiset().len() == a.len());
    assert(b.to_multiset().len() == b.len());
    lemma_pair_weights_symmetric();
    lemma_joined_permutation(a, b, facts, availability_weight());
    lemma_joined_permutation(a, b, facts, skill_weight());
    lemma_sum_tasks_permutation(a, b, unassigned_weight());
    lemma_sum_tasks_permutation(a, b, unstarted_weight());
    lemma_sum_tasks_permutation(a, b, window_weight());
    lemma_sum_tasks_permutation(a, b, completion_weight());
    lemma_sum_pairs_permutation(a, b, overlap_weight());
    lemma_sum_pairs_permutation(a, b, gap_weight());
    lemma_key_totals_permutation(a, b);
    lemma_total_duration_permutation(a, b);
}

/// The score does not depend on the order of a plan's tasks: two plans with
/// the same candidates and the same tasks, in any order, have the same hard
/// and the same soft penalty, and one is in the scoring range exactly when
/// the other is.
pub proof fn lemma_score_ignores_task_order(plan: Plan, other: Plan)
    requires
        other.candidates@ == plan.candidates@,
        other.tasks@.to_multiset() == plan.tasks@.to_multiset(),
    ensures
        hard_penalty(other) == hard_penalty(plan),
        soft_penalty(other) == soft_penalty(plan),
        score_in_range(other) == score_in_range(plan),
{
    lemma_penalties_permutation(other.tasks@, plan.tasks@, plan.candidates@);
}

/// Two tasks that differ at most in their identifiers.
pub open spec fn same_but_id(a: Task, b: Task) -> bool {
    &&& a.title == b.title
    &&& a.description == b.description
    &&& a.required_skills == b.required_skills
    &&& a.duration_slots == b.duration_slots
    &&& a.earliest_start_slot == b.earliest_start_slot
    &&& a.latest_end_slot == b.latest_end_slot
    &&& a.candidate_idx == b.candidate_idx
    &&& a.start_slot == b.start_slot
}

/// `renamed` holds the tasks of `tasks`, position by position, with their
/// identifiers renamed so that equal identifiers stay equal and distinct ones
/// stay distinct.
pub open spec fn is_id_renaming(tasks: Seq<Task>, renamed: Seq<Task>) -> bool {
    &&& renamed.len() == tasks.len()
    &&& forall|i: int| 0 <= i < tasks.len() ==> same_but_id(#[trigger] tasks[i], renamed[i])
    &&& forall|i: int, j: int|
        0 <= i < tasks.len() && 0 <= j < tasks.len() ==> ((#[trigger] tasks[i]).id@ == (#[trigger] tasks[j]).id@)
            == (renamed[i].id@ == renamed[j].id@)
}

proof fn lemma_penalties_renaming(a: Seq<Task>, b: Seq<Task>, facts: Seq<Candidate>)
    requires
        is_id_renaming(a, b),
    ensures
        tasks_hard_penalty(a, facts) == tasks_hard_penalty(b, facts),
        tasks_soft_penalty(a) == tasks_soft_penalty(b),
        sum_tasks(a, completion_weight()) == sum_tasks(b, completion_weight()),
        sum_pairs(a, gap_weight()) == sum_pairs(b, gap_weight()),
        total_duration(a) == total_duration(b),
        a.len() == b.len(),
{
    assert forall|i: int| 0 <= i < a.len() implies #[trigger] unassigned_weight()(a[i]) == unassigned_weight()(b[i])
        && unstarted_weight()(a[i]) == unstarted_weight()(b[i])
        && window_weight()(a[i]) == window_weight()(b[i])
        && completion_weight()(a[i]) == completion_weight()(b[i]) by {
        assert(same_but_id(a[i], b[i]));
    }
    lemma_sum_tasks_pointwise(a, b, unassigned_weight());
    lemma_sum_tasks_pointwise(a, b, unstarted_weight());
    lemma_sum_tasks_pointwise(a, b, window_weight());
    lemma_sum_tasks_pointwise(a, b, completion_weight());
    assert forall|i: int, j: int| 0 <= i < j < a.len() implies overlap_weight()(#[trigger] a[i], #[trigger] a[j])
        == overlap_weight()(b[i], b[j]) && gap_weight()(a[i], a[j]) == gap_weight()(b[i], b[j]) by {
        assert(same_but_id(a[i], b[i]));
        assert(same_but_id(a[j], b[j]));
        assert((a[i].id@ == a[j].id@) == (b[i].id@ == b[j].id@));
    }
    lemma_sum_pairs_pointwise(a, b, overlap_weight());
    lemma_sum_pairs_pointwise(a, b, gap_weight());
    lemma_sum_joined_as_tasks(a, facts, availability_weight());
    lemma_sum_joined_as_tasks(b, facts, availability_weight());
    lemma_sum_joined_as_tasks(a, facts, skill_weight());
    lemma_sum_joined_as_tasks(b, facts, skill_weight());
    assert forall|i: int| 0 <= i < a.len() implies (|t: Task| sum_facts(t, facts, availability_weight()))(
        #[trigger] a[i],
    ) == (|t: Task| sum_facts(t, facts, availability_weight()))(b[i]) by {
        assert(same_but_id(a[i], b[i]));
        lemma_sum_facts_same_weights(a[i], b[i], facts, availability_weight());
    }
    assert forall|i: int| 0 <= i < a.len() implies (|t: Task| sum_facts(t, facts, skill_weight()))(
        #[trigger] a[i],
    ) == (|t: Task| sum_facts(t, facts, skill_weight()))(b[i]) by {
        assert(same_but_id(a[i], b[i]));
        lemma_sum_facts_same_weights(a[i], b[i], facts, skill_weight());
    }
    lemma_sum_tasks_pointwise_with(
        a,
        b,
        |t: Task| sum_facts(t, facts, availability_weight()),
        |t: Task| sum_facts(t, facts, availability_weight()),
    );
    lemma_sum_tasks_pointwise_with(
        a,
        b,
        |t: Task| sum_facts(t, facts, skill_weight()),
        |t: Task| sum_facts(t, facts, skill_weight()),
    );
    assert forall|i: int| 0 <= i < a.len() implies (#[trigger] a[i]).candidate_idx == b[i].candidate_idx
        && a[i].duration_slots == b[i].duration_slots by {
        assert(same_but_id(a[i], b[i]));
    }
    lemma_task_loads_pointwise(a, b);
}

/// The score does not depend on the tasks' identifiers, only on which tasks
/// share one: renaming the tasks so that equal identifiers stay equal and
/// distinct ones stay distinct keeps both penalties and the scoring range.
pub proof fn lemma_score_ignores_task_ids(plan: Plan, other: Plan)
    requires
        other.candidates@ == plan.candidates@,
        is_id_renaming(plan.tasks@, other.tasks@),
    ensures
        hard_penalty(other) == hard_penalty(plan),
        soft_penalty(other) == soft_penalty(plan),
        score_in_range(other) == score_in_range(plan),
{
    lemma_penalties_renaming(plan.tasks@, other.tasks@, plan.candidates@);
}

/// The score ignores both the order and the identifiers of a plan's tasks:
/// a plan with the same candidates whose tasks are those of `plan`, renamed
/// so that equal identifiers stay equal and distinct ones distinct (as
/// `renamed`) and then put in any order, has the same hard and soft
/// penalties, and is in the scoring range exactly when `plan` is; so
/// `evaluate_all` gives both plans the same score.
pub proof fn lemma_score_ignores_task_order_and_ids(plan: Plan, renamed: Seq<Task>, other: Plan)
    requires
        other.candidates@ == plan.candidates@,
        is_id_renaming(plan.tasks@, renamed),
        other.tasks@.to_multiset() == renamed.to_multiset(),
    ensures
        hard_penalty(other) == hard_penalty(plan),
        soft_penalty(other) == soft_penalty(plan),
        score_in_range(other) == score_in_range(plan),
{
    lemma_penalties_renaming(plan.tasks@, renamed, plan.candidates@);
    lemma_penalties_permutation(other.tasks@, renamed, plan.candidates@);
}

} // verus!
