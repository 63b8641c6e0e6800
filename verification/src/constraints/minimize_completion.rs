use vstd::prelude::*;

use crate::constraints::sums::{
    lemma_sum_tasks_nonneg, lemma_sum_tasks_prefix, lemma_take_step, sum_tasks,
};
use crate::domain::{Plan, Task};
use crate::score::HardSoftScore;

verus! {

/// SOFT: finish the task set as early as possible. Each task costs its end
/// slot; a task without an end slot costs nothing.
pub open spec fn completion_slot(task: Task) -> int {
    match task.spec_end_slot() {
        Some(end) => end as int,
        None => 0,
    }
}

pub open spec fn completion_weight() -> spec_fn(Task) -> int {
    |t: Task| completion_slot(t)
}

/// The weight as the score type holds it: the end slot cast to `i64`.
pub fn unary_weight(entity: &Task) -> (s: HardSoftScore)
    ensures
        s.hard == 0,
        s.soft == (match entity.spec_end_slot() {
            Some(end) => end,
            None => 0usize,
        }) as i64,
{
    let end = match entity.end_slot() {
        Some(end) => end,
        None => 0,
    };
    HardSoftScore::of_soft(end as i64)
}

/// The constraint's contribution to a plan's score.
pub fn evaluate(plan: &Plan) -> (s: HardSoftScore)
    requires
        sum_tasks(plan.tasks@, completion_weight()) <= i64::MAX,
    ensures
        s.hard == 0,
        s.soft == -sum_tasks(plan.tasks@, completion_weight()),
{
    let n = plan.tasks.len();
    let ghost tasks = plan.tasks@;
    let ghost w = completion_weight();
    proof {
        lemma_sum_tasks_nonneg(tasks, w);
    }
    let mut total: i64 = 0;
    let mut i: usize = 0;
    while i < n
        invariant
            n == tasks.len(),
            tasks == plan.tasks@,
            w == completion_weight(),
            forall|t: Task| #[trigger] w(t) >= 0,
            forall|k: int| 0 <= k < tasks.len() ==> w(#[trigger] tasks[k]) <= sum_tasks(tasks, w),
            sum_tasks(tasks, w) <= i64::MAX,
            i <= n,
            total == sum_tasks(tasks.take(i as int), w),
        decreases n - i,
    {
        proof {
            lemma_take_step(tasks, i as int);
            lemma_sum_tasks_prefix(tasks, w, i as int + 1);
            lemma_sum_tasks_nonneg(tasks.take(i as int), w);
        }
        let weight = unary_weight(&plan.tasks[i]);
        assert(weight.soft == w(tasks[i as int]));
        total = total + weight.soft;
        i = i + 1;
    }
    proof {
        assert(tasks.take(n as int) =~= tasks);
    }
    HardSoftScore::of_soft(-total)
}

/// A started task costs its end slot, its start plus its duration counted
/// from the horizon's first slot; an unstarted task costs nothing.
pub proof fn lemma_completion_cost_is_end_slot(task: Task)
    requires
        task.start_slot matches Some(start) ==> start + task.duration_slots <= usize::MAX,
    ensures
        completion_weight()(task) == match task.start_slot {
            Some(start) => start + task.duration_slots,
            None => 0,
        },
{
}

/// Starting a task `k` slots later costs exactly `k` more.
pub proof fn lemma_later_start_costs_more(task: Task, later: Task, start: usize, k: usize)
    requires
        task.start_slot == Some(start),
        later.start_slot == Some((start + k) as usize),
        later.duration_slots == task.duration_slots,
        start + k + task.duration_slots <= usize::MAX,
    ensures
        completion_weight()(later) == completion_weight()(task) + k,
{
}

} // verus!
