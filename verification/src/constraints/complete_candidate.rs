use vstd::prelude::*;

use crate::constraints::sums::{lemma_take_step, sum_tasks};
use crate::domain::{Plan, Task};
use crate::score::HardSoftScore;

verus! {

/// HARD: every task must be assigned to a discovered candidate.
pub open spec fn is_unassigned(task: Task) -> bool {
    task.candidate_idx is None
}

/// One hard point per task without a candidate.
pub open spec fn unassigned_weight() -> spec_fn(Task) -> int {
    |t: Task| if is_unassigned(t) { 1int } else { 0int }
}

pub fn unary_condition(entity: &Task) -> (b: bool)
    ensures
        b == is_unassigned(*entity),
{
    entity.candidate_idx.is_none()
}

pub fn unary_weight(entity: &Task) -> (s: HardSoftScore)
    ensures
        s.hard == unassigned_weight()(*entity),
        s.soft == 0,
{
    if unary_condition(entity) {
        HardSoftScore::one_hard()
    } else {
        HardSoftScore::zero()
    }
}

/// The constraint's contribution to a plan's score.
pub fn evaluate(plan: &Plan) -> (s: HardSoftScore)
    requires
        plan.tasks@.len() <= i64::MAX,
    ensures
        s.hard == -sum_tasks(plan.tasks@, unassigned_weight()),
        s.soft == 0,
{
    let n = plan.tasks.len();
    let mut total: i64 = 0;
    let mut i: usize = 0;
    while i < n
        invariant
            n == plan.tasks@.len(),
            n <= i64::MAX,
            i <= n,
            total == sum_tasks(plan.tasks@.take(i as int), unassigned_weight()),
            0 <= total <= i,
        decreases n - i,
    {
        proof {
            lemma_take_step(plan.tasks@, i as int);
        }
        let w = unary_weight(&plan.tasks[i]);
        total = total + w.hard;
        i = i + 1;
    }
    proof {
        assert(plan.tasks@.take(n as int) =~= plan.tasks@);
    }
    HardSoftScore::of_hard(-total)
}

} // verus!
