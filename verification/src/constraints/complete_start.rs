use vstd::prelude::*;

use crate::constraints::sums::{lemma_take_step, sum_tasks};
use crate::domain::{Plan, Task};
use crate::score::HardSoftScore;

verus! {

/// HARD: every task must receive a start slot.
pub open spec fn lacks_start(task: Task) -> bool {
    task.start_slot is None
}

/// One hard point per task without a start slot.
pub open spec fn unstarted_weight() -> spec_fn(Task) -> int {
    |t: Task| if lacks_start(t) { 1int } else { 0int }
}

pub fn unary_condition(entity: &Task) -> (b: bool)
    ensures
        b == lacks_start(*entity),
{
    entity.start_slot.is_none()
}

pub fn unary_weight(entity: &Task) -> (s: HardSoftScore)
    ensures
        s.hard == unstarted_weight()(*entity),
        s.soft == 0,
{
    if unary_condition(entity) {
        HardSoftScore::one_hard()
    } else {
        HardSoftScore::zero()
    }
}

/// The constraint's contribution to a plan's score.
pub fn evaluate(plan: &Plan) -> (s: HardSoftScore)
    requires
        plan.tasks@.len() <= i64::MAX,
    ensures
        s.hard == -sum_tasks(plan.tasks@, unstarted_weight()),
        s.soft == 0,
{
    let n = plan.tasks.len();
    let mut total: i64 = 0;
    let mut i: usize = 0;
    while i < n
        invariant
            n == plan.tasks@.len(),
            n <= i64::MAX,
            i <= n,
            total == sum_tasks(plan.tasks@.take(i as int), unstarted_weight()),
            0 <= total <= i,
        decreases n - i,
    {
        proof {
            lemma_take_step(plan.tasks@, i as int);
        }
        let w = unary_weight(&plan.tasks[i]);
        total = total + w.hard;
        i = i + 1;
    }
    proof {
        assert(plan.tasks@.take(n as int) =~= plan.tasks@);
    }
    HardSoftScore::of_hard(-total)
}

} // verus!
