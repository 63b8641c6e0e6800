use vstd::prelude::*;

use crate::constraints::sums::{lemma_take_step, sum_tasks};
use crate::domain::{Plan, Task, SLOTS_PER_DAY};
use crate::score::HardSoftScore;

verus! {

/// HARD: a started task must fit its allowed window and a single workday.
/// A task whose end slot overflows always violates; an unstarted task never does.
pub open spec fn violates_time_window(task: Task) -> bool {
    match task.start_slot {
        None => false,
        Some(start) => match task.spec_end_slot() {
            None => true,
            Some(end) => {
                ||| start < task.earliest_start_slot
                ||| end > task.latest_end_slot
                ||| start / SLOTS_PER_DAY != (if end == 0 { 0 } else { (end - 1) as usize }) / SLOTS_PER_DAY
            },
        },
    }
}

pub open spec fn window_weight() -> spec_fn(Task) -> int {
    |t: Task| if violates_time_window(t) { 1int } else { 0int }
}

pub fn unary_condition(entity: &Task) -> (b: bool)
    ensures
        b == violates_time_window(*entity),
{
    let start = match entity.start_slot {
        Some(start) => start,
        None => return false,
    };
    let end = match entity.end_slot() {
        Some(end) => end,
        None => return true,
    };
    start < entity.earliest_start_slot || end > entity.latest_end_slot || start / SLOTS_PER_DAY
        != end.saturating_sub(1) / SLOTS_PER_DAY
}

pub fn unary_weight(entity: &Task) -> (s: HardSoftScore)
    ensures
        s.hard == window_weight()(*entity),
        s.soft == 0,
{
    if unary_condition(entity) {
        HardSoftScore::one_hard()
    } else {
        HardSoftScore::zero()
    }
}

/// The constraint's contribution to a plan's score.
pub fn evaluate(plan: &Plan) -> (s: HardSoftScore)
    requires
        plan.tasks@.len() <= i64::MAX,
    ensures
        s.hard == -sum_tasks(plan.tasks@, window_weight()),
        s.soft == 0,
{
    let n = plan.tasks.len();
    let mut total: i64 = 0;
    let mut i: usize = 0;
    while i < n
        invariant
            n == plan.tasks@.len(),
            n <= i64::MAX,
            i <= n,
            total == sum_tasks(plan.tasks@.take(i as int), window_weight()),
            0 <= total <= i,
        decreases n - i,
    {
        proof {
            lemma_take_step(plan.tasks@, i as int);
        }
        let w = unary_weight(&plan.tasks[i]);
        total = total + w.hard;
        i = i + 1;
    }
    proof {
        assert(plan.tasks@.take(n as int) =~= plan.tasks@);
    }
    HardSoftScore::of_hard(-total)
}

/// A started task whose end, its start plus its duration, lies past its
/// latest end slot breaks its window, whatever its start.
pub proof fn lemma_late_end_breaks_window(task: Task, start: usize)
    requires
        task.start_slot == Some(start),
        start + task.duration_slots > task.latest_end_slot,
    ensures
        window_weight()(task) == 1,
{
}

/// A task started before its earliest start slot breaks its window.
pub proof fn lemma_early_start_breaks_window(task: Task, start: usize)
    requires
        task.start_slot == Some(start),
        start < task.earliest_start_slot,
    ensures
        window_weight()(task) == 1,
{
}

/// A started task whose first and last occupied slots fall on different
/// workdays breaks its window.
pub proof fn lemma_task_across_days_breaks_window(task: Task, start: usize)
    requires
        task.start_slot == Some(start),
        task.duration_slots >= 1,
        start / 18 != (start + task.duration_slots - 1) / 18,
    ensures
        window_weight()(task) == 1,
{
}

/// A started task inside its window, within one workday, costs nothing; an
/// unstarted task never does.
pub proof fn lemma_window_fit_costs_nothing(task: Task)
    requires
        task.start_slot matches Some(start) ==> {
            &&& task.duration_slots >= 1
            &&& task.earliest_start_slot <= start
            &&& start + task.duration_slots <= task.latest_end_slot
            &&& start / 18 == (start + task.duration_slots - 1) / 18
        },
    ensures
        window_weight()(task) == 0,
{
}

} // verus!
