use vstd::prelude::*;

use crate::constraints::no_candidate_overlap::{candidate_idx_join_key, same_candidate, same_join_key};
use crate::constraints::sums::{
    lemma_sum_pairs_nonneg, lemma_sum_pairs_prefix, lemma_sum_pairs_two, lemma_sum_with_nonneg,
    lemma_sum_with_prefix, lemma_take_step, sum_pairs, sum_with,
};
use crate::domain::{Plan, Task, SLOTS_PER_DAY};
use crate::score::HardSoftScore;

verus! {

/// `a - b`, or zero when `b` is larger.
pub open spec fn saturating_diff(a: usize, b: usize) -> usize {
    if a >= b { (a - b) as usize } else { 0 }
}

/// SOFT: the idle slots between two tasks that start on the same day; zero
/// when either task lacks a start or end slot or they start on different days.
pub open spec fn idle_gap(left: Task, right: Task) -> usize {
    match (left.start_slot, left.spec_end_slot(), right.start_slot, right.spec_end_slot()) {
        (Some(ls), Some(le), Some(rs), Some(re)) => if ls / SLOTS_PER_DAY == rs / SLOTS_PER_DAY {
            if le <= rs {
                saturating_diff(rs, le)
            } else {
                saturating_diff(ls, re)
            }
        } else {
            0
        },
        _ => 0,
    }
}

/// The gap of each pair of same-candidate tasks, in slots.
pub open spec fn gap_weight() -> spec_fn(Task, Task) -> int {
    |a: Task, b: Task| if same_candidate(a, b) { idle_gap(a, b) as int } else { 0int }
}

/// The weight as the score type holds it: the gap cast to `i64`.
pub fn pair_weight(left: &Task, right: &Task) -> (s: HardSoftScore)
    ensures
        s.hard == 0,
        s.soft == idle_gap(*left, *right) as i64,
{
    let gap: usize = match (left.start_slot, left.end_slot(), right.start_slot, right.end_slot()) {
        (Some(ls), Some(le), Some(rs), Some(re)) => {
            if ls / SLOTS_PER_DAY == rs / SLOTS_PER_DAY {
                if le <= rs {
                    rs.saturating_sub(le)
                } else {
                    ls.saturating_sub(re)
                }
            } else {
                0
            }
        },
        _ => 0,
    };
    HardSoftScore::of_soft(gap as i64)
}

/// The constraint's contribution to a plan's score: every unordered pair of
/// same-candidate tasks is considered once.
pub fn evaluate(plan: &Plan) -> (s: HardSoftScore)
    requires
        sum_pairs(plan.tasks@, gap_weight()) <= i64::MAX,
    ensures
        s.hard == 0,
        s.soft == -sum_pairs(plan.tasks@, gap_weight()),
{
    let n = plan.tasks.len();
    let ghost tasks = plan.tasks@;
    let ghost w = gap_weight();
    let mut total: i64 = 0;
    let mut j: usize = 0;
    while j < n
        invariant
            n == tasks.len(),
            tasks == plan.tasks@,
            w == gap_weight(),
            sum_pairs(tasks, w) <= i64::MAX,
            j <= n,
            total == sum_pairs(tasks.take(j as int), w),
        decreases n - j,
    {
        proof {
            lemma_take_step(tasks, j as int);
            lemma_sum_pairs_prefix(tasks, w, j as int + 1);
            lemma_sum_with_nonneg(tasks.take(j as int), tasks[j as int], w);
        }
        let mut i: usize = 0;
        while i < j
            invariant
                n == tasks.len(),
                tasks == plan.tasks@,
                w == gap_weight(),
                i <= j < n,
                sum_pairs(tasks.take(j as int + 1), w) <= i64::MAX,
                tasks.take(j as int + 1).drop_last() == tasks.take(j as int),
                tasks.take(j as int + 1).last() == tasks[j as int],
                forall|k: int|
                    0 <= k < j ==> w(#[trigger] tasks.take(j as int)[k], tasks[j as int])
                        <= sum_with(tasks.take(j as int), tasks[j as int], w),
                total == sum_pairs(tasks.take(j as int), w) + sum_with(
                    tasks.take(i as int),
                    tasks[j as int],
                    w,
                ),
            decreases j - i,
        {
            proof {
                lemma_take_step(tasks, i as int);
                assert(tasks.take(j as int).take(i as int + 1) =~= tasks.take(i as int + 1));
                lemma_sum_with_prefix(tasks.take(j as int), tasks[j as int], w, i as int + 1);
                lemma_sum_pairs_nonneg(tasks.take(j as int), w);
                lemma_sum_with_nonneg(tasks.take(i as int), tasks[j as int], w);
                assert(tasks.take(j as int)[i as int] == tasks[i as int]);
            }
            if same_join_key(
                candidate_idx_join_key(&plan.tasks[i]),
                candidate_idx_join_key(&plan.tasks[j]),
            ) {
                let weight = pair_weight(&plan.tasks[i], &plan.tasks[j]);
                total = total + weight.soft;
            }
            i = i + 1;
        }
        j = j + 1;
    }
    proof {
        assert(tasks.take(n as int) =~= tasks);
        lemma_sum_pairs_nonneg(tasks, w);
    }
    HardSoftScore::of_soft(-total)
}

/// The idle gap between two tasks does not depend on which is called left.
pub proof fn lemma_idle_gap_symmetric(a: Task, b: Task)
    ensures
        idle_gap(a, b) == idle_gap(b, a),
        gap_weight()(a, b) == gap_weight()(b, a),
{
}

/// For two tasks, the idle gap is counted once and the same whichever of
/// them comes first in the plan.
pub proof fn lemma_gap_total_ignores_order(a: Task, b: Task)
    ensures
        sum_pairs(seq![a, b], gap_weight()) == sum_pairs(seq![b, a], gap_weight()),
        sum_pairs(seq![a, b], gap_weight()) == gap_weight()(a, b),
{
    lemma_sum_pairs_two(a, b, gap_weight());
    lemma_sum_pairs_two(b, a, gap_weight());
    lemma_idle_gap_symmetric(a, b);
}

/// Tasks that start on different workdays leave no idle gap between them.
pub proof fn lemma_different_days_have_no_gap(a: Task, b: Task, sa: usize, sb: usize)
    requires
        a.start_slot == Some(sa),
        b.start_slot == Some(sb),
        sa / 18 != sb / 18,
    ensures
        gap_weight()(a, b) == 0,
{
}

/// Two tasks of one candidate on the same workday, the first ending before
/// the second starts, cost the idle slots between them.
pub proof fn lemma_same_day_gap_is_the_idle_slots(a: Task, b: Task, sa: usize, sb: usize)
    requires
        a.candidate_idx == b.candidate_idx,
        a.start_slot == Some(sa),
        b.start_slot == Some(sb),
        sa + a.duration_slots <= sb,
        sb + b.duration_slots <= usize::MAX,
        sa / 18 == sb / 18,
    ensures
        gap_weight()(a, b) == sb - (sa + a.duration_slots),
        gap_weight()(b, a) == sb - (sa + a.duration_slots),
{
}

/// Tasks of different candidates never cost an idle gap.
pub proof fn lemma_gap_needs_one_candidate(a: Task, b: Task)
    requires
        a.candidate_idx != b.candidate_idx,
    ensures
        gap_weight()(a, b) == 0,
{
}

} // verus!
