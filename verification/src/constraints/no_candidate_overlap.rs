use vstd::prelude::*;

use crate::constraints::sums::{
    lemma_sum_pairs_nonneg, lemma_sum_pairs_prefix, lemma_sum_pairs_two, lemma_sum_with_nonneg,
    lemma_sum_with_prefix, lemma_take_step, sum_pairs, sum_with,
};
use crate::domain::{Plan, Task};
use crate::score::HardSoftScore;

verus! {

/// Tasks are joined when they name the same candidate (both `None` included).
pub open spec fn same_candidate(left: Task, right: Task) -> bool {
    left.candidate_idx == right.candidate_idx
}

/// HARD: one candidate cannot execute overlapping tasks. Two distinct tasks
/// (by id) overlap when both have start and end slots and their half-open
/// slot ranges intersect.
pub open spec fn overlaps(left: Task, right: Task) -> bool {
    left.id@ != right.id@ && match (
        left.start_slot,
        left.spec_end_slot(),
        right.start_slot,
        right.spec_end_slot(),
    ) {
        (Some(left_start), Some(left_end), Some(right_start), Some(right_end)) => left_start
            < right_end && right_start < left_end,
        _ => false,
    }
}

/// One hard point per pair of same-candidate tasks that overlap.
pub open spec fn overlap_weight() -> spec_fn(Task, Task) -> int {
    |a: Task, b: Task| if same_candidate(a, b) && overlaps(a, b) { 1int } else { 0int }
}

pub fn candidate_idx_join_key(entity: &Task) -> (key: Option<usize>)
    ensures
        key == entity.candidate_idx,
{
    entity.candidate_idx
}

pub fn same_join_key(left: Option<usize>, right: Option<usize>) -> (b: bool)
    ensures
        b == (left == right),
{
    match (left, right) {
        (Some(a), Some(b)) => a == b,
        (None, None) => true,
        _ => false,
    }
}

pub fn pair_condition(left: &Task, right: &Task) -> (b: bool)
    ensures
        b == overlaps(*left, *right),
{
    if left.id == right.id {
        return false;
    }
    match (left.start_slot, left.end_slot(), right.start_slot, right.end_slot()) {
        (Some(left_start), Some(left_end), Some(right_start), Some(right_end)) => {
            left_start < right_end && right_start < left_end
        },
        _ => false,
    }
}

pub fn pair_weight(left: &Task, right: &Task) -> (s: HardSoftScore)
    ensures
        s.hard == (if overlaps(*left, *right) { 1int } else { 0int }),
        s.soft == 0,
{
    if pair_condition(left, right) {
        HardSoftScore::one_hard()
    } else {
        HardSoftScore::zero()
    }
}

/// The constraint's contribution to a plan's score: every unordered pair of
/// tasks is considered once, the earlier task in the plan on the left.
pub fn evaluate(plan: &Plan) -> (s: HardSoftScore)
    requires
        sum_pairs(plan.tasks@, overlap_weight()) <= i64::MAX,
    ensures
        s.hard == -sum_pairs(plan.tasks@, overlap_weight()),
        s.soft == 0,
{
    let n = plan.tasks.len();
    let ghost tasks = plan.tasks@;
    let ghost w = overlap_weight();
    let mut total: i64 = 0;
    let mut j: usize = 0;
    while j < n
        invariant
            n == tasks.len(),
            tasks == plan.tasks@,
            w == overlap_weight(),
            sum_pairs(tasks, w) <= i64::MAX,
            j <= n,
            total == sum_pairs(tasks.take(j as int), w),
        decreases n - j,
    {
        proof {
            lemma_take_step(tasks, j as int);
            lemma_sum_pairs_prefix(tasks, w, j as int + 1);
        }
        let mut i: usize = 0;
        while i < j
            invariant
                n == tasks.len(),
                tasks == plan.tasks@,
                w == overlap_weight(),
                i <= j < n,
                sum_pairs(tasks.take(j as int + 1), w) <= i64::MAX,
                tasks.take(j as int + 1).drop_last() == tasks.take(j as int),
                tasks.take(j as int + 1).last() == tasks[j as int],
                total == sum_pairs(tasks.take(j as int), w) + sum_with(
                    tasks.take(i as int),
                    tasks[j as int],
                    w,
                ),
            decreases j - i,
        {
            proof {
                lemma_take_step(tasks, i as int);
                assert(tasks.take(j as int).take(i as int + 1) =~= tasks.take(i as int + 1));
                lemma_sum_with_prefix(tasks.take(j as int), tasks[j as int], w, i as int + 1);
                lemma_sum_pairs_nonneg(tasks.take(j as int), w);
                lemma_sum_with_nonneg(tasks.take(i as int), tasks[j as int], w);
            }
            if same_join_key(
                candidate_idx_join_key(&plan.tasks[i]),
                candidate_idx_join_key(&plan.tasks[j]),
            ) {
                let weight = pair_weight(&plan.tasks[i], &plan.tasks[j]);
                total = total + weight.hard;
            }
            i = i + 1;
        }
        proof {
            assert(tasks.take(j as int) =~= tasks.take(j as int).take(j as int));
        }
        j = j + 1;
    }
    proof {
        assert(tasks.take(n as int) =~= tasks);
        lemma_sum_pairs_nonneg(tasks, w);
    }
    HardSoftScore::of_hard(-total)
}

/// Overlap does not depend on which of the two tasks is called left.
pub proof fn lemma_overlap_symmetric(a: Task, b: Task)
    ensures
        overlaps(a, b) == overlaps(b, a),
        overlap_weight()(a, b) == overlap_weight()(b, a),
{
}

/// For two tasks, the number of overlap violations is the same whichever of
/// them comes first in the plan.
pub proof fn lemma_overlap_count_ignores_order(a: Task, b: Task)
    ensures
        sum_pairs(seq![a, b], overlap_weight()) == sum_pairs(seq![b, a], overlap_weight()),
{
    lemma_sum_pairs_two(a, b, overlap_weight());
    lemma_sum_pairs_two(b, a, overlap_weight());
    lemma_overlap_symmetric(a, b);
}

/// A task started at `start` for `duration` slots occupies `slot`.
pub open spec fn occupies(start: int, duration: int, slot: int) -> bool {
    start <= slot < start + duration
}

/// Two tasks of one candidate with distinct ids that occupy a common slot,
/// their occupied slots being `start .. start + duration`, cost one hard
/// point, however their ranges lie (identical and nested ones included).
pub proof fn lemma_shared_slot_is_overlap(a: Task, b: Task, sa: usize, sb: usize, slot: int)
    requires
        a.candidate_idx == b.candidate_idx,
        a.id@ != b.id@,
        a.start_slot == Some(sa),
        b.start_slot == Some(sb),
        sa + a.duration_slots <= usize::MAX,
        sb + b.duration_slots <= usize::MAX,
        occupies(sa as int, a.duration_slots as int, slot),
        occupies(sb as int, b.duration_slots as int, slot),
    ensures
        overlap_weight()(a, b) == 1,
{
}

/// Two started tasks of at least one slot each that occupy no common slot
/// never cost an overlap point.
pub proof fn lemma_disjoint_slots_never_overlap(a: Task, b: Task, sa: usize, sb: usize)
    requires
        a.duration_slots >= 1,
        b.duration_slots >= 1,
        a.start_slot == Some(sa),
        b.start_slot == Some(sb),
        sa + a.duration_slots <= usize::MAX,
        sb + b.duration_slots <= usize::MAX,
        forall|slot: int|
            !(#[trigger] occupies(sa as int, a.duration_slots as int, slot) && occupies(
                sb as int,
                b.duration_slots as int,
                slot,
            )),
    ensures
        overlap_weight()(a, b) == 0,
{
    if sa < sb + b.duration_slots && sb < sa + a.duration_slots {
        let slot = if sa <= sb { sb as int } else { sa as int };
        assert(occupies(sa as int, a.duration_slots as int, slot) && occupies(sb as int, b.duration_slots as int, slot));
    }
}

/// Tasks of different candidates, or two entries with the same id, never
/// cost an overlap point.
pub proof fn lemma_overlap_needs_one_candidate_and_two_ids(a: Task, b: Task)
    requires
        a.candidate_idx != b.candidate_idx || a.id@ == b.id@,
    ensures
        overlap_weight()(a, b) == 0,
{
}

} // verus!
