use vstd::prelude::*;

use crate::constraints::no_candidate_overlap::same_join_key;
use crate::constraints::sums::{
    lemma_sum_facts_nonneg, lemma_sum_facts_prefix, lemma_sum_joined_nonneg,
    lemma_sum_joined_prefix, lemma_take_step, sum_facts, sum_joined,
};
use crate::domain::{Candidate, Plan, Task};
use crate::score::HardSoftScore;

verus! {

/// A task is joined with every candidate whose index it names.
pub open spec fn joins(task: Task, fact: Candidate) -> bool {
    task.candidate_idx == Some(fact.index)
}

/// A slot is available when the candidate's availability lists it as `true`;
/// slots past the end of the list are unavailable.
pub open spec fn slot_available(fact: Candidate, slot: int) -> bool {
    0 <= slot < fact.availability@.len() && fact.availability@[slot]
}

/// HARD: every occupied slot must be available for the assignee. A started
/// task whose end slot overflows always violates.
pub open spec fn hits_unavailable_slot(task: Task, fact: Candidate) -> bool {
    match task.start_slot {
        None => false,
        Some(start) => match task.spec_end_slot() {
            None => true,
            Some(end) => exists|slot: int| start <= slot < end && !#[trigger] slot_available(fact, slot),
        },
    }
}

/// One hard point per (task, joined candidate) with an unavailable slot.
pub open spec fn availability_weight() -> spec_fn(Task, Candidate) -> int {
    |t: Task, c: Candidate| if joins(t, c) && hits_unavailable_slot(t, c) { 1int } else { 0int }
}

pub fn entity_join_key(entity: &Task) -> (key: Option<usize>)
    ensures
        key == entity.candidate_idx,
{
    entity.candidate_idx
}

pub fn fact_join_key(fact: &Candidate) -> (key: Option<usize>)
    ensures
        key == Some(fact.index),
{
    Some(fact.index)
}

pub fn join_condition(entity: &Task, fact: &Candidate) -> (b: bool)
    ensures
        b == hits_unavailable_slot(*entity, *fact),
{
    let start = match entity.start_slot {
        Some(start) => start,
        None => return false,
    };
    let end = match entity.end_slot() {
        Some(end) => end,
        None => return true,
    };
    let mut slot = start;
    while slot < end
        invariant
            start <= slot,
            entity.start_slot == Some(start),
            entity.spec_end_slot() == Some(end),
            forall|s: int| start <= s < slot ==> #[trigger] slot_available(*fact, s),
        decreases end - slot,
    {
        let available = slot < fact.availability.len() && fact.availability[slot];
        if !available {
            assert(!slot_available(*fact, slot as int));
            return true;
        }
        slot = slot + 1;
    }
    false
}

pub fn join_weight(entity: &Task, fact: &Candidate) -> (s: HardSoftScore)
    ensures
        s.hard == (if hits_unavailable_slot(*entity, *fact) { 1int } else { 0int }),
        s.soft == 0,
{
    if join_condition(entity, fact) {
        HardSoftScore::one_hard()
    } else {
        HardSoftScore::zero()
    }
}

/// The constraint's contribution to a plan's score.
pub fn evaluate(plan: &Plan) -> (s: HardSoftScore)
    requires
        sum_joined(plan.tasks@, plan.candidates@, availability_weight()) <= i64::MAX,
    ensures
        s.hard == -sum_joined(plan.tasks@, plan.candidates@, availability_weight()),
        s.soft == 0,
{
    let n = plan.tasks.len();
    let m = plan.candidates.len();
    let ghost tasks = plan.tasks@;
    let ghost facts = plan.candidates@;
    let ghost w = availability_weight();
    let mut total: i64 = 0;
    let mut i: usize = 0;
    while i < n
        invariant
            n == tasks.len(),
            m == facts.len(),
            tasks == plan.tasks@,
            facts == plan.candidates@,
            w == availability_weight(),
            sum_joined(tasks, facts, w) <= i64::MAX,
            i <= n,
            total == sum_joined(tasks.take(i as int), facts, w),
        decreases n - i,
    {
        proof {
            lemma_take_step(tasks, i as int);
            lemma_sum_joined_prefix(tasks, facts, w, i as int + 1);
            lemma_sum_joined_nonneg(tasks.take(i as int), facts, w);
        }
        let mut k: usize = 0;
        while k < m
            invariant
                n == tasks.len(),
                m == facts.len(),
                tasks == plan.tasks@,
                facts == plan.candidates@,
                w == availability_weight(),
                i < n,
                k <= m,
                sum_joined(tasks.take(i as int + 1), facts, w) <= i64::MAX,
                tasks.take(i as int + 1).drop_last() == tasks.take(i as int),
                tasks.take(i as int + 1).last() == tasks[i as int],
                sum_joined(tasks.take(i as int), facts, w) >= 0,
                total == sum_joined(tasks.take(i as int), facts, w) + sum_facts(
                    tasks[i as int],
                    facts.take(k as int),
                    w,
                ),
            decreases m - k,
        {
            proof {
                assert(facts.take(k as int + 1).drop_last() =~= facts.take(k as int));
                assert(facts.take(k as int + 1).last() == facts[k as int]);
                lemma_sum_facts_prefix(tasks[i as int], facts, w, k as int + 1);
                lemma_sum_facts_nonneg(tasks[i as int], facts.take(k as int), w);
            }
            if same_join_key(entity_join_key(&plan.tasks[i]), fact_join_key(&plan.candidates[k])) {
                let weight = join_weight(&plan.tasks[i], &plan.candidates[k]);
                total = total + weight.hard;
            }
            k = k + 1;
        }
        proof {
            assert(facts.take(m as int) =~= facts);
        }
        i = i + 1;
    }
    proof {
        assert(tasks.take(n as int) =~= tasks);
        lemma_sum_joined_nonneg(tasks, facts, w);
    }
    HardSoftScore::of_hard(-total)
}

} // verus!
