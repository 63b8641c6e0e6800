use vstd::prelude::*;

use crate::constraints::candidate_availability::{entity_join_key, fact_join_key, joins};
use crate::constraints::no_candidate_overlap::same_join_key;
use crate::constraints::sums::{
    lemma_sum_facts_nonneg, lemma_sum_facts_prefix, lemma_sum_joined_nonneg,
    lemma_sum_joined_prefix, lemma_take_step, sum_facts, sum_joined,
};
use crate::domain::{Candidate, Plan, Task};
use crate::score::HardSoftScore;

verus! {

/// The candidate was judged qualified for `skill`.
pub open spec fn holds_skill(fact: Candidate, skill: Seq<char>) -> bool {
    exists|j: int| 0 <= j < fact.qualified_skills@.len() && (#[trigger] fact.qualified_skills@[j])@ == skill
}

/// HARD: the assignee holds every skill the task requires. Violated when at
/// least one required skill is missing from the candidate's qualified skills.
pub open spec fn lacks_required_skill(task: Task, fact: Candidate) -> bool {
    exists|i: int|
        0 <= i < task.required_skills@.len() && !holds_skill(fact, (#[trigger] task.required_skills@[i])@)
}

/// One hard point per (task, joined candidate) missing a required skill.
pub open spec fn skill_weight() -> spec_fn(Task, Candidate) -> int {
    |t: Task, c: Candidate| if joins(t, c) && lacks_required_skill(t, c) { 1int } else { 0int }
}

pub fn has_skill(fact: &Candidate, skill: &String) -> (b: bool)
    ensures
        b == holds_skill(*fact, skill@),
{
    let mut j: usize = 0;
    while j < fact.qualified_skills.len()
        invariant
            j <= fact.qualified_skills@.len(),
            forall|k: int| 0 <= k < j ==> (#[trigger] fact.qualified_skills@[k])@ != skill@,
        decreases fact.qualified_skills@.len() - j,
    {
        if fact.qualified_skills[j] == *skill {
            return true;
        }
        j = j + 1;
    }
    false
}

pub fn join_condition(entity: &Task, fact: &Candidate) -> (b: bool)
    ensures
        b == lacks_required_skill(*entity, *fact),
{
    let mut i: usize = 0;
    while i < entity.required_skills.len()
        invariant
            i <= entity.required_skills@.len(),
            forall|k: int| 0 <= k < i ==> holds_skill(*fact, (#[trigger] entity.required_skills@[k])@),
        decreases entity.required_skills@.len() - i,
    {
        if !has_skill(fact, &entity.required_skills[i]) {
            return true;
        }
        i = i + 1;
    }
    false
}

pub fn join_weight(entity: &Task, fact: &Candidate) -> (s: HardSoftScore)
    ensures
        s.hard == (if lacks_required_skill(*entity, *fact) { 1int } else { 0int }),
        s.soft == 0,
{
    if join_condition(entity, fact) {
        HardSoftScore::one_hard()
    } else {
        HardSoftScore::zero()
    }
}

/// The constraint's contribution to a plan's score.
pub fn evaluate(plan: &Plan) -> (s: HardSoftScore)
    requires
        sum_joined(plan.tasks@, plan.candidates@, skill_weight()) <= i64::MAX,
    ensures
        s.hard == -sum_joined(plan.tasks@, plan.candidates@, skill_weight()),
        s.soft == 0,
{
    let n = plan.tasks.len();
    let m = plan.candidates.len();
    let ghost tasks = plan.tasks@;
    let ghost facts = plan.candidates@;
    let ghost w = skill_weight();
    let mut total: i64 = 0;
    let mut i: usize = 0;
    while i < n
        invariant
            n == tasks.len(),
            m == facts.len(),
            tasks == plan.tasks@,
            facts == plan.candidates@,
            w == skill_weight(),
            sum_joined(tasks, facts, w) <= i64::MAX,
            i <= n,
            total == sum_joined(tasks.take(i as int), facts, w),
        decreases n - i,
    {
        proof {
            lemma_take_step(tasks, i as int);
            lemma_sum_joined_prefix(tasks, facts, w, i as int + 1);
            lemma_sum_joined_nonneg(tasks.take(i as int), facts, w);
        }
        let mut k: usize = 0;
        while k < m
            invariant
                n == tasks.len(),
                m == facts.len(),
                tasks == plan.tasks@,
                facts == plan.candidates@,
                w == skill_weight(),
                i < n,
                k <= m,
                sum_joined(tasks.take(i as int + 1), facts, w) <= i64::MAX,
                tasks.take(i as int + 1).drop_last() == tasks.take(i as int),
                tasks.take(i as int + 1).last() == tasks[i as int],
                sum_joined(tasks.take(i as int), facts, w) >= 0,
                total == sum_joined(tasks.take(i as int), facts, w) + sum_facts(
                    tasks[i as int],
                    facts.take(k as int),
                    w,
                ),
            decreases m - k,
        {
            proof {
                assert(facts.take(k as int + 1).drop_last() =~= facts.take(k as int));
                assert(facts.take(k as int + 1).last() == facts[k as int]);
                lemma_sum_facts_prefix(tasks[i as int], facts, w, k as int + 1);
                lemma_sum_facts_nonneg(tasks[i as int], facts.take(k as int), w);
            }
            if same_join_key(entity_join_key(&plan.tasks[i]), fact_join_key(&plan.candidates[k])) {
                let weight = join_weight(&plan.tasks[i], &plan.candidates[k]);
                total = total + weight.hard;
            }
            k = k + 1;
        }
        proof {
            assert(facts.take(m as int) =~= facts);
        }
        i = i + 1;
    }
    proof {
        assert(tasks.take(n as int) =~= tasks);
        lemma_sum_joined_nonneg(tasks, facts, w);
    }
    HardSoftScore::of_hard(-total)
}

/// A task assigned to a candidate costs one hard point exactly when one of
/// its required skills is not among the names of the candidate's qualified
/// skills, and nothing otherwise.
pub proof fn lemma_skill_penalty_reads_qualified_skills(task: Task, fact: Candidate)
    requires
        task.candidate_idx == Some(fact.index),
    ensures
        skill_weight()(task, fact) == 0 || skill_weight()(task, fact) == 1,
        skill_weight()(task, fact) == 1 <==> exists|i: int|
            0 <= i < task.required_skills@.len() && !fact.qualified_skills@.map_values(|s: String| s@).contains(
                (#[trigger] task.required_skills@[i])@,
            ),
{
    let names = fact.qualified_skills@.map_values(|s: String| s@);
    assert forall|i: int| 0 <= i < task.required_skills@.len() implies names.contains(
        (#[trigger] task.required_skills@[i])@,
    ) == holds_skill(fact, task.required_skills@[i]@) by {
        let name = task.required_skills@[i]@;
        if names.contains(name) {
            let j = choose|j: int| 0 <= j < names.len() && names[j] == name;
            assert(fact.qualified_skills@[j]@ == name);
        }
        if holds_skill(fact, name) {
            let j = choose|j: int| 0 <= j < fact.qualified_skills@.len() && (#[trigger] fact.qualified_skills@[j])@ == name;
            assert(names[j] == name);
        }
    }
}

/// A required skill that the candidate was evaluated for but not judged
/// qualified in still costs a hard point: an evaluated skill is not a held one.
pub proof fn lemma_evaluated_but_unqualified_skill_is_missing(task: Task, fact: Candidate, i: int)
    requires
        task.candidate_idx == Some(fact.index),
        0 <= i < task.required_skills@.len(),
        forall|j: int| 0 <= j < fact.qualified_skills@.len() ==> (#[trigger] fact.qualified_skills@[j])@
            != task.required_skills@[i]@,
    ensures
        skill_weight()(task, fact) == 1,
{
    assert(!holds_skill(fact, task.required_skills@[i]@));
}

/// The skill penalty depends on the candidate's qualified skills, not on
/// which skills were evaluated or their probabilities: two candidates that
/// differ only there are charged the same for every task.
pub proof fn lemma_skill_penalty_ignores_evaluations(task: Task, fact: Candidate, other: Candidate)
    requires
        other.index == fact.index,
        other.qualified_skills@ == fact.qualified_skills@,
    ensures
        skill_weight()(task, other) == skill_weight()(task, fact),
{
}

} // verus!
