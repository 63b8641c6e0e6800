use vstd::prelude::*;

use crate::data::app_data::{timestamp_slot, to_slot};
use crate::domain::{Candidate, Plan, Task, HORIZON_SLOTS};
use crate::text::concat3;

verus! {

/// One skill judgment of a resume: whether the skill is held, and the
/// probability of holding it in millionths.
pub struct SkillJudgment {
    pub qualified: bool,
    pub probability_ppm: u32,
}

/// A candidate as the resume preprocessing reports it, with its skill
/// judgments ordered by skill name.
pub struct InferredCandidate {
    pub id: String,
    pub display_name: String,
    pub source: String,
    pub skills: Vec<(String, SkillJudgment)>,
}

/// A task as the project's task list describes it.
pub struct TaskInput {
    pub id: String,
    pub title: String,
    pub description: String,
    pub required_skills: Vec<String>,
    pub duration_minutes: usize,
    pub earliest_start: String,
    pub latest_end: String,
}

pub open spec fn string_views(v: Seq<String>) -> Seq<Seq<char>> {
    v.map_values(|s: String| s@)
}

/// The judged skill names, in order.
pub open spec fn skill_names(skills: Seq<(String, SkillJudgment)>) -> Seq<Seq<char>> {
    skills.map_values(|e: (String, SkillJudgment)| e.0@)
}

/// The judged probabilities, in order.
pub open spec fn skill_ppms(skills: Seq<(String, SkillJudgment)>) -> Seq<u32> {
    skills.map_values(|e: (String, SkillJudgment)| e.1.probability_ppm)
}

/// The names of the skills judged qualified, in order.
pub open spec fn qualified_names(skills: Seq<(String, SkillJudgment)>) -> Seq<Seq<char>>
    decreases skills.len(),
{
    if skills.len() == 0 {
        Seq::empty()
    } else if skills.last().1.qualified {
        qualified_names(skills.drop_last()).push(skills.last().0@)
    } else {
        qualified_names(skills.drop_last())
    }
}

/// The candidate fact built for the `index`-th inferred candidate: every
/// judged skill is evaluated, the qualified ones are held, and every slot of
/// the horizon is available.
pub open spec fn candidate_matches(c: Candidate, index: int, input: InferredCandidate) -> bool {
    &&& c.id@ == input.id@
    &&& c.name@ == input.display_name@
    &&& c.index == index
    &&& c.display_name@ == input.display_name@
    &&& string_views(c.qualified_skills@) == qualified_names(input.skills@)
    &&& string_views(c.evaluated_skills@) == skill_names(input.skills@)
    &&& c.skill_probabilities_ppm@ == skill_ppms(input.skills@)
    &&& c.availability@ == Seq::new(HORIZON_SLOTS as nat, |i: int| true)
    &&& c.resume_source@ == input.source@
}

pub fn copy_strings(v: &Vec<String>) -> (out: Vec<String>)
    ensures
        out@ == v@,
{
    let mut out: Vec<String> = Vec::new();
    let mut i: usize = 0;
    while i < v.len()
        invariant
            i <= v@.len(),
            out@ == v@.take(i as int),
        decreases v@.len() - i,
    {
        out.push(v[i].clone());
        i = i + 1;
        assert(out@ =~= v@.take(i as int));
    }
    assert(v@.take(v@.len() as int) =~= v@);
    out
}

/// Builds the candidate fact for the `index`-th inferred candidate.
pub fn candidate_from_inference(index: usize, input: &InferredCandidate) -> (c: Candidate)
    ensures
        candidate_matches(c, index as int, *input),
{
    let skills = &input.skills;
    let mut evaluated: Vec<String> = Vec::new();
    let mut probabilities: Vec<u32> = Vec::new();
    let mut qualified: Vec<String> = Vec::new();
    let mut i: usize = 0;
    while i < skills.len()
        invariant
            i <= skills@.len(),
            string_views(evaluated@) == skill_names(skills@.take(i as int)),
            probabilities@ == skill_ppms(skills@.take(i as int)),
            string_views(qualified@) == qualified_names(skills@.take(i as int)),
        decreases skills@.len() - i,
    {
        let (name, judgment) = &skills[i];
        proof {
            assert(skills@.take(i as int + 1).drop_last() =~= skills@.take(i as int));
            assert(skills@.take(i as int + 1).last() == skills@[i as int]);
        }
        let ghost prev_evaluated = evaluated@;
        let ghost prev_probabilities = probabilities@;
        assert(string_views(prev_evaluated).len() == i);
        assert(prev_evaluated.len() == i);
        let name_copy = name.clone();
        evaluated.push(name_copy);
        assert(evaluated@ == prev_evaluated.push(name_copy));
        probabilities.push(judgment.probability_ppm);
        if judgment.qualified {
            qualified.push(name.clone());
        }
        i = i + 1;
        assert forall|k: int| 0 <= k < i implies #[trigger] string_views(evaluated@)[k] == skill_names(
            skills@.take(i as int),
        )[k] by {
            if k < i - 1 {
                assert(string_views(prev_evaluated)[k] == skill_names(skills@.take(i - 1))[k]);
                assert(evaluated@[k] == prev_evaluated[k]);
            }
        }
        assert(string_views(evaluated@) =~= skill_names(skills@.take(i as int)));
        assert forall|k: int| 0 <= k < i implies #[trigger] probabilities@[k] == skill_ppms(
            skills@.take(i as int),
        )[k] by {
            if k < i - 1 {
                assert(prev_probabilities[k] == skill_ppms(skills@.take(i - 1))[k]);
            }
        }
        assert(probabilities@ =~= skill_ppms(skills@.take(i as int)));
        assert(string_views(qualified@) =~= qualified_names(skills@.take(i as int)));
    }
    assert(skills@.take(skills@.len() as int) =~= skills@);
    let mut availability: Vec<bool> = Vec::new();
    let mut slot: usize = 0;
    while slot < HORIZON_SLOTS
        invariant
            slot <= HORIZON_SLOTS,
            availability@ == Seq::new(slot as nat, |i: int| true),
        decreases HORIZON_SLOTS - slot,
    {
        availability.push(true);
        slot = slot + 1;
        assert(availability@ =~= Seq::new(slot as nat, |i: int| true));
    }
    Candidate::new(
        input.id.as_str(),
        input.display_name.as_str(),
        index,
        input.display_name.clone(),
        qualified,
        evaluated,
        probabilities,
        availability,
        input.source.clone(),
    )
}

/// The message for a duration that is not a positive multiple of 30 minutes.
pub open spec fn duration_message(id: Seq<char>) -> Seq<char> {
    "task "@ + id + " duration must be a positive multiple of 30"@
}

/// What a task input yields: its earliest start and latest end slots, or the
/// first error met (duration, then earliest start, then latest end).
pub open spec fn task_outcome(input: TaskInput) -> Result<(int, int), Seq<char>> {
    if input.duration_minutes == 0 || input.duration_minutes % 30 != 0 {
        Err(duration_message(input.id@))
    } else {
        match timestamp_slot(input.earliest_start@) {
            Err(e) => Err(e),
            Ok(earliest) => match timestamp_slot(input.latest_end@) {
                Err(e) => Err(e),
                Ok(latest) => Ok((earliest, latest)),
            },
        }
    }
}

/// The task entity built from a valid task input, still unassigned.
pub open spec fn task_matches(t: Task, input: TaskInput) -> bool {
    &&& task_outcome(input) is Ok
    &&& t.id@ == input.id@
    &&& t.title@ == input.title@
    &&& t.description@ == input.description@
    &&& t.required_skills@ == input.required_skills@
    &&& t.duration_slots == input.duration_minutes / 30
    &&& t.earliest_start_slot == task_outcome(input)->Ok_0.0
    &&& t.latest_end_slot == task_outcome(input)->Ok_0.1
    &&& t.candidate_idx is None
    &&& t.start_slot is None
}

/// Builds the task entity for a task input.
pub fn task_from_input(input: &TaskInput) -> (r: Result<Task, String>)
    ensures
        match r {
            Ok(t) => task_matches(t, *input),
            Err(message) => task_outcome(*input) == Err::<(int, int), Seq<char>>(message@),
        },
{
    if input.duration_minutes == 0 || input.duration_minutes % 30 != 0 {
        return Err(concat3("task ", input.id.as_str(), " duration must be a positive multiple of 30"));
    }
    let earliest = match to_slot(input.earliest_start.as_str()) {
        Ok(slot) => slot,
        Err(message) => return Err(message),
    };
    let latest = match to_slot(input.latest_end.as_str()) {
        Ok(slot) => slot,
        Err(message) => return Err(message),
    };
    Ok(
        Task::new(
            input.id.as_str(),
            input.title.clone(),
            input.description.clone(),
            copy_strings(&input.required_skills),
            input.duration_minutes / 30,
            earliest,
            latest,
        ),
    )
}

/// Builds the plan from the inferred candidates and the project's task
/// inputs: candidate facts in order, indexed by position, then the tasks in
/// order; the first invalid task's message is returned instead.
pub fn plan_from_inputs(candidates: &Vec<InferredCandidate>, tasks: &Vec<TaskInput>) -> (r: Result<Plan, String>)
    ensures
        r is Ok <==> forall|i: int| 0 <= i < tasks@.len() ==> (#[trigger] task_outcome(tasks@[i])) is Ok,
        r matches Ok(plan) ==> {
            &&& plan.candidates@.len() == candidates@.len()
            &&& forall|i: int| 0 <= i < candidates@.len() ==> candidate_matches(#[trigger] plan.candidates@[i], i, candidates@[i])
            &&& plan.tasks@.len() == tasks@.len()
            &&& forall|i: int| 0 <= i < tasks@.len() ==> task_matches(#[trigger] plan.tasks@[i], tasks@[i])
            &&& plan.score is None
        },
        r matches Err(message) ==> exists|j: int| {
            &&& 0 <= j < tasks@.len()
            &&& #[trigger] task_outcome(tasks@[j]) == Err::<(int, int), Seq<char>>(message@)
            &&& forall|k: int| 0 <= k < j ==> (#[trigger] task_outcome(tasks@[k])) is Ok
        },
{
    let mut facts: Vec<Candidate> = Vec::new();
    let mut i: usize = 0;
    while i < candidates.len()
        invariant
            i <= candidates@.len(),
            facts@.len() == i,
            forall|k: int| 0 <= k < i ==> candidate_matches(#[trigger] facts@[k], k, candidates@[k]),
        decreases candidates@.len() - i,
    {
        let fact = candidate_from_inference(i, &candidates[i]);
        facts.push(fact);
        i = i + 1;
    }
    let mut entities: Vec<Task> = Vec::new();
    let mut j: usize = 0;
    while j < tasks.len()
        invariant
            j <= tasks@.len(),
            entities@.len() == j,
            forall|k: int| 0 <= k < j ==> task_matches(#[trigger] entities@[k], tasks@[k]),
            forall|k: int| 0 <= k < j ==> (#[trigger] task_outcome(tasks@[k])) is Ok,
        decreases tasks@.len() - j,
    {
        match task_from_input(&tasks[j]) {
            Ok(task) => {
                entities.push(task);
            },
            Err(message) => {
                assert(task_outcome(tasks@[j as int]) == Err::<(int, int), Seq<char>>(message@));
                return Err(message);
            },
        }
        j = j + 1;
    }
    Ok(Plan::new(facts, entities))
}

} // verus!

verus! {

/// Every skill a candidate is qualified for was also evaluated.
pub proof fn lemma_qualified_skills_are_evaluated(skills: Seq<(String, SkillJudgment)>)
    ensures
        forall|i: int|
            0 <= i < qualified_names(skills).len() ==> skill_names(skills).contains(
                #[trigger] qualified_names(skills)[i],
            ),
    decreases skills.len(),
{
    if skills.len() > 0 {
        let init = skills.drop_last();
        lemma_qualified_skills_are_evaluated(init);
        assert forall|i: int| 0 <= i < qualified_names(skills).len() implies skill_names(skills).contains(
            #[trigger] qualified_names(skills)[i],
        ) by {
            if i < qualified_names(init).len() {
                assert(qualified_names(skills)[i] == qualified_names(init)[i]);
                let j = choose|j: int| 0 <= j < skill_names(init).len() && skill_names(init)[j] == qualified_names(init)[i];
                assert(skill_names(skills)[j] == skill_names(init)[j]);
            } else {
                assert(skill_names(skills)[skills.len() - 1] == skills.last().0@);
            }
        }
    }
}

} // verus!
