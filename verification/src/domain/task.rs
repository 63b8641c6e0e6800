use vstd::prelude::*;

verus! {

/// Work whose assignee and start slot are chosen by the solver.
pub struct Task {
    pub id: String,
    pub title: String,
    pub description: String,
    pub required_skills: Vec<String>,
    pub duration_slots: usize,
    pub earliest_start_slot: usize,
    pub latest_end_slot: usize,
    pub candidate_idx: Option<usize>,
    pub start_slot: Option<usize>,
}

impl Task {
    pub fn new(
        id: &str,
        title: String,
        description: String,
        required_skills: Vec<String>,
        duration_slots: usize,
        earliest_start_slot: usize,
        latest_end_slot: usize,
    ) -> (t: Task)
        ensures
            t.id@ == id@,
            t.title == title,
            t.description == description,
            t.required_skills == required_skills,
            t.duration_slots == duration_slots,
            t.earliest_start_slot == earliest_start_slot,
            t.latest_end_slot == latest_end_slot,
            t.candidate_idx is None,
            t.start_slot is None,
    {
        Task {
            id: id.to_owned(),
            title,
            description,
            required_skills,
            duration_slots,
            earliest_start_slot,
            latest_end_slot,
            candidate_idx: None,
            start_slot: None,
        }
    }

    /// The slot after the last occupied one: `start + duration`, or `None`
    /// when the task has no start or the sum does not fit a `usize`.
    pub open spec fn spec_end_slot(&self) -> Option<usize> {
        match self.start_slot {
            Some(start) => if start + self.duration_slots <= usize::MAX {
                Some((start + self.duration_slots) as usize)
            } else {
                None
            },
            None => None,
        }
    }

    pub fn end_slot(&self) -> (end: Option<usize>)
        ensures
            end == self.spec_end_slot(),
    {
        match self.start_slot {
            Some(start) => start.checked_add(self.duration_slots),
            None => None,
        }
    }
}

} // verus!
