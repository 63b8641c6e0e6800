use vstd::prelude::*;

use crate::domain::{Candidate, Task};
use crate::score::HardSoftScore;

verus! {

/// The planning solution: the discovered candidates (facts), the tasks
/// (entities) and the score the solver last computed for it.
pub struct Plan {
    pub candidates: Vec<Candidate>,
    pub tasks: Vec<Task>,
    pub score: Option<HardSoftScore>,
}

impl Plan {
    pub fn new(candidates: Vec<Candidate>, tasks: Vec<Task>) -> (p: Plan)
        ensures
            p.candidates == candidates,
            p.tasks == tasks,
            p.score is None,
    {
        Plan { candidates, tasks, score: None }
    }
}

} // verus!
