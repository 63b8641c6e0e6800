use vstd::prelude::*;

verus! {

/// A person discovered from a resume and classified before solving.
pub struct Candidate {
    pub id: String,
    pub name: String,
    pub index: usize,
    pub display_name: String,
    pub qualified_skills: Vec<String>,
    /// Every skill that was judged, aligned with `skill_probabilities_ppm`.
    pub evaluated_skills: Vec<String>,
    /// Skill probabilities in millionths.
    pub skill_probabilities_ppm: Vec<u32>,
    /// One flag per half-hour slot of the horizon.
    pub availability: Vec<bool>,
    pub resume_source: String,
}

impl Candidate {
    pub fn new(
        id: &str,
        name: &str,
        index: usize,
        display_name: String,
        qualified_skills: Vec<String>,
        evaluated_skills: Vec<String>,
        skill_probabilities_ppm: Vec<u32>,
        availability: Vec<bool>,
        resume_source: String,
    ) -> (c: Candidate)
        ensures
            c.id@ == id@,
            c.name@ == name@,
            c.index == index,
            c.display_name == display_name,
            c.qualified_skills == qualified_skills,
            c.evaluated_skills == evaluated_skills,
            c.skill_probabilities_ppm == skill_probabilities_ppm,
            c.availability == availability,
            c.resume_source == resume_source,
    {
        Candidate {
            id: id.to_owned(),
            name: name.to_owned(),
            index,
            display_name,
            qualified_skills,
            evaluated_skills,
            skill_probabilities_ppm,
            availability,
            resume_source,
        }
    }
}

} // verus!
