use jev_team_calendar::domain::{Candidate, Task};

#[test]
fn test_candidate_construction() {
    let fact = Candidate::new(
        "test-id",
        "test",
        Default::default(),
        "test".to_string(),
        Default::default(),
        Default::default(),
        Default::default(),
        Default::default(),
        "test".to_string(),
    );
    assert_eq!(fact.id, "test-id");
    assert_eq!(fact.name, "test");
    let _ = &fact.index;
    let _ = &fact.display_name;
    let _ = &fact.qualified_skills;
    let _ = &fact.evaluated_skills;
    let _ = &fact.skill_probabilities_ppm;
    let _ = &fact.availability;
    let _ = &fact.resume_source;
}

#[test]
fn test_task_construction() {
    let entity = Task::new(
        "test-id",
        "test".to_string(),
        "test".to_string(),
        Default::default(),
        Default::default(),
        Default::default(),
        Default::default(),
    );
    assert_eq!(entity.id, "test-id");
    let _ = &entity.title;
    let _ = &entity.description;
    let _ = &entity.required_skills;
    let _ = &entity.duration_slots;
    let _ = &entity.earliest_start_slot;
    let _ = &entity.latest_end_slot;
}
