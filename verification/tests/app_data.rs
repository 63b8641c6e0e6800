use jev_team_calendar::data::app_data::{parse_project, str_eq_ignore_ascii_case};
use jev_team_calendar::data::inputs::{
    candidate_from_inference, plan_from_inputs, task_from_input, InferredCandidate,
    SkillJudgment, TaskInput,
};
use jev_team_calendar::data::{available_demo_data, default_demo_data, to_slot, DemoData};

#[test]
fn timestamps_map_to_work_week_slots() {
    assert_eq!(to_slot("2026-09-21T09:00:00").unwrap(), 0);
    assert_eq!(to_slot("2026-09-22T09:00:00").unwrap(), 18);
    assert_eq!(to_slot("2026-09-25T18:00:00").unwrap(), 90);
}

#[test]
fn half_hours_and_workday_edges_map_to_slots() {
    assert_eq!(to_slot("2026-09-21T09:30:00").unwrap(), 1);
    assert_eq!(to_slot("2026-09-21T18:00:00").unwrap(), 18);
    assert_eq!(to_slot("2026-09-23T12:00:00").unwrap(), 42);
}

#[test]
fn off_grid_timestamps_are_rejected() {
    assert_eq!(
        to_slot("2026-09-21T09:15:00").unwrap_err(),
        "timestamp 2026-09-21T09:15:00 is outside the half-hour work-week grid"
    );
    assert!(to_slot("2026-09-21T08:30:00").is_err());
    assert!(to_slot("2026-09-21T18:30:00").is_err());
    assert!(to_slot("2026-09-20T09:00:00").is_err());
    assert!(to_slot("2026-09-26T09:00:00").is_err());
}

#[test]
fn malformed_timestamps_are_rejected_with_the_parse_error() {
    let error = to_slot("next monday").unwrap_err();
    assert!(error.starts_with("invalid calendar timestamp next monday: "));
}

#[test]
fn project_ids_and_catalog() {
    assert_eq!(DemoData::PlatformReliability.id(), "platform-reliability");
    assert_eq!(DemoData::ProductLaunch.id(), "product-launch");
    assert_eq!(default_demo_data(), DemoData::PlatformReliability);
    assert_eq!(DemoData::default_demo_data(), DemoData::PlatformReliability);
    assert_eq!(
        available_demo_data(),
        &[DemoData::PlatformReliability, DemoData::ProductLaunch]
    );
    assert_eq!(DemoData::available_demo_data().len(), 2);
}

#[test]
fn project_ids_parse_ignoring_ascii_case() {
    assert_eq!(parse_project("product-launch"), Some(DemoData::ProductLaunch));
    assert_eq!(parse_project("PLATFORM-Reliability"), Some(DemoData::PlatformReliability));
    assert_eq!(parse_project("product_launch"), None);
    assert_eq!(parse_project(""), None);
    assert_eq!("Product-Launch".parse::<DemoData>(), Ok(DemoData::ProductLaunch));
    assert_eq!("unknown".parse::<DemoData>(), Err(()));
    assert!(str_eq_ignore_ascii_case("AbC", "aBc"));
    assert!(!str_eq_ignore_ascii_case("abc", "abcd"));
}

fn judgment(qualified: bool, probability_ppm: u32) -> SkillJudgment {
    SkillJudgment { qualified, probability_ppm }
}

fn inferred(id: &str) -> InferredCandidate {
    InferredCandidate {
        id: id.to_string(),
        display_name: format!("{id} name"),
        source: format!("input/resumes/{id}.md"),
        skills: vec![
            ("kubernetes".to_string(), judgment(false, 120_000)),
            ("postgresql".to_string(), judgment(true, 910_000)),
        ],
    }
}

fn task_input(id: &str, minutes: usize) -> TaskInput {
    TaskInput {
        id: id.to_string(),
        title: format!("{id} title"),
        description: String::new(),
        required_skills: vec!["postgresql".to_string()],
        duration_minutes: minutes,
        earliest_start: "2026-09-21T09:00:00".to_string(),
        latest_end: "2026-09-22T12:00:00".to_string(),
    }
}

#[test]
fn inferred_candidates_become_facts() {
    let fact = candidate_from_inference(3, &inferred("dana"));
    assert_eq!(fact.id, "dana");
    assert_eq!(fact.name, "dana name");
    assert_eq!(fact.display_name, "dana name");
    assert_eq!(fact.index, 3);
    assert_eq!(fact.evaluated_skills, vec!["kubernetes", "postgresql"]);
    assert_eq!(fact.skill_probabilities_ppm, vec![120_000, 910_000]);
    assert_eq!(fact.qualified_skills, vec!["postgresql"]);
    assert_eq!(fact.availability, vec![true; 90]);
    assert_eq!(fact.resume_source, "input/resumes/dana.md");
}

#[test]
fn task_inputs_become_entities() {
    let task = task_from_input(&task_input("migrate", 90)).unwrap();
    assert_eq!(task.id, "migrate");
    assert_eq!(task.duration_slots, 3);
    assert_eq!(task.earliest_start_slot, 0);
    assert_eq!(task.latest_end_slot, 24);
    assert_eq!(task.required_skills, vec!["postgresql"]);
    assert_eq!(task.candidate_idx, None);
    assert_eq!(task.start_slot, None);
}

#[test]
fn durations_must_be_positive_half_hours() {
    assert_eq!(
        task_from_input(&task_input("zero", 0)).err().unwrap(),
        "task zero duration must be a positive multiple of 30"
    );
    assert!(task_from_input(&task_input("odd", 45)).is_err());
}

#[test]
fn plans_index_candidates_and_stop_at_the_first_bad_task() {
    let plan = plan_from_inputs(
        &vec![inferred("a"), inferred("b")],
        &vec![task_input("t1", 30), task_input("t2", 60)],
    )
    .unwrap();
    assert_eq!(plan.candidates.len(), 2);
    assert_eq!(plan.candidates[1].index, 1);
    assert_eq!(plan.tasks.len(), 2);
    assert!(plan.score.is_none());
    let mut late = task_input("t3", 30);
    late.latest_end = "2026-09-28T09:00:00".to_string();
    let error = plan_from_inputs(
        &vec![inferred("a")],
        &vec![task_input("t1", 30), task_input("bad", 20), late],
    )
    .err()
    .unwrap();
    assert_eq!(error, "task bad duration must be a positive multiple of 30");
}
