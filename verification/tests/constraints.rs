use jev_team_calendar::constraints::{
    balance_workload, candidate_availability, complete_candidate, complete_start, evaluate_all,
    minimize_completion, minimize_idle_gaps, no_candidate_overlap, required_skills,
    task_time_window,
};
use jev_team_calendar::domain::{Candidate, Plan, Task};
use jev_team_calendar::score::HardSoftScore;

fn candidate(id: &str, skills: &[&str]) -> Candidate {
    Candidate::new(
        id,
        id,
        0,
        id.to_string(),
        skills.iter().map(|skill| (*skill).to_string()).collect(),
        skills.iter().map(|skill| (*skill).to_string()).collect(),
        vec![950_000; skills.len()],
        vec![true; 90],
        format!("input/resumes/{id}.txt"),
    )
}

fn task(id: &str, skills: &[&str], start: usize, duration: usize) -> Task {
    let mut task = Task::new(
        id,
        id.to_string(),
        String::new(),
        skills.iter().map(|skill| (*skill).to_string()).collect(),
        duration,
        0,
        90,
    );
    task.candidate_idx = Some(0);
    task.start_slot = Some(start);
    task
}

#[test]
fn lacking_one_required_skill_is_rejected() {
    let plan = Plan::new(
        vec![candidate("alice", &["postgresql"])],
        vec![task("migration", &["postgresql", "database_migration"], 0, 2)],
    );
    assert_eq!(required_skills::evaluate(&plan), HardSoftScore::of_hard(-1));
}

#[test]
fn qualified_candidate_is_accepted() {
    let plan = Plan::new(
        vec![candidate("alice", &["postgresql", "database_migration"])],
        vec![task("migration", &["postgresql", "database_migration"], 0, 2)],
    );
    assert_eq!(required_skills::evaluate(&plan), HardSoftScore::zero());
}

#[test]
fn same_candidate_cannot_overlap() {
    let plan = Plan::new(
        vec![candidate("alice", &[])],
        vec![task("a", &[], 0, 4), task("b", &[], 2, 4)],
    );
    assert_eq!(no_candidate_overlap::evaluate(&plan), HardSoftScore::of_hard(-1));
}

#[test]
fn different_candidates_can_work_concurrently() {
    let mut second = task("b", &[], 0, 4);
    second.candidate_idx = Some(1);
    let plan = Plan::new(
        vec![candidate("alice", &[]), candidate("bob", &[])],
        vec![task("a", &[], 0, 4), second],
    );
    assert_eq!(no_candidate_overlap::evaluate(&plan), HardSoftScore::zero());
}

#[test]
fn same_candidate_overlap_is_detected_regardless_of_id_order() {
    let plan = Plan::new(
        vec![candidate("alice", &[])],
        vec![task("zulu", &[], 0, 4), task("alpha", &[], 2, 4)],
    );
    assert_eq!(no_candidate_overlap::evaluate(&plan), HardSoftScore::of_hard(-1));
}

#[test]
fn same_day_idle_gap_is_counted_regardless_of_id_order() {
    let plan = Plan::new(
        vec![candidate("alice", &[])],
        vec![task("zulu", &[], 0, 4), task("alpha", &[], 6, 4)],
    );
    assert_eq!(minimize_idle_gaps::evaluate(&plan), HardSoftScore::of_soft(-2));
}

#[test]
fn task_windows_are_enforced() {
    let mut outside = task("outside", &[], 2, 4);
    outside.earliest_start_slot = 4;
    outside.latest_end_slot = 12;
    let plan = Plan::new(vec![candidate("alice", &[])], vec![outside]);
    assert_eq!(task_time_window::evaluate(&plan), HardSoftScore::of_hard(-1));
}

#[test]
fn candidate_availability_is_enforced() {
    let mut unavailable = candidate("alice", &[]);
    unavailable.availability[2] = false;
    let plan = Plan::new(vec![unavailable], vec![task("a", &[], 1, 3)]);
    assert_eq!(candidate_availability::evaluate(&plan), HardSoftScore::of_hard(-1));
}

#[test]
fn no_qualified_candidate_is_infeasible() {
    let plan = Plan::new(
        vec![candidate("alice", &["react"])],
        vec![task("migration", &["postgresql"], 0, 2)],
    );
    assert!(evaluate_all(&plan).hard() < 0);
}

#[test]
fn unassigned_and_unstarted_tasks_cost_one_hard_point_each() {
    let mut loose = task("loose", &[], 0, 2);
    loose.candidate_idx = None;
    loose.start_slot = None;
    let plan = Plan::new(vec![candidate("alice", &[])], vec![loose, task("kept", &[], 4, 2)]);
    assert_eq!(complete_candidate::evaluate(&plan), HardSoftScore::of_hard(-1));
    assert_eq!(complete_start::evaluate(&plan), HardSoftScore::of_hard(-1));
}

#[test]
fn completion_penalty_sums_end_slots() {
    let plan = Plan::new(
        vec![candidate("alice", &[])],
        vec![task("a", &[], 0, 4), task("b", &[], 10, 3)],
    );
    assert_eq!(minimize_completion::evaluate(&plan), HardSoftScore::of_soft(-17));
}

#[test]
fn balanced_single_candidate_has_no_unfairness() {
    let plan = Plan::new(
        vec![candidate("alice", &[])],
        vec![task("a", &[], 0, 4), task("b", &[], 10, 3)],
    );
    assert_eq!(balance_workload::evaluate(&plan), HardSoftScore::of_soft(0));
}

#[test]
fn uneven_workload_is_penalized() {
    let mut second = task("b", &[], 0, 1);
    second.candidate_idx = Some(1);
    let plan = Plan::new(
        vec![candidate("alice", &[]), candidate("bob", &[])],
        vec![task("a", &[], 0, 9), second],
    );
    let score = balance_workload::evaluate(&plan);
    assert_eq!(score.hard(), 0);
    assert_eq!(score.soft(), -6);
}

#[test]
fn feasible_plan_scores_zero_hard() {
    let mut second = task("b", &["rust"], 4, 2);
    second.candidate_idx = Some(0);
    let plan = Plan::new(
        vec![candidate("alice", &["rust"])],
        vec![task("a", &["rust"], 0, 2), second],
    );
    let score = evaluate_all(&plan);
    assert_eq!(score.hard(), 0);
    assert!(score.is_feasible());
    // completion: 2 + 6; idle gap 2 on the same day; one candidate, no unfairness
    assert_eq!(score.soft(), -10);
}

#[test]
fn task_crossing_a_workday_breaks_its_window() {
    let plan = Plan::new(vec![candidate("alice", &[])], vec![task("late", &[], 16, 4)]);
    assert_eq!(task_time_window::evaluate(&plan), HardSoftScore::of_hard(-1));
    let plan = Plan::new(vec![candidate("alice", &[])], vec![task("fits", &[], 14, 4)]);
    assert_eq!(task_time_window::evaluate(&plan), HardSoftScore::zero());
}

#[test]
fn duplicate_task_ids_never_overlap() {
    let plan = Plan::new(
        vec![candidate("alice", &[])],
        vec![task("same", &[], 0, 4), task("same", &[], 2, 4)],
    );
    assert_eq!(no_candidate_overlap::evaluate(&plan), HardSoftScore::zero());
}

#[test]
fn gaps_on_different_days_are_not_counted() {
    let plan = Plan::new(
        vec![candidate("alice", &[])],
        vec![task("a", &[], 0, 2), task("b", &[], 20, 2)],
    );
    assert_eq!(minimize_idle_gaps::evaluate(&plan), HardSoftScore::zero());
}

#[test]
fn availability_past_the_list_is_unavailable() {
    let mut short = candidate("alice", &[]);
    short.availability.truncate(3);
    let plan = Plan::new(vec![short], vec![task("a", &[], 2, 2)]);
    assert_eq!(candidate_availability::evaluate(&plan), HardSoftScore::of_hard(-1));
}

#[test]
fn end_slot_is_start_plus_duration() {
    let t = task("a", &[], 5, 3);
    assert_eq!(t.end_slot(), Some(8));
    let mut unstarted = task("b", &[], 0, 3);
    unstarted.start_slot = None;
    assert_eq!(unstarted.end_slot(), None);
    let mut huge = task("c", &[], usize::MAX, 1);
    huge.start_slot = Some(usize::MAX);
    assert_eq!(huge.end_slot(), None);
}

#[test]
fn evenly_loaded_candidates_have_no_unfairness() {
    let mut second = task("b", &[], 0, 4);
    second.candidate_idx = Some(1);
    let plan = Plan::new(
        vec![candidate("alice", &[]), candidate("bob", &[])],
        vec![task("a", &[], 0, 4), second],
    );
    assert_eq!(balance_workload::evaluate(&plan), HardSoftScore::of_soft(0));
}

#[test]
fn score_ignores_task_order_and_ids() {
    let make_tasks = || {
        let mut second = task("b", &[], 3, 4);
        second.candidate_idx = Some(1);
        vec![task("a", &[], 0, 4), second, task("c", &["go"], 2, 3)]
    };
    let plan = Plan::new(vec![candidate("alice", &[]), candidate("bob", &[])], make_tasks());
    let mut reordered: Vec<Task> = make_tasks().into_iter().rev().collect();
    for (index, t) in reordered.iter_mut().enumerate() {
        t.id = format!("renamed-{index}");
    }
    let other = Plan::new(vec![candidate("alice", &[]), candidate("bob", &[])], reordered);
    let score = evaluate_all(&plan);
    assert!(score.hard() < 0);
    assert_eq!(evaluate_all(&other), score);
}
