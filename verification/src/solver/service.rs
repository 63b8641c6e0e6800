use vstd::prelude::*;

use crate::api::dto::LifecycleState;

verus! {

/// The lifecycle events a solve reports.
#[derive(Debug, Clone, Copy, PartialEq, Eq, Structural)]
pub enum SolverEventKind {
    Progress,
    BestSolution,
    PauseRequested,
    Paused,
    Resumed,
    Completed,
    Cancelled,
    Failed,
}

pub open spec fn event_label(kind: SolverEventKind) -> Seq<char> {
    match kind {
        SolverEventKind::Progress => "progress"@,
        SolverEventKind::BestSolution => "best_solution"@,
        SolverEventKind::PauseRequested => "pause_requested"@,
        SolverEventKind::Paused => "paused"@,
        SolverEventKind::Resumed => "resumed"@,
        SolverEventKind::Completed => "completed"@,
        SolverEventKind::Cancelled => "cancelled"@,
        SolverEventKind::Failed => "failed"@,
    }
}

/// The `eventType` a lifecycle event is broadcast under.
pub fn event_type(kind: SolverEventKind) -> (label: &'static str)
    ensures
        label@ == event_label(kind),
{
    match kind {
        SolverEventKind::Progress => "progress",
        SolverEventKind::BestSolution => "best_solution",
        SolverEventKind::PauseRequested => "pause_requested",
        SolverEventKind::Paused => "paused",
        SolverEventKind::Resumed => "resumed",
        SolverEventKind::Completed => "completed",
        SolverEventKind::Cancelled => "cancelled",
        SolverEventKind::Failed => "failed",
    }
}

/// Whether an event of this kind carries the solution it reports.
pub fn carries_solution(kind: SolverEventKind) -> (b: bool)
    ensures
        b == (kind == SolverEventKind::BestSolution || kind == SolverEventKind::Completed),
{
    match kind {
        SolverEventKind::BestSolution | SolverEventKind::Completed => true,
        _ => false,
    }
}

/// The event kind that re-announces a job's state to a new subscriber when
/// no snapshot is retained yet.
pub open spec fn bootstrap_kind(state: LifecycleState) -> SolverEventKind {
    match state {
        LifecycleState::Solving => SolverEventKind::Progress,
        LifecycleState::PauseRequested => SolverEventKind::PauseRequested,
        LifecycleState::Paused => SolverEventKind::Paused,
        LifecycleState::Completed => SolverEventKind::Completed,
        LifecycleState::Cancelled => SolverEventKind::Cancelled,
        LifecycleState::Failed => SolverEventKind::Failed,
    }
}

pub fn bootstrap_event_type(state: LifecycleState) -> (label: &'static str)
    ensures
        label@ == event_label(bootstrap_kind(state)),
{
    match state {
        LifecycleState::Solving => "progress",
        LifecycleState::PauseRequested => "pause_requested",
        LifecycleState::Paused => "paused",
        LifecycleState::Completed => "completed",
        LifecycleState::Cancelled => "cancelled",
        LifecycleState::Failed => "failed",
    }
}

/// As `bootstrap_event_type`, but a solving job with a retained snapshot is
/// announced with its best solution.
pub fn bootstrap_snapshot_event_type(state: LifecycleState) -> (label: &'static str)
    ensures
        label@ == if state == LifecycleState::Solving {
            event_label(SolverEventKind::BestSolution)
        } else {
            event_label(bootstrap_kind(state))
        },
{
    match state {
        LifecycleState::Solving => "best_solution",
        other => bootstrap_event_type(other),
    }
}

/// The score a snapshot event reports: the job status's own score when it
/// has one, else the score recorded with the snapshot.
pub fn status_or_snapshot_score<S>(status_score: Option<S>, snapshot_score: Option<S>) -> (score: Option<S>)
    ensures
        score == match status_score {
            Some(_) => status_score,
            None => snapshot_score,
        },
{
    match status_score {
        Some(score) => Some(score),
        None => snapshot_score,
    }
}

} // verus!
