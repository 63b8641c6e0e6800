pub mod assemble;
pub mod balance_workload;
pub mod candidate_availability;
pub mod complete_candidate;
pub mod complete_start;
pub mod minimize_completion;
pub mod minimize_idle_gaps;
pub mod no_candidate_overlap;
pub mod required_skills;
pub mod sums;
pub mod task_time_window;

pub use assemble::evaluate_all;
