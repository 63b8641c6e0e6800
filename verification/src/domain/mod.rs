mod candidate;
mod plan;
mod task;

pub use candidate::Candidate;
pub use plan::Plan;
pub use task::Task;

use vstd::prelude::*;

verus! {

/// Half-hour slots in one workday (09:00 to 18:00).
pub const SLOTS_PER_DAY: usize = 18;

/// Slots in the five-day planning horizon.
pub const HORIZON_SLOTS: usize = 90;

} // verus!
