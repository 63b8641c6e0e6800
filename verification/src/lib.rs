//! Team calendar planning model: discovered candidates, tasks to staff and
//! schedule, the scoring rules that judge a plan, and the plain-data pieces of
//! the job and telemetry interface.

pub mod api;
pub mod constraints;
pub mod data;
pub mod domain;
pub mod score;
pub mod solver;
pub mod text;
