pub mod app_data;
pub mod inputs;

pub use app_data::{available_demo_data, default_demo_data, to_slot, DemoData};
