pub mod dto;
pub mod routes;
pub mod sse;
pub mod telemetry;
