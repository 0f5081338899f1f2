pub mod error;
pub mod crypto;
pub mod telemetry;
pub mod operation;
pub mod bindings;
pub mod telemetry_query;
pub mod telemetry_write;
pub mod projection_config;
