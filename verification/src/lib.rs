//! Verified core of the SpiteStack toolchain: the domain compiler (TypeScript
//! domain logic to IR to generated TypeScript wiring) and the pure parts of the
//! SpiteDB telemetry store.

pub mod text;
pub mod ir;
pub mod diagnostic;
pub mod codegen;
pub mod config;
pub mod frontend;
pub mod schema;
pub mod validate;
pub mod store;
