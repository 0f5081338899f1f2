//! Orchestrator intermediate representation.

use vstd::prelude::*;

use crate::ir::ParameterIR;

verus! {

/// IR representation of an orchestrator.
#[derive(Debug)]
pub struct OrchestratorIR {
    /// Name of the orchestrator.
    pub name: String,
    /// Source file path.
    pub source_path: String,
    /// Aggregates this orchestrator depends on.
    pub dependencies: Vec<OrchestratorDependency>,
    /// Parameters of the orchestrate method.
    pub parameters: Vec<ParameterIR>,
    /// Whether the orchestrator is async.
    pub is_async: bool,
}

/// A dependency of an orchestrator.
#[derive(Debug)]
pub struct OrchestratorDependency {
    /// Name of the dependency parameter.
    pub name: String,
    /// Type of the dependency (aggregate name or adapter interface).
    pub typ: String,
    /// Whether the dependency is optional.
    pub optional: bool,
}

} // verus!
