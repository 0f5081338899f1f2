//! Language-agnostic intermediate representation of a domain: aggregates,
//! orchestrators and projections, independent of the source language.

pub mod access;
pub mod assoc;
pub mod aggregate;
pub mod orchestrator;
pub mod projection;

use vstd::prelude::*;

use crate::ir::aggregate::AggregateIR;
use crate::ir::orchestrator::OrchestratorIR;
use crate::ir::projection::ProjectionIR;
use crate::ir::access::AppConfig;

verus! {

/// Domain types that can be represented in the IR.
#[derive(Debug)]
pub enum DomainType {
    String,
    Number,
    Boolean,
    Array(Box<DomainType>),
    Option(Box<DomainType>),
    Object(ObjectType),
    Reference(String),
}

/// An object type with named fields.
#[derive(Debug)]
pub struct ObjectType {
    pub fields: Vec<FieldDef>,
}

/// A field definition.
#[derive(Debug)]
pub struct FieldDef {
    pub name: String,
    pub typ: DomainType,
    pub optional: bool,
}

/// A parameter to a command or function.
#[derive(Debug)]
pub struct ParameterIR {
    pub name: String,
    pub typ: DomainType,
}

/// Initial value for a state field. A number is carried as the literal text
/// that denotes it.
#[derive(Debug)]
pub enum InitialValue {
    String(String),
    Number(String),
    Boolean(bool),
    Null,
    EmptyArray,
    EmptyObject,
}

/// The complete domain IR containing all analyzed aggregates, orchestrators
/// and projections.
#[derive(Debug)]
pub struct DomainIR {
    pub aggregates: Vec<AggregateIR>,
    pub orchestrators: Vec<OrchestratorIR>,
    pub projections: Vec<ProjectionIR>,
    pub source_dir: String,
    /// App configuration for access control (parsed from index.ts).
    pub app_config: Option<AppConfig>,
}

impl DomainIR {
    /// An empty domain rooted at `source_dir`.
    pub fn new(source_dir: String) -> (r: Self)
        ensures
            r.aggregates@.len() == 0,
            r.orchestrators@.len() == 0,
            r.projections@.len() == 0,
            r.source_dir == source_dir,
            r.app_config is None,
    {
        DomainIR {
            aggregates: Vec::new(),
            orchestrators: Vec::new(),
            projections: Vec::new(),
            source_dir,
            app_config: None,
        }
    }
}

} // verus!
