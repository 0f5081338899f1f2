//! Aggregate intermediate representation.

use vstd::prelude::*;

use crate::ir::{DomainType, InitialValue, ObjectType, ParameterIR};
use crate::ir::access::AccessLevel;

verus! {

/// IR representation of an aggregate.
#[derive(Debug)]
pub struct AggregateIR {
    /// Name of the aggregate (e.g. "Todo").
    pub name: String,
    /// Source file path.
    pub source_path: String,
    /// The state type.
    pub state: ObjectType,
    /// Initial values for state fields.
    pub initial_state: Vec<(String, InitialValue)>,
    /// The event type (discriminated union).
    pub events: EventTypeIR,
    /// Commands that can be executed on this aggregate.
    pub commands: Vec<CommandIR>,
    /// Raw apply method body from source, used verbatim by codegen when present.
    pub raw_apply_body: Option<String>,
}

/// IR representation of an event type (discriminated union).
#[derive(Debug)]
pub struct EventTypeIR {
    /// Name of the event type (e.g. "TodoEvent").
    pub name: String,
    /// Event variants.
    pub variants: Vec<EventVariant>,
}

/// A single event variant.
#[derive(Debug)]
pub struct EventVariant {
    /// The discriminant value (e.g. "Created").
    pub name: String,
    /// Fields of this variant.
    pub fields: Vec<EventField>,
}

/// A field of an event variant.
#[derive(Debug)]
pub struct EventField {
    pub name: String,
    pub typ: DomainType,
}

/// IR representation of a command method.
#[derive(Debug)]
pub struct CommandIR {
    /// Name of the command (e.g. "create").
    pub name: String,
    /// Parameters of the command.
    pub parameters: Vec<ParameterIR>,
    /// The body statements.
    pub body: Vec<StatementIR>,
    /// Access level of the command endpoint.
    pub access: AccessLevel,
    /// Roles required to call the command.
    pub roles: Vec<String>,
}

/// IR representation of a statement.
#[derive(Debug)]
pub enum StatementIR {
    /// if (condition) { then_branch } else { else_branch }
    If {
        condition: ExpressionIR,
        then_branch: Vec<StatementIR>,
        else_branch: Option<Vec<StatementIR>>,
    },
    /// throw new Error("message")
    Throw { message: String },
    /// this.emit({ type: "...", ... })
    Emit { event_type: String, fields: Vec<(String, ExpressionIR)> },
    /// const/let name = value
    Let { name: String, value: ExpressionIR },
    /// Expression statement.
    Expression(ExpressionIR),
    /// Return statement.
    Return(Option<ExpressionIR>),
}

/// IR representation of an expression. A number literal is carried as the
/// text that denotes it.
#[derive(Debug)]
pub enum ExpressionIR {
    StringLiteral(String),
    NumberLiteral(String),
    BooleanLiteral(bool),
    Identifier(String),
    /// this.state.field
    StateAccess(String),
    /// obj.field
    PropertyAccess { object: Box<ExpressionIR>, property: String },
    /// obj.method(args)
    MethodCall { object: Box<ExpressionIR>, method: String, arguments: Vec<ExpressionIR> },
    /// func(args)
    Call { callee: String, arguments: Vec<ExpressionIR> },
    /// new Type(args)
    New { callee: String, arguments: Vec<ExpressionIR> },
    /// left op right
    Binary { left: Box<ExpressionIR>, operator: BinaryOp, right: Box<ExpressionIR> },
    /// op operand
    Unary { operator: UnaryOp, operand: Box<ExpressionIR> },
    /// { field: value, ... }
    Object(Vec<(String, ExpressionIR)>),
    /// [ ... ]
    Array(Vec<ExpressionIR>),
}

/// Binary operators.
#[derive(Debug, Clone, Copy, PartialEq, Eq, Structural)]
pub enum BinaryOp {
    Eq,
    NotEq,
    Lt,
    LtEq,
    Gt,
    GtEq,
    And,
    Or,
    Add,
    Sub,
    Mul,
    Div,
}

/// Unary operators.
#[derive(Debug, Clone, Copy, PartialEq, Eq, Structural)]
pub enum UnaryOp {
    Not,
    Neg,
}

} // verus!
