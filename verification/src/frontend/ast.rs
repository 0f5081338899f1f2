//! TypeScript abstract syntax of domain source files. A number literal is
//! carried as its source text.

use vstd::prelude::*;

use crate::diagnostic::{Span, SpanView};

verus! {

/// A parsed TypeScript file.
#[derive(Debug)]
pub struct ParsedFile {
    pub path: String,
    pub imports: Vec<ImportDecl>,
    pub type_aliases: Vec<TypeAlias>,
    pub classes: Vec<ClassDecl>,
}

/// An import declaration.
#[derive(Debug)]
pub struct ImportDecl {
    pub specifiers: Vec<ImportSpecifier>,
    pub source: String,
    pub span: Span,
}

/// An import specifier.
#[derive(Debug)]
pub struct ImportSpecifier {
    pub name: String,
    pub alias: Option<String>,
}

/// A type alias declaration.
#[derive(Debug)]
pub struct TypeAlias {
    pub name: String,
    pub type_node: TypeNode,
    pub exported: bool,
    pub span: Span,
}

/// Type syntax.
#[derive(Debug)]
pub enum TypeNode {
    /// string, number, boolean, a literal type, ...
    Primitive(String),
    /// T[]
    Array(Box<TypeNode>),
    /// T | U
    Union(Vec<TypeNode>),
    /// { type: "Foo", field: T }
    ObjectLiteral(Vec<ObjectProperty>),
    /// { [key: string]: T }
    IndexSignature { key_name: String, key_type: Box<TypeNode>, value_type: Box<TypeNode> },
    /// Reference to another type.
    Reference(String),
    /// T | undefined
    Optional(Box<TypeNode>),
}

/// A property of an object literal type.
#[derive(Debug)]
pub struct ObjectProperty {
    pub name: String,
    pub type_node: TypeNode,
    pub optional: bool,
}

/// A class declaration.
#[derive(Debug)]
pub struct ClassDecl {
    pub name: String,
    pub properties: Vec<PropertyDecl>,
    pub methods: Vec<MethodDecl>,
    pub exported: bool,
    pub span: Span,
}

/// A class property declaration.
#[derive(Debug)]
pub struct PropertyDecl {
    pub name: String,
    pub type_node: Option<TypeNode>,
    pub is_static: bool,
    pub is_readonly: bool,
    pub initializer: Option<String>,
    pub span: Span,
}

/// A method declaration.
#[derive(Debug)]
pub struct MethodDecl {
    pub name: String,
    pub parameters: Vec<Parameter>,
    pub return_type: Option<TypeNode>,
    pub body: Vec<Statement>,
    /// Raw source text of the method body.
    pub raw_body: Option<String>,
    pub is_async: bool,
    pub visibility: Visibility,
    pub span: Span,
}

/// Method visibility.
#[derive(Debug, Clone, Copy, PartialEq, Eq, Structural)]
pub enum Visibility {
    Public,
    Protected,
    Private,
}

/// A parameter.
#[derive(Debug)]
pub struct Parameter {
    pub name: String,
    pub type_node: Option<TypeNode>,
    pub optional: bool,
    pub default_value: Option<String>,
}

/// A statement.
#[derive(Debug)]
pub enum Statement {
    If { condition: Expression, then_branch: Vec<Statement>, else_branch: Option<Vec<Statement>>, span: Span },
    Switch { discriminant: Expression, cases: Vec<SwitchCase>, span: Span },
    Return { value: Option<Expression>, span: Span },
    Throw { argument: Expression, span: Span },
    Expression { expression: Expression, span: Span },
    VariableDecl { kind: VarKind, name: String, type_node: Option<TypeNode>, initializer: Option<Expression>, span: Span },
    Block { statements: Vec<Statement>, span: Span },
}

/// Variable declaration kind.
#[derive(Debug, Clone, Copy, PartialEq, Eq, Structural)]
pub enum VarKind {
    Const,
    Let,
    Var,
}

/// A switch case; `test` is None for the default case.
#[derive(Debug)]
pub struct SwitchCase {
    pub test: Option<Expression>,
    pub consequent: Vec<Statement>,
}

/// An expression.
#[derive(Debug)]
pub enum Expression {
    Identifier { name: String, span: Span },
    StringLiteral { value: String, span: Span },
    NumberLiteral { value: String, span: Span },
    BooleanLiteral { value: bool, span: Span },
    NullLiteral { span: Span },
    ArrayLiteral { elements: Vec<Expression>, span: Span },
    ObjectLiteral { properties: Vec<(String, Expression)>, span: Span },
    MemberAccess { object: Box<Expression>, property: String, span: Span },
    Call { callee: Box<Expression>, arguments: Vec<Expression>, span: Span },
    New { callee: Box<Expression>, arguments: Vec<Expression>, span: Span },
    Binary { left: Box<Expression>, operator: String, right: Box<Expression>, span: Span },
    Unary { operator: String, argument: Box<Expression>, prefix: bool, span: Span },
    This { span: Span },
    Await { argument: Box<Expression>, span: Span },
    Spread { argument: Box<Expression>, span: Span },
}

// ---------------------------------------------------------------------------
// Views: the same syntax with strings as character sequences.
// ---------------------------------------------------------------------------

/// An expression as plain values.
pub enum ExpressionView {
    Identifier { name: Seq<char>, span: SpanView },
    StringLiteral { value: Seq<char>, span: SpanView },
    NumberLiteral { value: Seq<char>, span: SpanView },
    BooleanLiteral { value: bool, span: SpanView },
    NullLiteral { span: SpanView },
    ArrayLiteral { elements: Seq<ExpressionView>, span: SpanView },
    ObjectLiteral { properties: Seq<(Seq<char>, ExpressionView)>, span: SpanView },
    MemberAccess { object: Box<ExpressionView>, property: Seq<char>, span: SpanView },
    Call { callee: Box<ExpressionView>, arguments: Seq<ExpressionView>, span: SpanView },
    New { callee: Box<ExpressionView>, arguments: Seq<ExpressionView>, span: SpanView },
    Binary { left: Box<ExpressionView>, operator: Seq<char>, right: Box<ExpressionView>, span: SpanView },
    Unary { operator: Seq<char>, argument: Box<ExpressionView>, prefix: bool, span: SpanView },
    This { span: SpanView },
    Await { argument: Box<ExpressionView>, span: SpanView },
    Spread { argument: Box<ExpressionView>, span: SpanView },
}

/// The view of each expression of a list.
pub open spec fn expr_views(es: Seq<Expression>) -> Seq<ExpressionView>
    decreases es,
{
    Seq::new(es.len(), |k: int| if 0 <= k < es.len() { expr_view(es[k]) } else { ExpressionView::NullLiteral { span: (Seq::empty(), 0, 0, 0, 0) } })
}

/// The view of an expression.
pub open spec fn expr_view(e: Expression) -> ExpressionView
    decreases e,
{
    match e {
        Expression::Identifier { name, span } => ExpressionView::Identifier { name: name@, span: span@ },
        Expression::StringLiteral { value, span } => ExpressionView::StringLiteral { value: value@, span: span@ },
        Expression::NumberLiteral { value, span } => ExpressionView::NumberLiteral { value: value@, span: span@ },
        Expression::BooleanLiteral { value, span } => ExpressionView::BooleanLiteral { value, span: span@ },
        Expression::NullLiteral { span } => ExpressionView::NullLiteral { span: span@ },
        Expression::ArrayLiteral { elements, span } => ExpressionView::ArrayLiteral {
            elements: Seq::new(elements@.len(), |k: int| if 0 <= k < elements@.len() { expr_view(elements@[k]) } else { ExpressionView::NullLiteral { span: span@ } }),
            span: span@,
        },
        Expression::ObjectLiteral { properties, span } => ExpressionView::ObjectLiteral {
            properties: Seq::new(properties@.len(), |k: int| if 0 <= k < properties@.len() {
                (properties@[k].0@, expr_view(properties@[k].1))
            } else {
                (Seq::empty(), ExpressionView::NullLiteral { span: span@ })
            }),
            span: span@,
        },
        Expression::MemberAccess { object, property, span } => ExpressionView::MemberAccess {
            object: Box::new(expr_view(*object)),
            property: property@,
            span: span@,
        },
        Expression::Call { callee, arguments, span } => ExpressionView::Call {
            callee: Box::new(expr_view(*callee)),
            arguments: Seq::new(arguments@.len(), |k: int| if 0 <= k < arguments@.len() { expr_view(arguments@[k]) } else { ExpressionView::NullLiteral { span: span@ } }),
            span: span@,
        },
        Expression::New { callee, arguments, span } => ExpressionView::New {
            callee: Box::new(expr_view(*callee)),
            arguments: Seq::new(arguments@.len(), |k: int| if 0 <= k < arguments@.len() { expr_view(arguments@[k]) } else { ExpressionView::NullLiteral { span: span@ } }),
            span: span@,
        },
        Expression::Binary { left, operator, right, span } => ExpressionView::Binary {
            left: Box::new(expr_view(*left)),
            operator: operator@,
            right: Box::new(expr_view(*right)),
            span: span@,
        },
        Expression::Unary { operator, argument, prefix, span } => ExpressionView::Unary {
            operator: operator@,
            argument: Box::new(expr_view(*argument)),
            prefix,
            span: span@,
        },
        Expression::This { span } => ExpressionView::This { span: span@ },
        Expression::Await { argument, span } => ExpressionView::Await { argument: Box::new(expr_view(*argument)), span: span@ },
        Expression::Spread { argument, span } => ExpressionView::Spread { argument: Box::new(expr_view(*argument)), span: span@ },
    }
}

impl View for Expression {
    type V = ExpressionView;

    open spec fn view(&self) -> ExpressionView {
        expr_view(*self)
    }
}

/// A type as plain values.
pub enum TypeNodeView {
    Primitive(Seq<char>),
    Array(Box<TypeNodeView>),
    Union(Seq<TypeNodeView>),
    ObjectLiteral(Seq<ObjectPropertyView>),
    IndexSignature { key_name: Seq<char>, key_type: Box<TypeNodeView>, value_type: Box<TypeNodeView> },
    Reference(Seq<char>),
    Optional(Box<TypeNodeView>),
}

/// A property of an object type as plain values: name, type, optional.
pub type ObjectPropertyView = (Seq<char>, TypeNodeView, bool);

/// The view of a type.
pub open spec fn type_view(t: TypeNode) -> TypeNodeView
    decreases t,
{
    match t {
        TypeNode::Primitive(s) => TypeNodeView::Primitive(s@),
        TypeNode::Array(inner) => TypeNodeView::Array(Box::new(type_view(*inner))),
        TypeNode::Union(ms) => TypeNodeView::Union(
            Seq::new(ms@.len(), |k: int| if 0 <= k < ms@.len() { type_view(ms@[k]) } else { TypeNodeView::Primitive(Seq::empty()) }),
        ),
        TypeNode::ObjectLiteral(ps) => TypeNodeView::ObjectLiteral(
            Seq::new(ps@.len(), |k: int| if 0 <= k < ps@.len() {
                (ps@[k].name@, type_view(ps@[k].type_node), ps@[k].optional)
            } else {
                (Seq::empty(), TypeNodeView::Primitive(Seq::empty()), false)
            }),
        ),
        TypeNode::IndexSignature { key_name, key_type, value_type } => TypeNodeView::IndexSignature {
            key_name: key_name@,
            key_type: Box::new(type_view(*key_type)),
            value_type: Box::new(type_view(*value_type)),
        },
        TypeNode::Reference(s) => TypeNodeView::Reference(s@),
        TypeNode::Optional(inner) => TypeNodeView::Optional(Box::new(type_view(*inner))),
    }
}

impl View for TypeNode {
    type V = TypeNodeView;

    open spec fn view(&self) -> TypeNodeView {
        type_view(*self)
    }
}

/// The view of an optional type.
pub open spec fn opt_type_view(t: Option<TypeNode>) -> Option<TypeNodeView> {
    match t {
        Some(t) => Some(type_view(t)),
        None => None,
    }
}

/// The view of an optional expression.
pub open spec fn opt_expr_view(e: Option<Expression>) -> Option<ExpressionView> {
    match e {
        Some(e) => Some(expr_view(e)),
        None => None,
    }
}

/// The view of an optional string.
pub open spec fn opt_str_view(s: Option<String>) -> Option<Seq<char>> {
    match s {
        Some(s) => Some(s@),
        None => None,
    }
}

/// A statement as plain values.
pub enum StatementView {
    If { condition: ExpressionView, then_branch: Seq<StatementView>, else_branch: Option<Seq<StatementView>>, span: SpanView },
    Switch { discriminant: ExpressionView, cases: Seq<SwitchCaseView>, span: SpanView },
    Return { value: Option<ExpressionView>, span: SpanView },
    Throw { argument: ExpressionView, span: SpanView },
    Expression { expression: ExpressionView, span: SpanView },
    VariableDecl { kind: VarKind, name: Seq<char>, type_node: Option<TypeNodeView>, initializer: Option<ExpressionView>, span: SpanView },
    Block { statements: Seq<StatementView>, span: SpanView },
}

/// A switch case as plain values: the test (none for `default`) and the
/// statements.
pub type SwitchCaseView = (Option<ExpressionView>, Seq<StatementView>);

/// The view of a statement.
pub open spec fn stmt_view(s: Statement) -> StatementView
    decreases s,
{
    match s {
        Statement::If { condition, then_branch, else_branch, span } => StatementView::If {
            condition: expr_view(condition),
            then_branch: Seq::new(then_branch@.len(), |k: int| if 0 <= k < then_branch@.len() { stmt_view(then_branch@[k]) } else { StatementView::Block { statements: Seq::empty(), span: span@ } }),
            else_branch: match else_branch {
                Some(b) => Some(Seq::new(b@.len(), |k: int| if 0 <= k < b@.len() { stmt_view(b@[k]) } else { StatementView::Block { statements: Seq::empty(), span: span@ } })),
                None => None,
            },
            span: span@,
        },
        Statement::Switch { discriminant, cases, span } => StatementView::Switch {
            discriminant: expr_view(discriminant),
            cases: Seq::new(cases@.len(), |k: int| if 0 <= k < cases@.len() {
                (opt_expr_view(cases@[k].test), Seq::new(cases@[k].consequent@.len(), |j: int| if 0 <= j < cases@[k].consequent@.len() {
                    stmt_view(cases@[k].consequent@[j])
                } else {
                    StatementView::Block { statements: Seq::empty(), span: span@ }
                }))
            } else {
                (None, Seq::empty())
            }),
            span: span@,
        },
        Statement::Return { value, span } => StatementView::Return { value: opt_expr_view(value), span: span@ },
        Statement::Throw { argument, span } => StatementView::Throw { argument: expr_view(argument), span: span@ },
        Statement::Expression { expression, span } => StatementView::Expression { expression: expr_view(expression), span: span@ },
        Statement::VariableDecl { kind, name, type_node, initializer, span } => StatementView::VariableDecl {
            kind,
            name: name@,
            type_node: opt_type_view(type_node),
            initializer: opt_expr_view(initializer),
            span: span@,
        },
        Statement::Block { statements, span } => StatementView::Block {
            statements: Seq::new(statements@.len(), |k: int| if 0 <= k < statements@.len() { stmt_view(statements@[k]) } else { StatementView::Block { statements: Seq::empty(), span: span@ } }),
            span: span@,
        },
    }
}

impl View for Statement {
    type V = StatementView;

    open spec fn view(&self) -> StatementView {
        stmt_view(*self)
    }
}

/// The view of each statement of a list.
pub open spec fn stmt_views(ss: Seq<Statement>) -> Seq<StatementView> {
    Seq::new(ss.len(), |k: int| stmt_view(ss[k]))
}

/// The view of a switch case.
pub open spec fn case_view(c: SwitchCase) -> SwitchCaseView {
    (opt_expr_view(c.test), stmt_views(c.consequent@))
}

/// An import specifier as plain values: name and alias.
pub type ImportSpecifierView = (Seq<char>, Option<Seq<char>>);

/// The view of an import specifier.
pub open spec fn import_specifier_view(s: ImportSpecifier) -> ImportSpecifierView {
    (s.name@, opt_str_view(s.alias))
}

/// An import declaration as plain values: specifiers, source, span.
pub type ImportDeclView = (Seq<ImportSpecifierView>, Seq<char>, SpanView);

/// The view of an import declaration.
pub open spec fn import_view(d: ImportDecl) -> ImportDeclView {
    (Seq::new(d.specifiers@.len(), |k: int| import_specifier_view(d.specifiers@[k])), d.source@, d.span@)
}

/// A type alias as plain values: name, type, exported, span.
pub type TypeAliasView = (Seq<char>, TypeNodeView, bool, SpanView);

/// The view of a type alias.
pub open spec fn alias_view(a: TypeAlias) -> TypeAliasView {
    (a.name@, type_view(a.type_node), a.exported, a.span@)
}

/// A class property as plain values.
pub struct PropertyDeclView {
    pub name: Seq<char>,
    pub type_node: Option<TypeNodeView>,
    pub is_static: bool,
    pub is_readonly: bool,
    pub initializer: Option<Seq<char>>,
    pub span: SpanView,
}

/// The view of a class property.
pub open spec fn property_decl_view(p: PropertyDecl) -> PropertyDeclView {
    PropertyDeclView {
        name: p.name@,
        type_node: opt_type_view(p.type_node),
        is_static: p.is_static,
        is_readonly: p.is_readonly,
        initializer: opt_str_view(p.initializer),
        span: p.span@,
    }
}

/// A parameter as plain values: name, type, optional, default value.
pub type ParameterView = (Seq<char>, Option<TypeNodeView>, bool, Option<Seq<char>>);

/// The view of a parameter.
pub open spec fn parameter_view(p: Parameter) -> ParameterView {
    (p.name@, opt_type_view(p.type_node), p.optional, opt_str_view(p.default_value))
}

/// A method as plain values.
pub struct MethodDeclView {
    pub name: Seq<char>,
    pub parameters: Seq<ParameterView>,
    pub return_type: Option<TypeNodeView>,
    pub body: Seq<StatementView>,
    pub raw_body: Option<Seq<char>>,
    pub is_async: bool,
    pub visibility: Visibility,
    pub span: SpanView,
}

/// The view of a method.
pub open spec fn method_view(m: MethodDecl) -> MethodDeclView {
    MethodDeclView {
        name: m.name@,
        parameters: Seq::new(m.parameters@.len(), |k: int| parameter_view(m.parameters@[k])),
        return_type: opt_type_view(m.return_type),
        body: stmt_views(m.body@),
        raw_body: opt_str_view(m.raw_body),
        is_async: m.is_async,
        visibility: m.visibility,
        span: m.span@,
    }
}

/// A class as plain values.
pub struct ClassDeclView {
    pub name: Seq<char>,
    pub properties: Seq<PropertyDeclView>,
    pub methods: Seq<MethodDeclView>,
    pub exported: bool,
    pub span: SpanView,
}

/// The view of a class.
pub open spec fn class_view(c: ClassDecl) -> ClassDeclView {
    ClassDeclView {
        name: c.name@,
        properties: Seq::new(c.properties@.len(), |k: int| property_decl_view(c.properties@[k])),
        methods: Seq::new(c.methods@.len(), |k: int| method_view(c.methods@[k])),
        exported: c.exported,
        span: c.span@,
    }
}

/// The declarations of a file as plain values: imports, type aliases,
/// classes.
pub type DeclarationsView = (Seq<ImportDeclView>, Seq<TypeAliasView>, Seq<ClassDeclView>);

/// The declarations of a parsed file.
pub open spec fn declarations_view(f: ParsedFile) -> DeclarationsView {
    (
        Seq::new(f.imports@.len(), |k: int| import_view(f.imports@[k])),
        Seq::new(f.type_aliases@.len(), |k: int| alias_view(f.type_aliases@[k])),
        Seq::new(f.classes@.len(), |k: int| class_view(f.classes@[k])),
    )
}

} // verus!
