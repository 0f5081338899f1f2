//! Conversion of the TypeScript syntax of domain files to the
//! language-agnostic IR. The conversion is described relationally:
//! `converted_*` holds exactly of the IR value the converter produces.

use vstd::prelude::*;

use crate::frontend::ast::{ClassDecl, Expression, MethodDecl, ObjectProperty, ParsedFile, Statement, TypeAlias, TypeNode, Visibility};
use crate::diagnostic::CompilerError;
use crate::ir::access::AccessLevel;
use crate::ir::aggregate::{AggregateIR, BinaryOp, CommandIR, EventField, EventTypeIR, EventVariant, ExpressionIR, StatementIR, UnaryOp};
use crate::codegen::aggregate::spec_binary_op;
use crate::codegen::ts_types::{spec_snake_case, to_snake_case};
use crate::ir::projection::{
    contains_any, is_range_param, is_time_related_name, spec_range_params, spec_sql_type_of, spec_time_keywords,
    spec_time_string_methods, spec_timestamp_fields, time_string_methods, timestamp_fields, ColumnDef, IndexDef,
    ProjectionIR, ProjectionKind, ProjectionSchema, QueryMethodIR, SqlType, StateShape, SubscribedEvent,
    TimeSeriesSignals,
};
use crate::ir::{DomainType, FieldDef, ObjectType, ParameterIR};
use crate::text::{contains, seq_contains, spec_str_lowercase, str_to_lowercase};
use crate::ir::InitialValue;
use crate::text::{
    find_char, spec_split, spec_trim, spec_trim_char, spec_trim_end_char, spec_trim_start_char,
    split_char, split_once_char, str_eq, trim, trim_char, trim_end_char, trim_start_char, views,
};

verus! {

// ---------------------------------------------------------------------------
// Types
// ---------------------------------------------------------------------------

/// Whether a type is the primitive `undefined`.
pub open spec fn is_undefined_type(t: TypeNode) -> bool {
    t matches TypeNode::Primitive(s) && s@ == "undefined"@
}

/// Every union in the type has at least one member.
pub open spec fn type_ok(t: TypeNode) -> bool
    decreases t,
{
    match t {
        TypeNode::Primitive(_) => true,
        TypeNode::Reference(_) => true,
        TypeNode::Array(inner) => type_ok(*inner),
        TypeNode::Optional(inner) => type_ok(*inner),
        TypeNode::Union(ms) => ms@.len() > 0 && forall|k: int| 0 <= k < ms@.len() ==> type_ok(#[trigger] ms@[k]),
        TypeNode::ObjectLiteral(ps) => forall|k: int| 0 <= k < ps@.len() ==> type_ok(#[trigger] ps@[k].type_node),
        TypeNode::IndexSignature { value_type, .. } => type_ok(*value_type),
    }
}

/// The number of members among the first `n` that are not `undefined`.
pub open spec fn count_defined(ms: Seq<TypeNode>, n: int) -> int
    decreases n,
{
    if n <= 0 || n > ms.len() {
        0
    } else {
        count_defined(ms, n - 1) + if is_undefined_type(ms[n - 1]) { 0int } else { 1int }
    }
}

/// The index of the first member at or after `i` that is not `undefined`, or -1.
pub open spec fn first_defined(ms: Seq<TypeNode>, i: int) -> int
    decreases ms.len() - i,
{
    if i < 0 || i >= ms.len() {
        -1
    } else if !is_undefined_type(ms[i]) {
        i
    } else {
        first_defined(ms, i + 1)
    }
}

/// `d` is the domain type of the type syntax `t`: primitives by name (any other
/// primitive, such as a literal, is a string), an index signature by its value
/// type, a union of one defined member and `undefined`s as optional, and any
/// other union by its first member.
pub open spec fn converted_type(t: TypeNode, d: DomainType) -> bool
    decreases t,
{
    match t {
        TypeNode::Primitive(name) => if name@ == "string"@ {
            d matches DomainType::String
        } else if name@ == "number"@ {
            d matches DomainType::Number
        } else if name@ == "boolean"@ {
            d matches DomainType::Boolean
        } else {
            d matches DomainType::String
        },
        TypeNode::Array(inner) => d matches DomainType::Array(di) && converted_type(*inner, *di),
        TypeNode::Optional(inner) => d matches DomainType::Option(di) && converted_type(*inner, *di),
        TypeNode::Reference(name) => d matches DomainType::Reference(dn) && dn@ == name@,
        TypeNode::ObjectLiteral(ps) => d matches DomainType::Object(o) && o.fields@.len() == ps@.len() && forall|k: int|
            0 <= k < ps@.len() ==> {
                &&& #[trigger] o.fields@[k].name@ == ps@[k].name@
                &&& o.fields@[k].optional == ps@[k].optional
                &&& converted_type(ps@[k].type_node, o.fields@[k].typ)
            },
        TypeNode::IndexSignature { value_type, .. } => converted_type(*value_type, d),
        TypeNode::Union(ms) => if count_defined(ms@, ms@.len() as int) == 1 {
            let i = first_defined(ms@, 0);
            &&& 0 <= i < ms@.len()
            &&& d matches DomainType::Option(di) && converted_type(ms@[i], *di)
        } else {
            ms@.len() > 0 && converted_type(ms@[0], d)
        },
    }
}

proof fn lemma_first_defined(ms: Seq<TypeNode>, i: int, j: int)
    requires
        0 <= i <= j <= ms.len(),
        forall|m: int| i <= m < j ==> is_undefined_type(ms[m]),
        j == ms.len() || !is_undefined_type(ms[j]),
    ensures
        first_defined(ms, i) == if j == ms.len() { -1 } else { j },
    decreases j - i,
{
    if i < j {
        lemma_first_defined(ms, i + 1, j);
    }
}

fn is_undefined(t: &TypeNode) -> (r: bool)
    ensures
        r == is_undefined_type(*t),
{
    match t {
        TypeNode::Primitive(s) => str_eq(s.as_str(), "undefined"),
        _ => false,
    }
}

/// Converts type syntax to a domain type.
pub fn convert_type_node(node: &TypeNode) -> (r: DomainType)
    requires
        type_ok(*node),
    ensures
        converted_type(*node, r),
    decreases node,
{
    match node {
        TypeNode::Primitive(name) => {
            if str_eq(name.as_str(), "string") {
                DomainType::String
            } else if str_eq(name.as_str(), "number") {
                DomainType::Number
            } else if str_eq(name.as_str(), "boolean") {
                DomainType::Boolean
            } else {
                DomainType::String
            }
        },
        TypeNode::Array(inner) => DomainType::Array(Box::new(convert_type_node(inner))),
        TypeNode::Optional(inner) => DomainType::Option(Box::new(convert_type_node(inner))),
        TypeNode::Reference(name) => DomainType::Reference(name.clone()),
        TypeNode::ObjectLiteral(props) => {
            let mut fields: Vec<FieldDef> = Vec::new();
            let mut i: usize = 0;
            while i < props.len()
                invariant
                    i <= props@.len(),
                    *node == TypeNode::ObjectLiteral(*props),
                    forall|k: int| 0 <= k < props@.len() ==> type_ok(#[trigger] props@[k].type_node),
                    fields@.len() == i,
                    forall|k: int|
                        0 <= k < i ==> {
                            &&& #[trigger] fields@[k].name@ == props@[k].name@
                            &&& fields@[k].optional == props@[k].optional
                            &&& converted_type(props@[k].type_node, fields@[k].typ)
                        },
                decreases props.len() - i,
            {
                let p = &props[i];
                proof {
                    let ghost tn = *node;
                    assert(tn->ObjectLiteral_0 == *props);
                    assert(decreases_to!(tn => tn->ObjectLiteral_0));
                    assert(decreases_to!(tn => tn->ObjectLiteral_0@));
                    assert(decreases_to!(tn => props@[i as int]));
                    assert(decreases_to!(tn => props@[i as int].type_node));
                }
                let typ = convert_type_node(&p.type_node);
                fields.push(FieldDef { name: p.name.clone(), typ, optional: p.optional });
                i = i + 1;
            }
            DomainType::Object(ObjectType { fields })
        },
        TypeNode::IndexSignature { value_type, .. } => convert_type_node(value_type),
        TypeNode::Union(members) => {
            let mut count: usize = 0;
            let mut first: usize = members.len();
            let mut i: usize = 0;
            while i < members.len()
                invariant
                    i <= members@.len(),
                    count as int == count_defined(members@, i as int),
                    count <= i,
                    first <= members@.len(),
                    first < i ==> !is_undefined_type(members@[first as int]) && (forall|m: int|
                        0 <= m < first ==> is_undefined_type(members@[m])),
                    first >= i ==> first == members@.len() && (forall|m: int|
                        0 <= m < i ==> is_undefined_type(members@[m])),
                decreases members.len() - i,
            {
                if !is_undefined(&members[i]) {
                    if first == members.len() {
                        first = i;
                    }
                    count = count + 1;
                }
                i = i + 1;
            }
            if count == 1 {
                proof {
                    lemma_first_defined(members@, 0, first as int);
                    if first == members@.len() {
                        assert(count_defined(members@, members@.len() as int) == 0) by {
                            lemma_count_defined_zero(members@, members@.len() as int);
                        }
                    }
                }
                assert(decreases_to!(*node => members@[first as int]));
                DomainType::Option(Box::new(convert_type_node(&members[first])))
            } else {
                assert(decreases_to!(*node => members@[0]));
                convert_type_node(&members[0])
            }
        },
    }
}

proof fn lemma_count_defined_zero(ms: Seq<TypeNode>, n: int)
    requires
        0 <= n <= ms.len(),
        forall|m: int| 0 <= m < n ==> is_undefined_type(ms[m]),
    ensures
        count_defined(ms, n) == 0,
    decreases n,
{
    if n > 0 {
        lemma_count_defined_zero(ms, n - 1);
    }
}

// ---------------------------------------------------------------------------
// Expressions
// ---------------------------------------------------------------------------

/// The binary operator of an operator token; an unknown token is `===`.
pub open spec fn spec_binary_op_of(op: Seq<char>) -> BinaryOp {
    if op == "==="@ || op == "=="@ {
        BinaryOp::Eq
    } else if op == "!=="@ || op == "!="@ {
        BinaryOp::NotEq
    } else if op == "<"@ {
        BinaryOp::Lt
    } else if op == "<="@ {
        BinaryOp::LtEq
    } else if op == ">"@ {
        BinaryOp::Gt
    } else if op == ">="@ {
        BinaryOp::GtEq
    } else if op == "&&"@ {
        BinaryOp::And
    } else if op == "||"@ {
        BinaryOp::Or
    } else if op == "+"@ {
        BinaryOp::Add
    } else if op == "-"@ {
        BinaryOp::Sub
    } else if op == "*"@ {
        BinaryOp::Mul
    } else if op == "/"@ {
        BinaryOp::Div
    } else {
        BinaryOp::Eq
    }
}

/// Reading back the token that an operator is written as gives that operator,
/// so distinct operators have distinct tokens and each token keeps its meaning
/// (`<=` is less-or-equal, never less-than); the loose tokens `==` and `!=`
/// read as the strict ones.
pub proof fn law_binary_op_token_round_trip(op: BinaryOp)
    ensures
        spec_binary_op_of(spec_binary_op(op)) == op,
        spec_binary_op_of("=="@) == BinaryOp::Eq,
        spec_binary_op_of("!="@) == BinaryOp::NotEq,
{
    reveal_strlit("===");
    reveal_strlit("==");
    reveal_strlit("!==");
    reveal_strlit("!=");
    reveal_strlit("<");
    reveal_strlit("<=");
    reveal_strlit(">");
    reveal_strlit(">=");
    reveal_strlit("&&");
    reveal_strlit("||");
    reveal_strlit("+");
    reveal_strlit("-");
    reveal_strlit("*");
    reveal_strlit("/");
    let t = spec_binary_op(op);
    assert(t.len() >= 1);
    match op {
        BinaryOp::Eq => {},
        BinaryOp::NotEq => {
            assert(t[0] != "==="@[0]);
            assert(t[0] != "=="@[0]);
        },
        BinaryOp::Lt => {
            assert(t[0] != "==="@[0] && t[0] != "=="@[0] && t[0] != "!=="@[0] && t[0] != "!="@[0]);
        },
        BinaryOp::LtEq => {
            assert(t[0] != "==="@[0] && t[0] != "=="@[0] && t[0] != "!=="@[0] && t[0] != "!="@[0]);
        },
        BinaryOp::Gt => {
            assert(t[0] != "==="@[0] && t[0] != "!=="@[0] && t[0] != "<"@[0] && t[0] != "<="@[0]);
        },
        BinaryOp::GtEq => {
            assert(t[0] != "=="@[0] && t[0] != "!="@[0] && t[0] != "<="@[0]);
        },
        BinaryOp::And => {
            assert(t[0] != "=="@[0] && t[0] != "!="@[0] && t[0] != "<="@[0] && t[0] != ">="@[0]);
        },
        BinaryOp::Or => {
            assert(t[0] != "=="@[0] && t[0] != "!="@[0] && t[0] != "<="@[0] && t[0] != ">="@[0]
                && t[0] != "&&"@[0]);
        },
        BinaryOp::Add => {
            assert(t[0] != "<"@[0] && t[0] != ">"@[0]);
        },
        BinaryOp::Sub => {
            assert(t[0] != "<"@[0] && t[0] != ">"@[0] && t[0] != "+"@[0]);
        },
        BinaryOp::Mul => {
            assert(t[0] != "<"@[0] && t[0] != ">"@[0] && t[0] != "+"@[0] && t[0] != "-"@[0]);
        },
        BinaryOp::Div => {
            assert(t[0] != "<"@[0] && t[0] != ">"@[0] && t[0] != "+"@[0] && t[0] != "-"@[0]
                && t[0] != "*"@[0]);
        },
    }
    assert("=="@.len() != "==="@.len());
    assert("!="@[0] != "==="@[0]);
    assert("!="@[0] != "=="@[0]);
    assert("!="@.len() != "!=="@.len());
}

/// The unary operator of an operator token; an unknown token is `!`.
pub open spec fn spec_unary_op_of(op: Seq<char>) -> UnaryOp {
    if op == "-"@ {
        UnaryOp::Neg
    } else {
        UnaryOp::Not
    }
}

/// The name of a callee: an identifier's name, else `unknown`.
pub open spec fn spec_callee_name(e: Expression) -> Seq<char> {
    match e {
        Expression::Identifier { name, .. } => name@,
        _ => "unknown"@,
    }
}

/// Whether an expression is `this.state`.
pub open spec fn is_this_state(e: Expression) -> bool {
    e matches Expression::MemberAccess { object, property, .. } && (*object is This) && property@ == "state"@
}

/// `ir` is the IR of the expression `e`: `this.state.f` is a state access,
/// `this` is `self`, `null` is `None`, a call through a member is a method
/// call, a call or `new` of anything but an identifier names `unknown`, and
/// `await` and spreads become the identifier `unknown`.
pub open spec fn converted_expr(e: Expression, ir: ExpressionIR) -> bool
    decreases e,
{
    match e {
        Expression::StringLiteral { value, .. } => ir matches ExpressionIR::StringLiteral(s) && s@ == value@,
        Expression::NumberLiteral { value, .. } => ir matches ExpressionIR::NumberLiteral(s) && s@ == value@,
        Expression::BooleanLiteral { value, .. } => ir matches ExpressionIR::BooleanLiteral(b) && b == value,
        Expression::Identifier { name, .. } => ir matches ExpressionIR::Identifier(s) && s@ == name@,
        Expression::This { .. } => ir matches ExpressionIR::Identifier(s) && s@ == "self"@,
        Expression::NullLiteral { .. } => ir matches ExpressionIR::Identifier(s) && s@ == "None"@,
        Expression::MemberAccess { object, property, .. } => if is_this_state(*object) {
            ir matches ExpressionIR::StateAccess(f) && f@ == property@
        } else {
            ir matches ExpressionIR::PropertyAccess { object: o, property: p } && p@ == property@ && converted_expr(
                *object,
                *o,
            )
        },
        Expression::Call { callee, arguments, .. } => match *callee {
            Expression::MemberAccess { object, property, .. } => {
                &&& ir matches ExpressionIR::MethodCall { object: o, method, arguments: args }
                &&& method@ == property@
                &&& converted_expr(*object, *o)
                &&& args@.len() == arguments@.len()
                &&& forall|k: int| 0 <= k < arguments@.len() ==> converted_expr(arguments@[k], #[trigger] args@[k])
            },
            _ => {
                &&& ir matches ExpressionIR::Call { callee: c, arguments: args }
                &&& c@ == spec_callee_name(*callee)
                &&& args@.len() == arguments@.len()
                &&& forall|k: int| 0 <= k < arguments@.len() ==> converted_expr(arguments@[k], #[trigger] args@[k])
            },
        },
        Expression::New { callee, arguments, .. } => {
            &&& ir matches ExpressionIR::New { callee: c, arguments: args }
            &&& c@ == spec_callee_name(*callee)
            &&& args@.len() == arguments@.len()
            &&& forall|k: int| 0 <= k < arguments@.len() ==> converted_expr(arguments@[k], #[trigger] args@[k])
        },
        Expression::Binary { left, operator, right, .. } => {
            &&& ir matches ExpressionIR::Binary { left: l, operator: op, right: r }
            &&& op == spec_binary_op_of(operator@)
            &&& converted_expr(*left, *l)
            &&& converted_expr(*right, *r)
        },
        Expression::Unary { operator, argument, .. } => {
            &&& ir matches ExpressionIR::Unary { operator: op, operand }
            &&& op == spec_unary_op_of(operator@)
            &&& converted_expr(*argument, *operand)
        },
        Expression::ObjectLiteral { properties, .. } => {
            &&& ir matches ExpressionIR::Object(fs)
            &&& fs@.len() == properties@.len()
            &&& forall|k: int|
                0 <= k < properties@.len() ==> #[trigger] fs@[k].0@ == properties@[k].0@ && converted_expr(
                    properties@[k].1,
                    fs@[k].1,
                )
        },
        Expression::ArrayLiteral { elements, .. } => {
            &&& ir matches ExpressionIR::Array(es)
            &&& es@.len() == elements@.len()
            &&& forall|k: int| 0 <= k < elements@.len() ==> converted_expr(elements@[k], #[trigger] es@[k])
        },
        Expression::Await { .. } => ir matches ExpressionIR::Identifier(s) && s@ == "unknown"@,
        Expression::Spread { .. } => ir matches ExpressionIR::Identifier(s) && s@ == "unknown"@,
    }
}

fn binary_op_of(op: &str) -> (r: BinaryOp)
    ensures
        r == spec_binary_op_of(op@),
{
    if str_eq(op, "===") || str_eq(op, "==") {
        BinaryOp::Eq
    } else if str_eq(op, "!==") || str_eq(op, "!=") {
        BinaryOp::NotEq
    } else if str_eq(op, "<") {
        BinaryOp::Lt
    } else if str_eq(op, "<=") {
        BinaryOp::LtEq
    } else if str_eq(op, ">") {
        BinaryOp::Gt
    } else if str_eq(op, ">=") {
        BinaryOp::GtEq
    } else if str_eq(op, "&&") {
        BinaryOp::And
    } else if str_eq(op, "||") {
        BinaryOp::Or
    } else if str_eq(op, "+") {
        BinaryOp::Add
    } else if str_eq(op, "-") {
        BinaryOp::Sub
    } else if str_eq(op, "*") {
        BinaryOp::Mul
    } else if str_eq(op, "/") {
        BinaryOp::Div
    } else {
        BinaryOp::Eq
    }
}

fn callee_name(e: &Expression) -> (r: String)
    ensures
        r@ == spec_callee_name(*e),
{
    match e {
        Expression::Identifier { name, .. } => name.clone(),
        _ => crate::text::to_owned_string("unknown"),
    }
}

fn check_this_state(e: &Expression) -> (r: bool)
    ensures
        r == is_this_state(*e),
{
    match e {
        Expression::MemberAccess { object, property, .. } => match &**object {
            Expression::This { .. } => str_eq(property.as_str(), "state"),
            _ => false,
        },
        _ => false,
    }
}

fn ident(s: &str) -> (r: ExpressionIR)
    ensures
        r matches ExpressionIR::Identifier(t) && t@ == s@,
{
    ExpressionIR::Identifier(crate::text::to_owned_string(s))
}

/// Converts an expression to the IR.
pub fn convert_expression(expr: &Expression) -> (r: ExpressionIR)
    ensures
        converted_expr(*expr, r),
    decreases expr,
{
    let ghost e0 = *expr;
    match expr {
        Expression::StringLiteral { value, .. } => ExpressionIR::StringLiteral(value.clone()),
        Expression::NumberLiteral { value, .. } => ExpressionIR::NumberLiteral(value.clone()),
        Expression::BooleanLiteral { value, .. } => ExpressionIR::BooleanLiteral(*value),
        Expression::Identifier { name, .. } => ExpressionIR::Identifier(name.clone()),
        Expression::This { .. } => ident("self"),
        Expression::NullLiteral { .. } => ident("None"),
        Expression::MemberAccess { object, property, .. } => {
            if check_this_state(object) {
                ExpressionIR::StateAccess(property.clone())
            } else {
                let o = convert_expression(object);
                ExpressionIR::PropertyAccess { object: Box::new(o), property: property.clone() }
            }
        },
        Expression::Call { callee, arguments, .. } => {
            let args = convert_list(arguments, Ghost(e0));
            match &**callee {
                Expression::MemberAccess { object, property, .. } => {
                    proof {
                        assert(decreases_to!(e0 => e0->Call_callee));
                    }
                    let o = convert_expression(object);
                    ExpressionIR::MethodCall { object: Box::new(o), method: property.clone(), arguments: args }
                },
                _ => ExpressionIR::Call { callee: callee_name(callee), arguments: args },
            }
        },
        Expression::New { callee, arguments, .. } => {
            let args = convert_list(arguments, Ghost(e0));
            ExpressionIR::New { callee: callee_name(callee), arguments: args }
        },
        Expression::Binary { left, operator, right, .. } => {
            let l = convert_expression(left);
            let r = convert_expression(right);
            ExpressionIR::Binary { left: Box::new(l), operator: binary_op_of(operator.as_str()), right: Box::new(r) }
        },
        Expression::Unary { operator, argument, .. } => {
            let a = convert_expression(argument);
            let op = if str_eq(operator.as_str(), "-") {
                UnaryOp::Neg
            } else {
                UnaryOp::Not
            };
            ExpressionIR::Unary { operator: op, operand: Box::new(a) }
        },
        Expression::ObjectLiteral { properties, .. } => {
            let mut fs: Vec<(String, ExpressionIR)> = Vec::new();
            let mut i: usize = 0;
            while i < properties.len()
                invariant
                    i <= properties@.len(),
                    e0 == *expr,
                    e0 == (Expression::ObjectLiteral { properties: *properties, span: e0->ObjectLiteral_span }),
                    fs@.len() == i,
                    forall|k: int|
                        0 <= k < i ==> #[trigger] fs@[k].0@ == properties@[k].0@ && converted_expr(
                            properties@[k].1,
                            fs@[k].1,
                        ),
                decreases properties.len() - i,
            {
                let entry = &properties[i];
                proof {
                    assert(decreases_to!(e0 => e0->ObjectLiteral_properties));
                    assert(decreases_to!(e0 => properties@[i as int]));
                    assert(decreases_to!(e0 => properties@[i as int].1));
                }
                let v = convert_expression(&entry.1);
                fs.push((entry.0.clone(), v));
                i = i + 1;
            }
            ExpressionIR::Object(fs)
        },
        Expression::ArrayLiteral { elements, .. } => {
            let es = convert_list(elements, Ghost(e0));
            ExpressionIR::Array(es)
        },
        Expression::Await { .. } => ident("unknown"),
        Expression::Spread { .. } => ident("unknown"),
    }
}

/// Converts a list of sub-expressions of `parent`.
fn convert_list(es: &Vec<Expression>, Ghost(parent): Ghost<Expression>) -> (r: Vec<ExpressionIR>)
    requires
        forall|k: int| 0 <= k < es@.len() ==> decreases_to!(parent => #[trigger] es@[k]),
    ensures
        r@.len() == es@.len(),
        forall|k: int| 0 <= k < es@.len() ==> converted_expr(es@[k], #[trigger] r@[k]),
    decreases parent, 1nat,
{
    let mut out: Vec<ExpressionIR> = Vec::new();
    let mut i: usize = 0;
    while i < es.len()
        invariant
            i <= es@.len(),
            forall|k: int| 0 <= k < es@.len() ==> decreases_to!(parent => #[trigger] es@[k]),
            out@.len() == i,
            forall|k: int| 0 <= k < i ==> converted_expr(es@[k], #[trigger] out@[k]),
        decreases es.len() - i,
    {
        let v = convert_expression(&es[i]);
        out.push(v);
        i = i + 1;
    }
    out
}

// ---------------------------------------------------------------------------
// Statements
// ---------------------------------------------------------------------------

/// The index of the first property at or after `i` named `type`, or -1.
pub open spec fn first_type_prop(ps: Seq<(String, Expression)>, i: int) -> int
    decreases ps.len() - i,
{
    if i < 0 || i >= ps.len() {
        -1
    } else if ps[i].0@ == "type"@ {
        i
    } else {
        first_type_prop(ps, i + 1)
    }
}

/// The indices of the first `n` properties not named `type`.
pub open spec fn non_type_props(ps: Seq<(String, Expression)>, n: int) -> Seq<int>
    decreases n,
{
    if n <= 0 || n > ps.len() {
        Seq::empty()
    } else if ps[n - 1].0@ == "type"@ {
        non_type_props(ps, n - 1)
    } else {
        non_type_props(ps, n - 1).push(n - 1)
    }
}

/// The properties of the object passed to `this.emit(...)`, when `e` is such
/// a call with a single object literal whose first `type` property is a string.
pub open spec fn emit_props(e: Expression) -> Option<Seq<(String, Expression)>> {
    match e {
        Expression::Call { callee, arguments, .. } => match *callee {
            Expression::MemberAccess { object, property, .. } => if (*object is This) && property@ == "emit"@
                && arguments@.len() == 1 {
                match arguments@[0] {
                    Expression::ObjectLiteral { properties, .. } => {
                        let t = first_type_prop(properties@, 0);
                        if t >= 0 && (properties@[t].1 is StringLiteral) {
                            Some(properties@)
                        } else {
                            None
                        }
                    },
                    _ => None,
                }
            } else {
                None
            },
            _ => None,
        },
        _ => None,
    }
}

/// `ir` is the emit statement of the properties `ps`: the event type is the
/// first `type` string, the fields are the other properties in order.
pub open spec fn converted_emit(ps: Seq<(String, Expression)>, ir: StatementIR) -> bool {
    let t = first_type_prop(ps, 0);
    let idx = non_type_props(ps, ps.len() as int);
    &&& ir matches StatementIR::Emit { event_type, fields }
    &&& 0 <= t < ps.len()
    &&& ps[t].1 matches Expression::StringLiteral { value, .. } && event_type@ == value@
    &&& fields@.len() == idx.len()
    &&& forall|k: int|
        0 <= k < idx.len() ==> #[trigger] fields@[k].0@ == ps[idx[k]].0@ && converted_expr(ps[idx[k]].1, fields@[k].1)
}

/// The message of `throw new X("message", ...)`, else `Unknown error`.
pub open spec fn spec_error_message(e: Expression) -> Seq<char> {
    match e {
        Expression::New { arguments, .. } => if arguments@.len() > 0 {
            match arguments@[0] {
                Expression::StringLiteral { value, .. } => value@,
                _ => "Unknown error"@,
            }
        } else {
            "Unknown error"@
        },
        _ => "Unknown error"@,
    }
}

/// `ir` is the IR of the statement `s`: a `this.emit({...})` call becomes an
/// emit, a block becomes its first statement (a placeholder expression when
/// empty), a switch a placeholder, a declaration without initializer binds
/// `undefined`.
pub open spec fn converted_stmt(s: Statement, ir: StatementIR) -> bool
    decreases s,
{
    match s {
        Statement::If { condition, then_branch, else_branch, .. } => {
            &&& ir matches StatementIR::If { condition: c, then_branch: t, else_branch: e }
            &&& converted_expr(condition, c)
            &&& t@.len() == then_branch@.len()
            &&& forall|k: int| 0 <= k < then_branch@.len() ==> converted_stmt(then_branch@[k], #[trigger] t@[k])
            &&& match else_branch {
                Some(es) => e matches Some(ie) && ie@.len() == es@.len() && forall|k: int|
                    0 <= k < es@.len() ==> converted_stmt(es@[k], #[trigger] ie@[k]),
                None => e is None,
            }
        },
        Statement::Throw { argument, .. } => ir matches StatementIR::Throw { message } && message@
            == spec_error_message(argument),
        Statement::Expression { expression, .. } => match emit_props(expression) {
            Some(ps) => converted_emit(ps, ir),
            None => ir matches StatementIR::Expression(e) && converted_expr(expression, e),
        },
        Statement::VariableDecl { name, initializer, .. } => {
            &&& ir matches StatementIR::Let { name: n, value }
            &&& n@ == name@
            &&& match initializer {
                Some(i) => converted_expr(i, value),
                None => value matches ExpressionIR::Identifier(u) && u@ == "undefined"@,
            }
        },
        Statement::Return { value, .. } => ir matches StatementIR::Return(v) && match value {
            Some(x) => v matches Some(y) && converted_expr(x, y),
            None => v is None,
        },
        Statement::Block { statements, .. } => if statements@.len() == 0 {
            ir matches StatementIR::Expression(ExpressionIR::Identifier(u)) && u@ == "()"@
        } else {
            converted_stmt(statements@[0], ir)
        },
        Statement::Switch { .. } => ir matches StatementIR::Expression(ExpressionIR::Identifier(u)) && u@
            == "match"@,
    }
}

fn extract_error_message(e: &Expression) -> (r: String)
    ensures
        r@ == spec_error_message(*e),
{
    match e {
        Expression::New { arguments, .. } => {
            if arguments.len() > 0 {
                match &arguments[0] {
                    Expression::StringLiteral { value, .. } => value.clone(),
                    _ => crate::text::to_owned_string("Unknown error"),
                }
            } else {
                crate::text::to_owned_string("Unknown error")
            }
        },
        _ => crate::text::to_owned_string("Unknown error"),
    }
}

/// Converts `this.emit({ type: "...", ... })` to an emit statement, or returns
/// `None` when `expr` is not such a call.
pub fn try_convert_emit(expr: &Expression) -> (r: Option<StatementIR>)
    ensures
        match emit_props(*expr) {
            Some(ps) => r matches Some(ir) && converted_emit(ps, ir),
            None => r is None,
        },
{
    let props = match expr {
        Expression::Call { callee, arguments, .. } => match &**callee {
            Expression::MemberAccess { object, property, .. } => {
                let is_this = match &**object {
                    Expression::This { .. } => true,
                    _ => false,
                };
                if is_this && str_eq(property.as_str(), "emit") && arguments.len() == 1 {
                    match &arguments[0] {
                        Expression::ObjectLiteral { properties, .. } => properties,
                        _ => return None,
                    }
                } else {
                    return None;
                }
            },
            _ => return None,
        },
        _ => return None,
    };
    let ghost ps = props@;
    // The first `type` property.
    let mut t: usize = 0;
    while t < props.len() && !str_eq(props[t].0.as_str(), "type")
        invariant
            t <= props@.len(),
            forall|m: int| 0 <= m < t ==> props@[m].0@ != "type"@,
        decreases props.len() - t,
    {
        t = t + 1;
    }
    proof {
        lemma_first_type_prop(props@, 0, t as int);
    }
    if t == props.len() {
        return None;
    }
    let event_type = match &props[t].1 {
        Expression::StringLiteral { value, .. } => value.clone(),
        _ => return None,
    };
    let mut fields: Vec<(String, ExpressionIR)> = Vec::new();
    let ghost mut idx: Seq<int> = Seq::empty();
    let mut i: usize = 0;
    while i < props.len()
        invariant
            i <= props@.len(),
            ps == props@,
            idx == non_type_props(ps, i as int),
            fields@.len() == idx.len(),
            forall|k: int|
                0 <= k < idx.len() ==> #[trigger] fields@[k].0@ == ps[idx[k]].0@ && converted_expr(
                    ps[idx[k]].1,
                    fields@[k].1,
                ),
        decreases props.len() - i,
    {
        if !str_eq(props[i].0.as_str(), "type") {
            let v = convert_expression(&props[i].1);
            let ghost before = fields@;
            fields.push((props[i].0.clone(), v));
            proof {
                assert(fields@[idx.len() as int].0@ == ps[i as int].0@);
                assert(converted_expr(ps[i as int].1, fields@[idx.len() as int].1));
                assert(non_type_props(ps, i + 1) == idx.push(i as int));
                assert forall|k: int| 0 <= k < idx.len() + 1 implies #[trigger] fields@[k].0@ == ps[idx.push(
                    i as int,
                )[k]].0@ && converted_expr(ps[idx.push(i as int)[k]].1, fields@[k].1) by {
                    if k < idx.len() {
                        assert(fields@[k] == before[k]);
                        assert(before[k].0@ == ps[idx[k]].0@ && converted_expr(ps[idx[k]].1, before[k].1));
                        assert(idx.push(i as int)[k] == idx[k]);
                    }
                }
                idx = idx.push(i as int);
            }
        } else {
            proof {
                assert(non_type_props(ps, i + 1) == idx);
            }
        }
        i = i + 1;
    }
    Some(StatementIR::Emit { event_type, fields })
}

proof fn lemma_first_type_prop(ps: Seq<(String, Expression)>, i: int, j: int)
    requires
        0 <= i <= j <= ps.len(),
        forall|m: int| i <= m < j ==> ps[m].0@ != "type"@,
        j == ps.len() || ps[j].0@ == "type"@,
    ensures
        first_type_prop(ps, i) == if j == ps.len() { -1 } else { j },
    decreases j - i,
{
    if i < j {
        lemma_first_type_prop(ps, i + 1, j);
    }
}

/// Converts a statement to the IR.
pub fn convert_statement(stmt: &Statement) -> (r: StatementIR)
    ensures
        converted_stmt(*stmt, r),
    decreases stmt,
{
    let ghost s0 = *stmt;
    match stmt {
        Statement::If { condition, then_branch, else_branch, .. } => {
            let c = convert_expression(condition);
            let t = convert_block(then_branch, Ghost(s0));
            let e = match else_branch {
                Some(es) => {
                    proof {
                        assert(decreases_to!(s0 => s0->If_else_branch));
                    }
                    Some(convert_block(es, Ghost(s0)))
                },
                None => None,
            };
            StatementIR::If { condition: c, then_branch: t, else_branch: e }
        },
        Statement::Throw { argument, .. } => StatementIR::Throw { message: extract_error_message(argument) },
        Statement::Expression { expression, .. } => {
            match try_convert_emit(expression) {
                Some(emit) => emit,
                None => StatementIR::Expression(convert_expression(expression)),
            }
        },
        Statement::VariableDecl { name, initializer, .. } => {
            let value = match initializer {
                Some(i) => convert_expression(i),
                None => ExpressionIR::Identifier(crate::text::to_owned_string("undefined")),
            };
            StatementIR::Let { name: name.clone(), value }
        },
        Statement::Return { value, .. } => {
            let v = match value {
                Some(x) => Some(convert_expression(x)),
                None => None,
            };
            StatementIR::Return(v)
        },
        Statement::Block { statements, .. } => {
            if statements.len() == 0 {
                StatementIR::Expression(ExpressionIR::Identifier(crate::text::to_owned_string("()")))
            } else {
                proof {
                    assert(decreases_to!(s0 => s0->Block_statements));
                    assert(decreases_to!(s0 => statements@[0]));
                }
                convert_statement(&statements[0])
            }
        },
        Statement::Switch { .. } => StatementIR::Expression(
            ExpressionIR::Identifier(crate::text::to_owned_string("match")),
        ),
    }
}

/// Converts a list of sub-statements of `parent`.
fn convert_block(ss: &Vec<Statement>, Ghost(parent): Ghost<Statement>) -> (r: Vec<StatementIR>)
    requires
        forall|k: int| 0 <= k < ss@.len() ==> decreases_to!(parent => #[trigger] ss@[k]),
    ensures
        r@.len() == ss@.len(),
        forall|k: int| 0 <= k < ss@.len() ==> converted_stmt(ss@[k], #[trigger] r@[k]),
    decreases parent, 1nat,
{
    let mut out: Vec<StatementIR> = Vec::new();
    let mut i: usize = 0;
    while i < ss.len()
        invariant
            i <= ss@.len(),
            forall|k: int| 0 <= k < ss@.len() ==> decreases_to!(parent => #[trigger] ss@[k]),
            out@.len() == i,
            forall|k: int| 0 <= k < i ==> converted_stmt(ss@[k], #[trigger] out@[k]),
        decreases ss.len() - i,
    {
        let v = convert_statement(&ss[i]);
        out.push(v);
        i = i + 1;
    }
    out
}

// ---------------------------------------------------------------------------
// Initial state
// ---------------------------------------------------------------------------

pub open spec fn is_digit(c: char) -> bool {
    '0' <= c && c <= '9'
}

/// The first index at or after `i` that is not a decimal digit.
pub open spec fn skip_digits(s: Seq<char>, i: int) -> int
    decreases s.len() - i,
{
    if i < 0 || i >= s.len() {
        s.len() as int
    } else if is_digit(s[i]) {
        skip_digits(s, i + 1)
    } else {
        i
    }
}

/// Whether `s` from `i` on is an exponent: `e` or `E`, an optional sign, digits.
pub open spec fn is_exponent(s: Seq<char>, i: int) -> bool {
    &&& 0 <= i < s.len()
    &&& (s[i] == 'e' || s[i] == 'E')
    &&& {
        let j = if i + 1 < s.len() && (s[i + 1] == '+' || s[i + 1] == '-') { i + 2 } else { i + 1 };
        j < s.len() && skip_digits(s, j) == s.len()
    }
}

/// Whether `s` from `i` on is a decimal number: digits, an optional point and
/// digits (at least one digit in all), and an optional exponent.
pub open spec fn is_decimal_number(s: Seq<char>, i: int) -> bool {
    let a = skip_digits(s, i);
    let has_point = a < s.len() && s[a] == '.';
    let b = if has_point { skip_digits(s, a + 1) } else { a };
    let digits = (a - i) + (if has_point { b - (a + 1) } else { 0 });
    &&& 0 <= i <= s.len()
    &&& digits > 0
    &&& (b == s.len() || is_exponent(s, b))
}

/// ASCII lower-casing of a character.
pub open spec fn lower_ascii(c: char) -> char {
    if 'A' <= c && c <= 'Z' {
        ((c as u32) + 32) as char
    } else {
        c
    }
}

/// Whether the text from `i` on spells `word`, ignoring ASCII case.
pub open spec fn is_word_ci(s: Seq<char>, i: int, word: Seq<char>) -> bool {
    &&& 0 <= i
    &&& s.len() - i == word.len()
    &&& forall|k: int| 0 <= k < word.len() ==> lower_ascii(#[trigger] s[i + k]) == word[k]
}

/// Whether `s` is a floating-point literal as `f64::from_str` accepts it: an
/// optional sign, then `inf`, `infinity`, `nan` (any case) or a decimal number.
pub open spec fn is_float_text(s: Seq<char>) -> bool {
    let i = if s.len() > 0 && (s[0] == '+' || s[0] == '-') { 1int } else { 0int };
    ||| is_word_ci(s, i, "inf"@)
    ||| is_word_ci(s, i, "infinity"@)
    ||| is_word_ci(s, i, "nan"@)
    ||| is_decimal_number(s, i)
}

fn skip_digits_exec(cs: &Vec<char>, i: usize) -> (r: usize)
    requires
        i <= cs@.len(),
    ensures
        r as int == skip_digits(cs@, i as int),
        i <= r <= cs@.len(),
{
    let mut j = i;
    while j < cs.len() && '0' <= cs[j] && cs[j] <= '9'
        invariant
            i <= j <= cs@.len(),
            skip_digits(cs@, i as int) == skip_digits(cs@, j as int),
        decreases cs.len() - j,
    {
        j = j + 1;
    }
    j
}

fn word_ci(cs: &Vec<char>, i: usize, word: &str) -> (r: bool)
    requires
        i <= cs@.len(),
    ensures
        r == is_word_ci(cs@, i as int, word@),
{
    let w = crate::text::chars_of(word);
    if cs.len() - i != w.len() {
        return false;
    }
    let mut k: usize = 0;
    while k < w.len()
        invariant
            w@ == word@,
            i <= cs@.len(),
            cs@.len() - i == w@.len(),
            k <= w@.len(),
            forall|m: int| 0 <= m < k ==> lower_ascii(#[trigger] cs@[i + m]) == w@[m],
        decreases w.len() - k,
    {
        assert(i + k < cs.len());
        let c = cs[i + k];
        let l = if 'A' <= c && c <= 'Z' { ((c as u32) + 32) as u8 as char } else { c };
        proof {
            if 'A' <= c && c <= 'Z' {
                assert(l == lower_ascii(c)) by {
                    assert(((c as u32) + 32) < 128);
                }
            }
        }
        if l != w[k] {
            return false;
        }
        k = k + 1;
    }
    true
}

/// Whether a text is a floating-point literal.
pub fn is_float_literal(s: &str) -> (r: bool)
    ensures
        r == is_float_text(s@),
{
    let cs = crate::text::chars_of(s);
    let i: usize = if cs.len() > 0 && (cs[0] == '+' || cs[0] == '-') { 1 } else { 0 };
    if word_ci(&cs, i, "inf") || word_ci(&cs, i, "infinity") || word_ci(&cs, i, "nan") {
        return true;
    }
    let a = skip_digits_exec(&cs, i);
    let has_point = a < cs.len() && cs[a] == '.';
    let b = if has_point { skip_digits_exec(&cs, a + 1) } else { a };
    let digits = (a - i) + (if has_point { b - (a + 1) } else { 0 });
    if digits == 0 {
        return false;
    }
    if b == cs.len() {
        return true;
    }
    if cs[b] != 'e' && cs[b] != 'E' {
        return false;
    }
    let j = if b + 1 < cs.len() && (cs[b + 1] == '+' || cs[b + 1] == '-') { b + 2 } else { b + 1 };
    j < cs.len() && skip_digits_exec(&cs, j) == cs.len()
}

/// `iv` is the initial value that the value text `v` denotes: quoted text is
/// a string (without its quotes), `true`/`false` booleans, `null`/`undefined`
/// null, `[]` and `{}` empty collections, a float literal a number; anything
/// else is null.
pub open spec fn initial_value_of(v: Seq<char>, iv: InitialValue) -> bool {
    if v == "\"\""@ || v == "''"@ {
        iv matches InitialValue::String(t) && t@.len() == 0
    } else if v.len() > 0 && (v[0] == '"' || v[0] == '\'') {
        iv matches InitialValue::String(t) && t@ == spec_trim_char(spec_trim_char(v, '"'), '\'')
    } else if v == "false"@ {
        iv == InitialValue::Boolean(false)
    } else if v == "true"@ {
        iv == InitialValue::Boolean(true)
    } else if v == "null"@ || v == "undefined"@ {
        iv is Null
    } else if v == "[]"@ {
        iv is EmptyArray
    } else if v == "{}"@ {
        iv is EmptyObject
    } else if is_float_text(v) {
        iv matches InitialValue::Number(t) && t@ == v
    } else {
        iv is Null
    }
}

fn initial_value(v: &str) -> (r: InitialValue)
    ensures
        initial_value_of(v@, r),
{
    if str_eq(v, "\"\"") || str_eq(v, "''") {
        InitialValue::String(String::new())
    } else if v.unicode_len() > 0 && (v.get_char(0) == '"' || v.get_char(0) == '\'') {
        let a = trim_char(v, '"');
        InitialValue::String(trim_char(a.as_str(), '\''))
    } else if str_eq(v, "false") {
        InitialValue::Boolean(false)
    } else if str_eq(v, "true") {
        InitialValue::Boolean(true)
    } else if str_eq(v, "null") || str_eq(v, "undefined") {
        InitialValue::Null
    } else if str_eq(v, "[]") {
        InitialValue::EmptyArray
    } else if str_eq(v, "{}") {
        InitialValue::EmptyObject
    } else if is_float_literal(v) {
        InitialValue::Number(crate::text::to_owned_string(v))
    } else {
        InitialValue::Null
    }
}

/// The body of an object literal text: trimmed, without its leading `{`s and
/// trailing `}`s.
pub open spec fn object_body(init: Seq<char>) -> Seq<char> {
    spec_trim_end_char(spec_trim_start_char(spec_trim(init), '{'), '}')
}

/// The entry of one `key: value` piece, when it has a colon.
pub open spec fn piece_entry(piece: Seq<char>) -> Option<(Seq<char>, Seq<char>)> {
    let k = find_char(piece, ':', 0);
    if k < 0 {
        None
    } else {
        Some((spec_trim(piece.subrange(0, k)), spec_trim(piece.subrange(k + 1, piece.len() as int))))
    }
}

/// The entries of the first `n` pieces that have a colon.
pub open spec fn spec_entries(pieces: Seq<Seq<char>>, n: int) -> Seq<(Seq<char>, Seq<char>)>
    decreases n,
{
    if n <= 0 || n > pieces.len() {
        Seq::empty()
    } else {
        match piece_entry(pieces[n - 1]) {
            Some(e) => spec_entries(pieces, n - 1).push(e),
            None => spec_entries(pieces, n - 1),
        }
    }
}

/// `vals` are the initial values of an object literal text: its body split at
/// commas, each piece with a colon giving a trimmed key and value.
pub open spec fn parsed_initial_state(init: Seq<char>, vals: Seq<(String, InitialValue)>) -> bool {
    let pieces = spec_split(object_body(init), ',');
    let es = spec_entries(pieces, pieces.len() as int);
    &&& vals.len() == es.len()
    &&& forall|k: int| 0 <= k < es.len() ==> #[trigger] vals[k].0@ == es[k].0 && initial_value_of(es[k].1, vals[k].1)
}

/// Parses the text of an initial state object literal into field values.
pub fn parse_initial_state_object(init: &str) -> (r: Vec<(String, InitialValue)>)
    ensures
        parsed_initial_state(init@, r@),
{
    let t = trim(init);
    let a = trim_start_char(t.as_str(), '{');
    let content = trim_end_char(a.as_str(), '}');
    let pieces = split_char(content.as_str(), ',');
    let ghost pv = views(pieces@);
    let mut values: Vec<(String, InitialValue)> = Vec::new();
    let ghost mut es: Seq<(Seq<char>, Seq<char>)> = Seq::empty();
    let mut i: usize = 0;
    while i < pieces.len()
        invariant
            i <= pieces@.len(),
            pv == views(pieces@),
            pv == spec_split(object_body(init@), ','),
            es == spec_entries(pv, i as int),
            values@.len() == es.len(),
            forall|k: int| 0 <= k < values@.len() ==> #[trigger] values@[k].0@ == es[k].0,
            forall|k: int| 0 <= k < values@.len() ==> initial_value_of(es[k].1, #[trigger] values@[k].1),
        decreases pieces.len() - i,
    {
        let piece = &pieces[i];
        proof {
            assert(pv[i as int] == piece@);
        }
        match split_once_char(piece.as_str(), ':') {
            Some((before, after)) => {
                let key = trim(before.as_str());
                let value = trim(after.as_str());
                let iv = initial_value(value.as_str());
                let ghost old_vals = values@;
                values.push((key, iv));
                proof {
                    assert(spec_entries(pv, i + 1) == es.push((key@, value@)));
                    assert forall|k: int| 0 <= k < values@.len() implies #[trigger] values@[k].0@ == es.push(
                        (key@, value@),
                    )[k].0 && initial_value_of(es.push((key@, value@))[k].1, values@[k].1) by {
                        if k < old_vals.len() {
                            assert(values@[k] == old_vals[k]);
                            assert(old_vals[k].0@ == es[k].0 && initial_value_of(es[k].1, old_vals[k].1));
                        }
                    }
                    es = es.push((key@, value@));
                }
            },
            None => {
                proof {
                    assert(spec_entries(pv, i + 1) == es);
                }
            },
        }
        i = i + 1;
    }
    values
}

// ---------------------------------------------------------------------------
// Commands
// ---------------------------------------------------------------------------

/// Every type annotation of a method is free of empty unions.
pub open spec fn method_ok(m: MethodDecl) -> bool {
    &&& forall|k: int|
        0 <= k < m.parameters@.len() ==> match #[trigger] m.parameters@[k].type_node {
            Some(t) => type_ok(t),
            None => true,
        }
    &&& match m.return_type {
        Some(t) => type_ok(t),
        None => true,
    }
}

/// `p` is the IR of a parameter: an unannotated parameter is a string.
pub open spec fn converted_param(name: Seq<char>, t: Option<TypeNode>, p: ParameterIR) -> bool {
    &&& p.name@ == name
    &&& match t {
        Some(t) => converted_type(t, p.typ),
        None => p.typ matches DomainType::String,
    }
}

/// `c` is the command of method `m`, with the default access (internal, no roles).
pub open spec fn converted_command(m: MethodDecl, c: CommandIR) -> bool {
    &&& c.name@ == m.name@
    &&& c.parameters@.len() == m.parameters@.len()
    &&& forall|k: int|
        0 <= k < m.parameters@.len() ==> converted_param(
            m.parameters@[k].name@,
            m.parameters@[k].type_node,
            #[trigger] c.parameters@[k],
        )
    &&& c.body@.len() == m.body@.len()
    &&& forall|k: int| 0 <= k < m.body@.len() ==> converted_stmt(m.body@[k], #[trigger] c.body@[k])
    &&& c.access == AccessLevel::Internal
    &&& c.roles@.len() == 0
}

/// Converts the parameters of a method.
pub fn convert_parameters(m: &MethodDecl) -> (r: Vec<ParameterIR>)
    requires
        method_ok(*m),
    ensures
        r@.len() == m.parameters@.len(),
        forall|k: int|
            0 <= k < m.parameters@.len() ==> converted_param(
                m.parameters@[k].name@,
                m.parameters@[k].type_node,
                #[trigger] r@[k],
            ),
{
    let mut out: Vec<ParameterIR> = Vec::new();
    let mut i: usize = 0;
    while i < m.parameters.len()
        invariant
            i <= m.parameters@.len(),
            method_ok(*m),
            out@.len() == i,
            forall|k: int|
                0 <= k < i ==> converted_param(m.parameters@[k].name@, m.parameters@[k].type_node, #[trigger] out@[k]),
        decreases m.parameters.len() - i,
    {
        let p = &m.parameters[i];
        let typ = match &p.type_node {
            Some(t) => {
                proof {
                    assert(match m.parameters@[i as int].type_node {
                        Some(t) => type_ok(t),
                        None => true,
                    });
                }
                convert_type_node(t)
            },
            None => DomainType::String,
        };
        out.push(ParameterIR { name: p.name.clone(), typ });
        i = i + 1;
    }
    out
}

/// Converts a method to a command, with the default access.
pub fn convert_command(method: &MethodDecl) -> (r: CommandIR)
    requires
        method_ok(*method),
    ensures
        converted_command(*method, r),
{
    let parameters = convert_parameters(method);
    let mut body: Vec<StatementIR> = Vec::new();
    let mut i: usize = 0;
    while i < method.body.len()
        invariant
            i <= method.body@.len(),
            body@.len() == i,
            forall|k: int| 0 <= k < i ==> converted_stmt(method.body@[k], #[trigger] body@[k]),
        decreases method.body.len() - i,
    {
        body.push(convert_statement(&method.body[i]));
        i = i + 1;
    }
    CommandIR { name: method.name.clone(), parameters, body, access: AccessLevel::Internal, roles: Vec::new() }
}

// ---------------------------------------------------------------------------
// Event and state types
// ---------------------------------------------------------------------------

/// Every property type is free of empty unions.
pub open spec fn props_ok(ps: Seq<ObjectProperty>) -> bool {
    forall|k: int| 0 <= k < ps.len() ==> type_ok(#[trigger] ps[k].type_node)
}

/// The index of the first property at or after `i` named `name`, or -1.
pub open spec fn first_prop_named(ps: Seq<ObjectProperty>, name: Seq<char>, i: int) -> int
    decreases ps.len() - i,
{
    if i < 0 || i >= ps.len() {
        -1
    } else if ps[i].name@ == name {
        i
    } else {
        first_prop_named(ps, name, i + 1)
    }
}

pub proof fn lemma_first_prop_named(ps: Seq<ObjectProperty>, name: Seq<char>, i: int, j: int)
    requires
        0 <= i <= j <= ps.len(),
        forall|m: int| i <= m < j ==> ps[m].name@ != name,
        j == ps.len() || ps[j].name@ == name,
    ensures
        first_prop_named(ps, name, i) == if j == ps.len() { -1 } else { j },
    decreases j - i,
{
    if i < j {
        lemma_first_prop_named(ps, name, i + 1, j);
    }
}

/// The indices of the first `n` properties not named `type`.
pub open spec fn data_props(ps: Seq<ObjectProperty>, n: int) -> Seq<int>
    decreases n,
{
    if n <= 0 || n > ps.len() {
        Seq::empty()
    } else if ps[n - 1].name@ == "type"@ {
        data_props(ps, n - 1)
    } else {
        data_props(ps, n - 1).push(n - 1)
    }
}

/// Why an object type is not an event variant, if it is not.
pub open spec fn variant_error(ps: Seq<ObjectProperty>) -> Option<Seq<char>> {
    let t = first_prop_named(ps, "type"@, 0);
    if t < 0 {
        Some("missing type discriminant"@)
    } else if !(ps[t].type_node is Primitive) {
        Some("type must be a string literal"@)
    } else {
        None
    }
}

/// `v` is the event variant of an object type: named by its `type` literal
/// without quotes, with the other properties as fields.
pub open spec fn converted_variant(ps: Seq<ObjectProperty>, v: EventVariant) -> bool {
    let t = first_prop_named(ps, "type"@, 0);
    let idx = data_props(ps, ps.len() as int);
    &&& 0 <= t < ps.len()
    &&& ps[t].type_node matches TypeNode::Primitive(lit) && v.name@ == spec_trim_char(spec_trim_char(lit@, '"'), '\'')
    &&& v.fields@.len() == idx.len()
    &&& forall|k: int|
        0 <= k < idx.len() ==> #[trigger] v.fields@[k].name@ == ps[idx[k]].name@ && converted_type(
            ps[idx[k]].type_node,
            v.fields@[k].typ,
        )
}

/// Converts an object type to an event variant.
pub fn convert_object_to_variant(props: &Vec<ObjectProperty>) -> (r: Result<EventVariant, CompilerError>)
    requires
        props_ok(props@),
    ensures
        match variant_error(props@) {
            Some(msg) => r matches Err(CompilerError::InvalidEventType { type_ident }) && type_ident@ == msg,
            None => r matches Ok(v) && converted_variant(props@, v),
        },
{
    let mut t: usize = 0;
    while t < props.len() && !str_eq(props[t].name.as_str(), "type")
        invariant
            t <= props@.len(),
            forall|m: int| 0 <= m < t ==> props@[m].name@ != "type"@,
        decreases props.len() - t,
    {
        t = t + 1;
    }
    proof {
        lemma_first_prop_named(props@, "type"@, 0, t as int);
    }
    if t == props.len() {
        return Err(CompilerError::InvalidEventType {
            type_ident: crate::text::to_owned_string("missing type discriminant"),
        });
    }
    let name = match &props[t].type_node {
        TypeNode::Primitive(lit) => {
            let a = trim_char(lit.as_str(), '"');
            trim_char(a.as_str(), '\'')
        },
        _ => {
            return Err(CompilerError::InvalidEventType {
                type_ident: crate::text::to_owned_string("type must be a string literal"),
            });
        },
    };
    let ghost ps = props@;
    let mut fields: Vec<EventField> = Vec::new();
    let ghost mut idx: Seq<int> = Seq::empty();
    let mut i: usize = 0;
    while i < props.len()
        invariant
            i <= props@.len(),
            ps == props@,
            props_ok(ps),
            idx == data_props(ps, i as int),
            fields@.len() == idx.len(),
            forall|k: int| 0 <= k < idx.len() ==> #[trigger] fields@[k].name@ == ps[idx[k]].name@,
            forall|k: int| 0 <= k < idx.len() ==> converted_type(ps[idx[k]].type_node, #[trigger] fields@[k].typ),
        decreases props.len() - i,
    {
        if !str_eq(props[i].name.as_str(), "type") {
            let typ = convert_type_node(&props[i].type_node);
            let ghost before = fields@;
            fields.push(EventField { name: props[i].name.clone(), typ });
            proof {
                assert(data_props(ps, i + 1) == idx.push(i as int));
                assert forall|k: int| 0 <= k < idx.len() + 1 implies #[trigger] fields@[k].name@ == ps[idx.push(
                    i as int,
                )[k]].name@ by {
                    if k < idx.len() {
                        assert(fields@[k] == before[k]);
                        assert(before[k].name@ == ps[idx[k]].name@);
                    }
                }
                assert forall|k: int| 0 <= k < idx.len() + 1 implies converted_type(
                    ps[idx.push(i as int)[k]].type_node,
                    #[trigger] fields@[k].typ,
                ) by {
                    if k < idx.len() {
                        assert(fields@[k] == before[k]);
                        assert(converted_type(ps[idx[k]].type_node, before[k].typ));
                    }
                }
                idx = idx.push(i as int);
            }
        } else {
            proof {
                assert(data_props(ps, i + 1) == idx);
            }
        }
        i = i + 1;
    }
    Ok(EventVariant { name, fields })
}

/// Why a union member is not an event variant, if it is not.
pub open spec fn member_error(m: TypeNode) -> Option<Seq<char>> {
    match m {
        TypeNode::ObjectLiteral(ps) => variant_error(ps@),
        _ => Some("union member"@),
    }
}

/// The index of the first member at or after `i` that is not an event variant, or -1.
pub open spec fn first_member_error(ms: Seq<TypeNode>, i: int) -> int
    decreases ms.len() - i,
{
    if i < 0 || i >= ms.len() {
        -1
    } else if member_error(ms[i]) is Some {
        i
    } else {
        first_member_error(ms, i + 1)
    }
}

/// `v` is the event variant of the union member `m`.
pub open spec fn member_converted(m: TypeNode, v: EventVariant) -> bool {
    m matches TypeNode::ObjectLiteral(ps) && converted_variant(ps@, v)
}

/// `r` is the conversion of an event type alias: a union of object types or a
/// single object type; the first member that is not a variant decides the error.
pub open spec fn converted_event_type(alias: TypeAlias, r: Result<EventTypeIR, CompilerError>) -> bool {
    match alias.type_node {
        TypeNode::Union(ms) => {
            let e = first_member_error(ms@, 0);
            if e >= 0 {
                r matches Err(CompilerError::InvalidEventType { type_ident }) && Some(type_ident@) == member_error(
                    ms@[e],
                )
            } else {
                &&& r matches Ok(et)
                &&& et.name@ == alias.name@
                &&& et.variants@.len() == ms@.len()
                &&& forall|k: int|
                    0 <= k < ms@.len() ==> #[trigger] member_converted(ms@[k], et.variants@[k])
            }
        },
        TypeNode::ObjectLiteral(ps) => match variant_error(ps@) {
            Some(msg) => r matches Err(CompilerError::InvalidEventType { type_ident }) && type_ident@ == msg,
            None => r matches Ok(et) && et.name@ == alias.name@ && et.variants@.len() == 1 && converted_variant(
                ps@,
                et.variants@[0],
            ),
        },
        _ => r matches Err(CompilerError::InvalidEventType { type_ident }) && type_ident@ == alias.name@,
    }
}

/// Every type in a type alias is free of empty unions.
pub open spec fn alias_ok(a: TypeAlias) -> bool {
    &&& type_ok(a.type_node)
    &&& match a.type_node {
        TypeNode::Union(ms) => forall|k: int|
            0 <= k < ms@.len() ==> match #[trigger] ms@[k] {
                TypeNode::ObjectLiteral(ps) => props_ok(ps@),
                _ => true,
            },
        TypeNode::ObjectLiteral(ps) => props_ok(ps@),
        _ => true,
    }
}

proof fn lemma_first_member_error(ms: Seq<TypeNode>, i: int, j: int)
    requires
        0 <= i <= j <= ms.len(),
        forall|m: int| i <= m < j ==> member_error(ms[m]) is None,
        j == ms.len() || member_error(ms[j]) is Some,
    ensures
        first_member_error(ms, i) == if j == ms.len() { -1 } else { j },
    decreases j - i,
{
    if i < j {
        lemma_first_member_error(ms, i + 1, j);
    }
}

/// Converts a union member to an event variant: an object type is one; any
/// other member is an `InvalidEventType` error.
pub fn convert_event_variant(member: &TypeNode) -> (r: Result<EventVariant, CompilerError>)
    requires
        match *member {
            TypeNode::ObjectLiteral(ps) => props_ok(ps@),
            _ => true,
        },
    ensures
        match member_error(*member) {
            Some(msg) => r matches Err(CompilerError::InvalidEventType { type_ident }) && type_ident@ == msg,
            None => r matches Ok(v) && member_converted(*member, v),
        },
{
    match member {
        TypeNode::ObjectLiteral(props) => convert_object_to_variant(props),
        _ => Err(CompilerError::InvalidEventType { type_ident: crate::text::to_owned_string("union member") }),
    }
}

/// Converts an event type alias.
pub fn convert_event_type(alias: &TypeAlias) -> (r: Result<EventTypeIR, CompilerError>)
    requires
        alias_ok(*alias),
    ensures
        converted_event_type(*alias, r),
{
    match &alias.type_node {
        TypeNode::Union(members) => {
            let mut variants: Vec<EventVariant> = Vec::new();
            let mut i: usize = 0;
            while i < members.len()
                invariant
                    i <= members@.len(),
                    alias_ok(*alias),
                    alias.type_node == TypeNode::Union(*members),
                    forall|m: int| 0 <= m < i ==> member_error(members@[m]) is None,
                    variants@.len() == i,
                    forall|k: int|
                        0 <= k < i ==> #[trigger] member_converted(members@[k], variants@[k]),
                decreases members.len() - i,
            {
                proof {
                    assert(match members@[i as int] {
                        TypeNode::ObjectLiteral(ps) => props_ok(ps@),
                        _ => true,
                    });
                }
                match convert_event_variant(&members[i]) {
                    Ok(v) => {
                        variants.push(v);
                    },
                    Err(e) => {
                        proof {
                            lemma_first_member_error(members@, 0, i as int);
                        }
                        return Err(e);
                    },
                }
                i = i + 1;
            }
            proof {
                lemma_first_member_error(members@, 0, members@.len() as int);
            }
            Ok(EventTypeIR { name: alias.name.clone(), variants })
        },
        TypeNode::ObjectLiteral(props) => {
            match convert_object_to_variant(props) {
                Ok(v) => Ok(EventTypeIR { name: alias.name.clone(), variants: vec![v] }),
                Err(e) => Err(e),
            }
        },
        _ => Err(CompilerError::InvalidEventType { type_ident: alias.name.clone() }),
    }
}

/// `r` is the conversion of a state type alias: an object type's properties
/// become fields.
pub open spec fn converted_state_type(alias: TypeAlias, r: Result<ObjectType, CompilerError>) -> bool {
    match alias.type_node {
        TypeNode::ObjectLiteral(ps) => {
            &&& r matches Ok(o)
            &&& o.fields@.len() == ps@.len()
            &&& forall|k: int|
                0 <= k < ps@.len() ==> {
                    &&& #[trigger] o.fields@[k].name@ == ps@[k].name@
                    &&& o.fields@[k].optional == ps@[k].optional
                    &&& converted_type(ps@[k].type_node, o.fields@[k].typ)
                }
        },
        _ => r matches Err(CompilerError::InvalidStateType { type_ident }) && type_ident@ == alias.name@,
    }
}

/// Converts a state type alias.
pub fn convert_state_type(alias: &TypeAlias) -> (r: Result<ObjectType, CompilerError>)
    requires
        alias_ok(*alias),
    ensures
        converted_state_type(*alias, r),
{
    match &alias.type_node {
        TypeNode::ObjectLiteral(_) => {
            match convert_type_node(&alias.type_node) {
                DomainType::Object(o) => Ok(o),
                _ => Err(CompilerError::InvalidStateType { type_ident: alias.name.clone() }),
            }
        },
        _ => Err(CompilerError::InvalidStateType { type_ident: alias.name.clone() }),
    }
}

} // verus!
