//! Purity validation: the commands of an aggregate must not call anything
//! with side effects (console, network, timers, clocks, randomness, the DOM,
//! the file system). A plain call is checked by its callee's name, a method
//! call by the debug rendering of its receiver followed by `.` and the method.

use vstd::prelude::*;

use crate::diagnostic::CompilerError;
use crate::ir::aggregate::{AggregateIR, BinaryOp, CommandIR, ExpressionIR, StatementIR, UnaryOp};
use crate::text::{contains, seq_contains, spec_str_debug, str_debug};

verus! {

// ---------------------------------------------------------------------------
// Debug rendering of expressions
// ---------------------------------------------------------------------------

pub open spec fn spec_binary_op_name(op: BinaryOp) -> Seq<char> {
    match op {
        BinaryOp::Eq => "Eq"@,
        BinaryOp::NotEq => "NotEq"@,
        BinaryOp::Lt => "Lt"@,
        BinaryOp::LtEq => "LtEq"@,
        BinaryOp::Gt => "Gt"@,
        BinaryOp::GtEq => "GtEq"@,
        BinaryOp::And => "And"@,
        BinaryOp::Or => "Or"@,
        BinaryOp::Add => "Add"@,
        BinaryOp::Sub => "Sub"@,
        BinaryOp::Mul => "Mul"@,
        BinaryOp::Div => "Div"@,
    }
}

fn binary_op_name(op: BinaryOp) -> (r: &'static str)
    ensures
        r@ == spec_binary_op_name(op),
{
    match op {
        BinaryOp::Eq => "Eq",
        BinaryOp::NotEq => "NotEq",
        BinaryOp::Lt => "Lt",
        BinaryOp::LtEq => "LtEq",
        BinaryOp::Gt => "Gt",
        BinaryOp::GtEq => "GtEq",
        BinaryOp::And => "And",
        BinaryOp::Or => "Or",
        BinaryOp::Add => "Add",
        BinaryOp::Sub => "Sub",
        BinaryOp::Mul => "Mul",
        BinaryOp::Div => "Div",
    }
}

/// The `{:?}` rendering of an expression (a number literal by its text).
pub open spec fn spec_debug_expr(e: ExpressionIR) -> Seq<char>
    decreases e, 0nat, 0int,
{
    match e {
        ExpressionIR::StringLiteral(s) => "StringLiteral("@ + spec_str_debug(s@) + ")"@,
        ExpressionIR::NumberLiteral(n) => "NumberLiteral("@ + n@ + ")"@,
        ExpressionIR::BooleanLiteral(b) => "BooleanLiteral("@ + (if b { "true"@ } else { "false"@ }) + ")"@,
        ExpressionIR::Identifier(s) => "Identifier("@ + spec_str_debug(s@) + ")"@,
        ExpressionIR::StateAccess(s) => "StateAccess("@ + spec_str_debug(s@) + ")"@,
        ExpressionIR::PropertyAccess { object, property } => "PropertyAccess { object: "@ + spec_debug_expr(*object)
            + ", property: "@ + spec_str_debug(property@) + " }"@,
        ExpressionIR::MethodCall { object, method, arguments } => "MethodCall { object: "@ + spec_debug_expr(*object)
            + ", method: "@ + spec_str_debug(method@) + ", arguments: ["@ + spec_debug_list(
            arguments@,
            arguments@.len() as int,
        ) + "] }"@,
        ExpressionIR::Call { callee, arguments } => "Call { callee: "@ + spec_str_debug(callee@) + ", arguments: ["@
            + spec_debug_list(arguments@, arguments@.len() as int) + "] }"@,
        ExpressionIR::New { callee, arguments } => "New { callee: "@ + spec_str_debug(callee@) + ", arguments: ["@
            + spec_debug_list(arguments@, arguments@.len() as int) + "] }"@,
        ExpressionIR::Binary { left, operator, right } => "Binary { left: "@ + spec_debug_expr(*left)
            + ", operator: "@ + spec_binary_op_name(operator) + ", right: "@ + spec_debug_expr(*right) + " }"@,
        ExpressionIR::Unary { operator, operand } => "Unary { operator: "@ + (match operator {
            UnaryOp::Not => "Not"@,
            UnaryOp::Neg => "Neg"@,
        }) + ", operand: "@ + spec_debug_expr(*operand) + " }"@,
        ExpressionIR::Object(fields) => "Object(["@ + spec_debug_entries(fields@, fields@.len() as int) + "])"@,
        ExpressionIR::Array(elements) => "Array(["@ + spec_debug_list(elements@, elements@.len() as int) + "])"@,
    }
}

/// The renderings of the first `n` expressions, joined by `", "`.
pub open spec fn spec_debug_list(es: Seq<ExpressionIR>, n: int) -> Seq<char>
    decreases es, 1nat, n,
{
    if n <= 0 || n > es.len() {
        Seq::empty()
    } else if n == 1 {
        spec_debug_expr(es[0])
    } else {
        spec_debug_list(es, n - 1) + ", "@ + spec_debug_expr(es[n - 1])
    }
}

/// The renderings `("key", value)` of the first `n` entries, joined by `", "`.
pub open spec fn spec_debug_entries(fs: Seq<(String, ExpressionIR)>, n: int) -> Seq<char>
    decreases fs, 1nat, n,
{
    if n <= 0 || n > fs.len() {
        Seq::empty()
    } else {
        let item = "("@ + spec_str_debug(fs[n - 1].0@) + ", "@ + spec_debug_expr(fs[n - 1].1) + ")"@;
        if n == 1 {
            item
        } else {
            spec_debug_entries(fs, n - 1) + ", "@ + item
        }
    }
}

fn debug_wrapped(prefix: &str, s: &str) -> (r: String)
    ensures
        r@ == prefix@ + spec_str_debug(s@) + ")"@,
{
    let mut out = crate::text::to_owned_string(prefix);
    let d = str_debug(s);
    out.append(d.as_str());
    out.append(")");
    out
}

/// Renders an expression as `{:?}` does.
pub fn debug_expr(e: &ExpressionIR) -> (r: String)
    ensures
        r@ == spec_debug_expr(*e),
    decreases e, 0nat, 0int,
{
    match e {
        ExpressionIR::StringLiteral(s) => debug_wrapped("StringLiteral(", s.as_str()),
        ExpressionIR::NumberLiteral(n) => {
            let mut out = crate::text::to_owned_string("NumberLiteral(");
            out.append(n.as_str());
            out.append(")");
            out
        },
        ExpressionIR::BooleanLiteral(b) => {
            let mut out = crate::text::to_owned_string("BooleanLiteral(");
            out.append(if *b { "true" } else { "false" });
            out.append(")");
            out
        },
        ExpressionIR::Identifier(s) => debug_wrapped("Identifier(", s.as_str()),
        ExpressionIR::StateAccess(s) => debug_wrapped("StateAccess(", s.as_str()),
        ExpressionIR::PropertyAccess { object, property } => {
            let mut out = crate::text::to_owned_string("PropertyAccess { object: ");
            let o = debug_expr(object);
            out.append(o.as_str());
            out.append(", property: ");
            let p = str_debug(property.as_str());
            out.append(p.as_str());
            out.append(" }");
            out
        },
        ExpressionIR::MethodCall { object, method, arguments } => {
            let mut out = crate::text::to_owned_string("MethodCall { object: ");
            let o = debug_expr(object);
            out.append(o.as_str());
            out.append(", method: ");
            let m = str_debug(method.as_str());
            out.append(m.as_str());
            out.append(", arguments: [");
            let a = debug_list(arguments);
            out.append(a.as_str());
            out.append("] }");
            out
        },
        ExpressionIR::Call { callee, arguments } => {
            let mut out = crate::text::to_owned_string("Call { callee: ");
            let c = str_debug(callee.as_str());
            out.append(c.as_str());
            out.append(", arguments: [");
            let a = debug_list(arguments);
            out.append(a.as_str());
            out.append("] }");
            out
        },
        ExpressionIR::New { callee, arguments } => {
            let mut out = crate::text::to_owned_string("New { callee: ");
            let c = str_debug(callee.as_str());
            out.append(c.as_str());
            out.append(", arguments: [");
            let a = debug_list(arguments);
            out.append(a.as_str());
            out.append("] }");
            out
        },
        ExpressionIR::Binary { left, operator, right } => {
            let mut out = crate::text::to_owned_string("Binary { left: ");
            let l = debug_expr(left);
            out.append(l.as_str());
            out.append(", operator: ");
            out.append(binary_op_name(*operator));
            out.append(", right: ");
            let r = debug_expr(right);
            out.append(r.as_str());
            out.append(" }");
            out
        },
        ExpressionIR::Unary { operator, operand } => {
            let mut out = crate::text::to_owned_string("Unary { operator: ");
            out.append(
                match operator {
                    UnaryOp::Not => "Not",
                    UnaryOp::Neg => "Neg",
                },
            );
            out.append(", operand: ");
            let o = debug_expr(operand);
            out.append(o.as_str());
            out.append(" }");
            out
        },
        ExpressionIR::Object(fields) => {
            let mut out = crate::text::to_owned_string("Object([");
            let b = debug_entries(fields);
            out.append(b.as_str());
            out.append("])");
            out
        },
        ExpressionIR::Array(elements) => {
            let mut out = crate::text::to_owned_string("Array([");
            let b = debug_list(elements);
            out.append(b.as_str());
            out.append("])");
            out
        },
    }
}

fn debug_list(es: &Vec<ExpressionIR>) -> (r: String)
    ensures
        r@ == spec_debug_list(es@, es@.len() as int),
    decreases es@, 1nat, es@.len() as int,
{
    let mut out = String::new();
    let mut i: usize = 0;
    while i < es.len()
        invariant
            i <= es@.len(),
            out@ == spec_debug_list(es@, i as int),
        decreases es.len() - i,
    {
        if i > 0 {
            out.append(", ");
        }
        assert(decreases_to!(es@ => es@[i as int]));
        let s = debug_expr(&es[i]);
        out.append(s.as_str());
        i = i + 1;
    }
    out
}

fn debug_entries(fs: &Vec<(String, ExpressionIR)>) -> (r: String)
    ensures
        r@ == spec_debug_entries(fs@, fs@.len() as int),
    decreases fs@, 1nat, fs@.len() as int,
{
    let mut out = String::new();
    let mut i: usize = 0;
    while i < fs.len()
        invariant
            i <= fs@.len(),
            out@ == spec_debug_entries(fs@, i as int),
        decreases fs.len() - i,
    {
        if i > 0 {
            out.append(", ");
        }
        let entry = &fs[i];
        out.append("(");
        let k = str_debug(entry.0.as_str());
        out.append(k.as_str());
        out.append(", ");
        assert(decreases_to!(fs@ => fs@[i as int].1));
        let v = debug_expr(&entry.1);
        out.append(v.as_str());
        out.append(")");
        i = i + 1;
    }
    out
}

// ---------------------------------------------------------------------------
// Violations
// ---------------------------------------------------------------------------

/// The calls that domain logic must not make.
pub open spec fn spec_forbidden_calls() -> Seq<Seq<char>> {
    seq![
        "console.log"@, "console.error"@, "console.warn"@, "console.info"@, "console.debug"@, "fetch"@,
        "XMLHttpRequest"@, "setTimeout"@, "setInterval"@, "setImmediate"@, "Date.now"@, "Math.random"@,
        "document"@, "window"@, "fs.readFileSync"@, "fs.writeFileSync"@,
    ]
}

/// The forbidden calls.
pub fn forbidden_calls() -> (r: Vec<&'static str>)
    ensures
        r@.map_values(|s: &str| s@) == spec_forbidden_calls(),
{
    let r = vec![
        "console.log", "console.error", "console.warn", "console.info", "console.debug", "fetch",
        "XMLHttpRequest", "setTimeout", "setInterval", "setImmediate", "Date.now", "Math.random",
        "document", "window", "fs.readFileSync", "fs.writeFileSync",
    ];
    assert(r@.map_values(|s: &str| s@) =~= spec_forbidden_calls());
    r
}

/// Whether a name mentions a forbidden call.
pub open spec fn is_forbidden(name: Seq<char>) -> bool {
    exists|k: int| 0 <= k < spec_forbidden_calls().len() && seq_contains(name, #[trigger] spec_forbidden_calls()[k])
}

fn check_forbidden(name: &str) -> (r: bool)
    ensures
        r == is_forbidden(name@),
{
    let words = forbidden_calls();
    crate::ir::projection::contains_any_word(name, &words)
}

/// The first forbidden name in an expression, in evaluation order of the
/// check: a call's callee before its arguments, a method call's rendering
/// before its receiver and arguments.
pub open spec fn spec_expr_violation(e: ExpressionIR) -> Option<Seq<char>>
    decreases e, 0nat, 0int,
{
    match e {
        ExpressionIR::Call { callee, arguments } => if is_forbidden(callee@) {
            Some(callee@)
        } else {
            spec_list_violation(arguments@, arguments@.len() as int)
        },
        ExpressionIR::MethodCall { object, method, arguments } => {
            let full = spec_debug_expr(*object) + "."@ + method@;
            if is_forbidden(full) {
                Some(full)
            } else {
                match spec_expr_violation(*object) {
                    Some(x) => Some(x),
                    None => spec_list_violation(arguments@, arguments@.len() as int),
                }
            }
        },
        ExpressionIR::PropertyAccess { object, .. } => spec_expr_violation(*object),
        ExpressionIR::Binary { left, right, .. } => match spec_expr_violation(*left) {
            Some(x) => Some(x),
            None => spec_expr_violation(*right),
        },
        ExpressionIR::Unary { operand, .. } => spec_expr_violation(*operand),
        ExpressionIR::Object(fields) => spec_entries_violation(fields@, fields@.len() as int),
        ExpressionIR::Array(elements) => spec_list_violation(elements@, elements@.len() as int),
        _ => None,
    }
}

/// The first violation among the first `n` expressions.
pub open spec fn spec_list_violation(es: Seq<ExpressionIR>, n: int) -> Option<Seq<char>>
    decreases es, 1nat, n,
{
    if n <= 0 || n > es.len() {
        None
    } else {
        match spec_list_violation(es, n - 1) {
            Some(x) => Some(x),
            None => spec_expr_violation(es[n - 1]),
        }
    }
}

/// The first violation among the values of the first `n` entries.
pub open spec fn spec_entries_violation(fs: Seq<(String, ExpressionIR)>, n: int) -> Option<Seq<char>>
    decreases fs, 1nat, n,
{
    if n <= 0 || n > fs.len() {
        None
    } else {
        match spec_entries_violation(fs, n - 1) {
            Some(x) => Some(x),
            None => spec_expr_violation(fs[n - 1].1),
        }
    }
}

/// Validates an expression for purity: the name of its first forbidden call
/// (a callee, or for a method call its object's debug text, a dot and the
/// method, that contains a forbidden name), or none where it is pure.
pub fn validate_expression(e: &ExpressionIR) -> (r: Option<String>)
    ensures
        match spec_expr_violation(*e) {
            Some(x) => r matches Some(s) && s@ == x,
            None => r is None,
        },
    decreases e, 0nat, 0int,
{
    match e {
        ExpressionIR::Call { callee, arguments } => {
            if check_forbidden(callee.as_str()) {
                Some(callee.clone())
            } else {
                list_violation(arguments)
            }
        },
        ExpressionIR::MethodCall { object, method, arguments } => {
            let mut full = debug_expr(object);
            full.append(".");
            full.append(method.as_str());
            if check_forbidden(full.as_str()) {
                Some(full)
            } else {
                match validate_expression(object) {
                    Some(x) => Some(x),
                    None => list_violation(arguments),
                }
            }
        },
        ExpressionIR::PropertyAccess { object, .. } => validate_expression(object),
        ExpressionIR::Binary { left, right, .. } => match validate_expression(left) {
            Some(x) => Some(x),
            None => validate_expression(right),
        },
        ExpressionIR::Unary { operand, .. } => validate_expression(operand),
        ExpressionIR::Object(fields) => entries_violation(fields),
        ExpressionIR::Array(elements) => list_violation(elements),
        _ => None,
    }
}

fn list_violation(es: &Vec<ExpressionIR>) -> (r: Option<String>)
    ensures
        match spec_list_violation(es@, es@.len() as int) {
            Some(x) => r matches Some(s) && s@ == x,
            None => r is None,
        },
    decreases es@, 1nat, es@.len() as int,
{
    let mut i: usize = 0;
    while i < es.len()
        invariant
            i <= es@.len(),
            spec_list_violation(es@, i as int) is None,
        decreases es.len() - i,
    {
        assert(decreases_to!(es@ => es@[i as int]));
        match validate_expression(&es[i]) {
            Some(x) => {
                proof {
                    lemma_list_violation_stays(es@, i + 1);
                }
                return Some(x);
            },
            None => {},
        }
        i = i + 1;
    }
    None
}

fn entries_violation(fs: &Vec<(String, ExpressionIR)>) -> (r: Option<String>)
    ensures
        match spec_entries_violation(fs@, fs@.len() as int) {
            Some(x) => r matches Some(s) && s@ == x,
            None => r is None,
        },
    decreases fs@, 1nat, fs@.len() as int,
{
    let mut i: usize = 0;
    while i < fs.len()
        invariant
            i <= fs@.len(),
            spec_entries_violation(fs@, i as int) is None,
        decreases fs.len() - i,
    {
        assert(decreases_to!(fs@ => fs@[i as int].1));
        match validate_expression(&fs[i].1) {
            Some(x) => {
                proof {
                    lemma_entries_violation_stays(fs@, i + 1);
                }
                return Some(x);
            },
            None => {},
        }
        i = i + 1;
    }
    None
}

/// Once found, a violation stays the first one.
proof fn lemma_list_violation_stays(es: Seq<ExpressionIR>, n: int)
    requires
        0 < n <= es.len(),
        spec_list_violation(es, n) is Some,
    ensures
        spec_list_violation(es, es.len() as int) == spec_list_violation(es, n),
    decreases es.len() - n,
{
    if n < es.len() {
        lemma_list_violation_stays(es, n + 1);
    }
}

proof fn lemma_entries_violation_stays(fs: Seq<(String, ExpressionIR)>, n: int)
    requires
        0 < n <= fs.len(),
        spec_entries_violation(fs, n) is Some,
    ensures
        spec_entries_violation(fs, fs.len() as int) == spec_entries_violation(fs, n),
    decreases fs.len() - n,
{
    if n < fs.len() {
        lemma_entries_violation_stays(fs, n + 1);
    }
}

proof fn lemma_list_violation_of_element(es: Seq<ExpressionIR>, k: int)
    requires
        0 <= k < es.len(),
        spec_expr_violation(es[k]) is Some,
    ensures
        spec_list_violation(es, es.len() as int) is Some,
{
    assert(spec_list_violation(es, k + 1) is Some);
    lemma_list_violation_stays(es, k + 1);
}

proof fn lemma_entries_violation_of_element(fs: Seq<(String, ExpressionIR)>, k: int)
    requires
        0 <= k < fs.len(),
        spec_expr_violation(fs[k].1) is Some,
    ensures
        spec_entries_violation(fs, fs.len() as int) is Some,
{
    assert(spec_entries_violation(fs, k + 1) is Some);
    lemma_entries_violation_stays(fs, k + 1);
}

/// Whether `c` is one of the sub-expressions of `e` that run when `e` runs and
/// that the check looks into: a call's arguments, a method call's receiver and
/// arguments, an accessed object, both operands of a binary operator, the
/// operand of a unary one, the values of an object literal and the elements of
/// an array literal.
pub open spec fn is_checked_part(e: ExpressionIR, c: ExpressionIR) -> bool {
    match e {
        ExpressionIR::Call { arguments, .. } => arguments@.contains(c),
        ExpressionIR::MethodCall { object, arguments, .. } => *object == c || arguments@.contains(c),
        ExpressionIR::PropertyAccess { object, .. } => *object == c,
        ExpressionIR::Binary { left, right, .. } => *left == c || *right == c,
        ExpressionIR::Unary { operand, .. } => *operand == c,
        ExpressionIR::Object(fields) => exists|k: int| 0 <= k < fields@.len() && #[trigger] fields@[k].1 == c,
        ExpressionIR::Array(elements) => elements@.contains(c),
        _ => false,
    }
}

/// An expression is pure only if its parts are: a forbidden call in any
/// checked part (either operand of an operator, an argument, a receiver, a
/// field value, an element) makes the whole expression impure, and a call of a
/// forbidden callee is reported under the callee's name.
pub proof fn law_impure_part_makes_expression_impure(e: ExpressionIR, c: ExpressionIR)
    ensures
        is_checked_part(e, c) && spec_expr_violation(c) is Some ==> spec_expr_violation(e) is Some,
        e matches ExpressionIR::Call { callee, .. } ==> (is_forbidden(callee@) ==> spec_expr_violation(e) == Some(
            callee@,
        )),
{
    if is_checked_part(e, c) && spec_expr_violation(c) is Some {
        match e {
            ExpressionIR::Call { callee, arguments } => {
                if !is_forbidden(callee@) {
                    let k = choose|k: int| 0 <= k < arguments@.len() && arguments@[k] == c;
                    lemma_list_violation_of_element(arguments@, k);
                }
            },
            ExpressionIR::MethodCall { object, method, arguments } => {
                if *object != c {
                    let k = choose|k: int| 0 <= k < arguments@.len() && arguments@[k] == c;
                    lemma_list_violation_of_element(arguments@, k);
                }
            },
            ExpressionIR::Object(fields) => {
                let k = choose|k: int| 0 <= k < fields@.len() && #[trigger] fields@[k].1 == c;
                lemma_entries_violation_of_element(fields@, k);
            },
            ExpressionIR::Array(elements) => {
                let k = choose|k: int| 0 <= k < elements@.len() && elements@[k] == c;
                lemma_list_violation_of_element(elements@, k);
            },
            _ => {},
        }
    }
}

/// Nothing pure is reported: a name that the check reports for an expression
/// mentions one of the forbidden calls.
pub proof fn law_reported_name_is_forbidden(e: ExpressionIR)
    ensures
        spec_expr_violation(e) matches Some(x) ==> is_forbidden(x),
    decreases e, 0nat, 0int,
{
    match e {
        ExpressionIR::Call { arguments, .. } => {
            lemma_list_reported_name(arguments@, arguments@.len() as int);
        },
        ExpressionIR::MethodCall { object, arguments, .. } => {
            law_reported_name_is_forbidden(*object);
            lemma_list_reported_name(arguments@, arguments@.len() as int);
        },
        ExpressionIR::PropertyAccess { object, .. } => {
            law_reported_name_is_forbidden(*object);
        },
        ExpressionIR::Binary { left, right, .. } => {
            law_reported_name_is_forbidden(*left);
            law_reported_name_is_forbidden(*right);
        },
        ExpressionIR::Unary { operand, .. } => {
            law_reported_name_is_forbidden(*operand);
        },
        ExpressionIR::Object(fields) => {
            lemma_entries_reported_name(fields@, fields@.len() as int);
        },
        ExpressionIR::Array(elements) => {
            lemma_list_reported_name(elements@, elements@.len() as int);
        },
        _ => {},
    }
}

proof fn lemma_list_reported_name(es: Seq<ExpressionIR>, n: int)
    ensures
        spec_list_violation(es, n) matches Some(x) ==> is_forbidden(x),
    decreases es, 1nat, n,
{
    if 0 < n <= es.len() {
        lemma_list_reported_name(es, n - 1);
        law_reported_name_is_forbidden(es[n - 1]);
    }
}

proof fn lemma_entries_reported_name(fs: Seq<(String, ExpressionIR)>, n: int)
    ensures
        spec_entries_violation(fs, n) matches Some(x) ==> is_forbidden(x),
    decreases fs, 1nat, n,
{
    if 0 < n <= fs.len() {
        lemma_entries_reported_name(fs, n - 1);
        law_reported_name_is_forbidden(fs[n - 1].1);
    }
}

/// The first forbidden name in a statement.
pub open spec fn spec_stmt_violation(s: StatementIR) -> Option<Seq<char>>
    decreases s, 0nat, 0int,
{
    match s {
        StatementIR::If { condition, then_branch, else_branch } => match spec_expr_violation(condition) {
            Some(x) => Some(x),
            None => match spec_block_violation(then_branch@, then_branch@.len() as int) {
                Some(x) => Some(x),
                None => match else_branch {
                    Some(es) => spec_block_violation(es@, es@.len() as int),
                    None => None,
                },
            },
        },
        StatementIR::Throw { .. } => None,
        StatementIR::Emit { fields, .. } => spec_entries_violation(fields@, fields@.len() as int),
        StatementIR::Let { value, .. } => spec_expr_violation(value),
        StatementIR::Expression(e) => spec_expr_violation(e),
        StatementIR::Return(Some(e)) => spec_expr_violation(e),
        StatementIR::Return(None) => None,
    }
}

/// The first violation among the first `n` statements.
pub open spec fn spec_block_violation(ss: Seq<StatementIR>, n: int) -> Option<Seq<char>>
    decreases ss, 1nat, n,
{
    if n <= 0 || n > ss.len() {
        None
    } else {
        match spec_block_violation(ss, n - 1) {
            Some(x) => Some(x),
            None => spec_stmt_violation(ss[n - 1]),
        }
    }
}

proof fn lemma_block_violation_stays(ss: Seq<StatementIR>, n: int)
    requires
        0 < n <= ss.len(),
        spec_block_violation(ss, n) is Some,
    ensures
        spec_block_violation(ss, ss.len() as int) == spec_block_violation(ss, n),
    decreases ss.len() - n,
{
    if n < ss.len() {
        lemma_block_violation_stays(ss, n + 1);
    }
}

/// Validates a statement for purity: the name of the first forbidden call in
/// it, or none where it is pure (a `throw` always is).
pub fn validate_statement(s: &StatementIR) -> (r: Option<String>)
    ensures
        match spec_stmt_violation(*s) {
            Some(x) => r matches Some(t) && t@ == x,
            None => r is None,
        },
    decreases s, 0nat, 0int,
{
    match s {
        StatementIR::If { condition, then_branch, else_branch } => match validate_expression(condition) {
            Some(x) => Some(x),
            None => match block_violation(then_branch) {
                Some(x) => Some(x),
                None => match else_branch {
                    Some(es) => block_violation(es),
                    None => None,
                },
            },
        },
        StatementIR::Throw { .. } => None,
        StatementIR::Emit { fields, .. } => entries_violation(fields),
        StatementIR::Let { value, .. } => validate_expression(value),
        StatementIR::Expression(e) => validate_expression(e),
        StatementIR::Return(Some(e)) => validate_expression(e),
        StatementIR::Return(None) => None,
    }
}

fn block_violation(ss: &Vec<StatementIR>) -> (r: Option<String>)
    ensures
        match spec_block_violation(ss@, ss@.len() as int) {
            Some(x) => r matches Some(t) && t@ == x,
            None => r is None,
        },
    decreases ss@, 1nat, ss@.len() as int,
{
    let mut i: usize = 0;
    while i < ss.len()
        invariant
            i <= ss@.len(),
            spec_block_violation(ss@, i as int) is None,
        decreases ss.len() - i,
    {
        assert(decreases_to!(ss@ => ss@[i as int]));
        match validate_statement(&ss[i]) {
            Some(x) => {
                proof {
                    lemma_block_violation_stays(ss@, i + 1);
                }
                return Some(x);
            },
            None => {},
        }
        i = i + 1;
    }
    None
}

/// The first violation in the bodies of the first `n` commands.
pub open spec fn spec_commands_violation(cs: Seq<CommandIR>, n: int) -> Option<Seq<char>>
    decreases n,
{
    if n <= 0 || n > cs.len() {
        None
    } else {
        match spec_commands_violation(cs, n - 1) {
            Some(x) => Some(x),
            None => spec_block_violation(cs[n - 1].body@, cs[n - 1].body@.len() as int),
        }
    }
}

/// The first forbidden name in the commands of an aggregate.
pub open spec fn spec_aggregate_violation(a: AggregateIR) -> Option<Seq<char>> {
    spec_commands_violation(a.commands@, a.commands@.len() as int)
}

/// `e` reports the first violation of `a`: the forbidden name, the source
/// file, and line 0 (the IR keeps no lines).
pub open spec fn is_violation_error(a: AggregateIR, e: CompilerError) -> bool {
    match spec_aggregate_violation(a) {
        Some(name) => e matches CompilerError::ForbiddenCall { name: n, file, line } && n@ == name && file@
            == a.source_path@ && line == 0,
        None => false,
    }
}

proof fn lemma_commands_violation_stays(cs: Seq<CommandIR>, n: int)
    requires
        0 < n <= cs.len(),
        spec_commands_violation(cs, n) is Some,
    ensures
        spec_commands_violation(cs, cs.len() as int) == spec_commands_violation(cs, n),
    decreases cs.len() - n,
{
    if n < cs.len() {
        lemma_commands_violation_stays(cs, n + 1);
    }
}

/// Validates that the commands of an aggregate call nothing impure.
pub fn validate_aggregate_purity(aggregate: &AggregateIR) -> (r: Result<(), CompilerError>)
    ensures
        spec_aggregate_violation(*aggregate) is None ==> r is Ok,
        spec_aggregate_violation(*aggregate) is Some ==> r is Err && is_violation_error(*aggregate, r->Err_0),
{
    let mut i: usize = 0;
    while i < aggregate.commands.len()
        invariant
            i <= aggregate.commands@.len(),
            spec_commands_violation(aggregate.commands@, i as int) is None,
        decreases aggregate.commands.len() - i,
    {
        match block_violation(&aggregate.commands[i].body) {
            Some(name) => {
                proof {
                    lemma_commands_violation_stays(aggregate.commands@, i + 1);
                }
                return Err(CompilerError::ForbiddenCall { name, file: aggregate.source_path.clone(), line: 0 });
            },
            None => {},
        }
        i = i + 1;
    }
    Ok(())
}

} // verus!
