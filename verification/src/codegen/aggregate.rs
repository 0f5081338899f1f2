//! TypeScript rendering of an aggregate class: state, pending events, the
//! apply method and one method per command.

use vstd::prelude::*;

use crate::codegen::ts_types::{spec_snake_case, spec_ts_type, to_snake_case, to_ts_type};
use crate::ir::aggregate::{AggregateIR, BinaryOp, CommandIR, EventVariant, ExpressionIR, StatementIR, UnaryOp};
use crate::ir::ObjectType;
use crate::text::{chars_of, lemma_flatten_new_step, lemma_join_new_step, push_char, seq_flatten, seq_join};

verus! {

// ---------------------------------------------------------------------------
// Expressions
// ---------------------------------------------------------------------------

/// A string with every `"` preceded by a backslash.
pub open spec fn spec_escape_quotes(s: Seq<char>) -> Seq<char> {
    seq_flatten(Seq::new(s.len(), |i: int| if s[i] == '"' { seq!['\\', '"'] } else { seq![s[i]] }))
}

/// The TypeScript operator of a binary operator.
pub open spec fn spec_binary_op(op: BinaryOp) -> Seq<char> {
    match op {
        BinaryOp::Eq => "==="@,
        BinaryOp::NotEq => "!=="@,
        BinaryOp::Lt => "<"@,
        BinaryOp::LtEq => "<="@,
        BinaryOp::Gt => ">"@,
        BinaryOp::GtEq => ">="@,
        BinaryOp::And => "&&"@,
        BinaryOp::Or => "||"@,
        BinaryOp::Add => "+"@,
        BinaryOp::Sub => "-"@,
        BinaryOp::Mul => "*"@,
        BinaryOp::Div => "/"@,
    }
}

/// The TypeScript text of an expression.
pub open spec fn spec_expression(e: ExpressionIR) -> Seq<char>
    decreases e, 0nat, 0int,
{
    match e {
        ExpressionIR::StringLiteral(s) => "\""@ + spec_escape_quotes(s@) + "\""@,
        ExpressionIR::NumberLiteral(n) => n@,
        ExpressionIR::BooleanLiteral(b) => if b { "true"@ } else { "false"@ },
        ExpressionIR::Identifier(name) => name@,
        ExpressionIR::StateAccess(field) => "this.state."@ + field@,
        ExpressionIR::PropertyAccess { object, property } => spec_expression(*object) + "."@ + property@,
        ExpressionIR::MethodCall { object, method, arguments } => spec_expression(*object) + "."@ + method@
            + "("@ + spec_exprs_joined(arguments@, arguments@.len() as int) + ")"@,
        ExpressionIR::Call { callee, arguments } => callee@ + "("@ + spec_exprs_joined(
            arguments@,
            arguments@.len() as int,
        ) + ")"@,
        ExpressionIR::New { callee, arguments } => "new "@ + callee@ + "("@ + spec_exprs_joined(
            arguments@,
            arguments@.len() as int,
        ) + ")"@,
        ExpressionIR::Binary { left, operator, right } => "("@ + spec_expression(*left) + " "@ + spec_binary_op(
            operator,
        ) + " "@ + spec_expression(*right) + ")"@,
        ExpressionIR::Unary { operator, operand } => match operator {
            UnaryOp::Not => "!"@ + spec_expression(*operand),
            UnaryOp::Neg => "-"@ + spec_expression(*operand),
        },
        ExpressionIR::Object(fields) => "{ "@ + spec_entries_joined(fields@, fields@.len() as int) + " }"@,
        ExpressionIR::Array(elements) => "["@ + spec_exprs_joined(elements@, elements@.len() as int) + "]"@,
    }
}

/// The first `n` expressions of `es`, joined by `", "`.
pub open spec fn spec_exprs_joined(es: Seq<ExpressionIR>, n: int) -> Seq<char>
    decreases es, 1nat, n,
{
    if n <= 0 || n > es.len() {
        Seq::empty()
    } else if n == 1 {
        spec_expression(es[0])
    } else {
        spec_exprs_joined(es, n - 1) + ", "@ + spec_expression(es[n - 1])
    }
}

/// The first `n` entries `key: value` of an object literal, joined by `", "`.
pub open spec fn spec_entries_joined(fs: Seq<(String, ExpressionIR)>, n: int) -> Seq<char>
    decreases fs, 1nat, n,
{
    if n <= 0 || n > fs.len() {
        Seq::empty()
    } else if n == 1 {
        fs[0].0@ + ": "@ + spec_expression(fs[0].1)
    } else {
        spec_entries_joined(fs, n - 1) + ", "@ + fs[n - 1].0@ + ": "@ + spec_expression(fs[n - 1].1)
    }
}

pub(crate) fn escape_quotes(s: &str) -> (r: String)
    ensures
        r@ == spec_escape_quotes(s@),
{
    let cs = chars_of(s);
    let ghost f = |i: int| if s@[i] == '"' { seq!['\\', '"'] } else { seq![s@[i]] };
    let mut out = String::new();
    let mut i: usize = 0;
    while i < cs.len()
        invariant
            cs@ == s@,
            i <= cs@.len(),
            f == (|i: int| if s@[i] == '"' { seq!['\\', '"'] } else { seq![s@[i]] }),
            out@ == seq_flatten(Seq::new(i as nat, f)),
        decreases cs.len() - i,
    {
        let c = cs[i];
        if c == '"' {
            push_char(&mut out, '\\');
            push_char(&mut out, '"');
        } else {
            push_char(&mut out, c);
        }
        proof {
            lemma_flatten_new_step(f, i as int);
            assert(f(i as int) =~= (if c == '"' { seq!['\\', '"'] } else { seq![c] }));
        }
        i = i + 1;
    }
    out
}

fn binary_op_text(op: BinaryOp) -> (r: &'static str)
    ensures
        r@ == spec_binary_op(op),
{
    match op {
        BinaryOp::Eq => "===",
        BinaryOp::NotEq => "!==",
        BinaryOp::Lt => "<",
        BinaryOp::LtEq => "<=",
        BinaryOp::Gt => ">",
        BinaryOp::GtEq => ">=",
        BinaryOp::And => "&&",
        BinaryOp::Or => "||",
        BinaryOp::Add => "+",
        BinaryOp::Sub => "-",
        BinaryOp::Mul => "*",
        BinaryOp::Div => "/",
    }
}

/// Generates the TypeScript text of an expression.
pub fn generate_expression(expr: &ExpressionIR) -> (r: String)
    ensures
        r@ == spec_expression(*expr),
    decreases expr, 0nat, 0int,
{
    match expr {
        ExpressionIR::StringLiteral(s) => {
            let mut out = crate::text::to_owned_string("\"");
            let e = escape_quotes(s.as_str());
            out.append(e.as_str());
            out.append("\"");
            out
        },
        ExpressionIR::NumberLiteral(n) => n.clone(),
        ExpressionIR::BooleanLiteral(b) => if *b {
            crate::text::to_owned_string("true")
        } else {
            crate::text::to_owned_string("false")
        },
        ExpressionIR::Identifier(name) => name.clone(),
        ExpressionIR::StateAccess(field) => {
            let mut out = crate::text::to_owned_string("this.state.");
            out.append(field.as_str());
            out
        },
        ExpressionIR::PropertyAccess { object, property } => {
            let mut out = generate_expression(object);
            out.append(".");
            out.append(property.as_str());
            out
        },
        ExpressionIR::MethodCall { object, method, arguments } => {
            let mut out = generate_expression(object);
            out.append(".");
            out.append(method.as_str());
            out.append("(");
            let args = generate_exprs_joined(arguments);
            out.append(args.as_str());
            out.append(")");
            out
        },
        ExpressionIR::Call { callee, arguments } => {
            let mut out = callee.clone();
            out.append("(");
            let args = generate_exprs_joined(arguments);
            out.append(args.as_str());
            out.append(")");
            out
        },
        ExpressionIR::New { callee, arguments } => {
            let mut out = crate::text::to_owned_string("new ");
            out.append(callee.as_str());
            out.append("(");
            let args = generate_exprs_joined(arguments);
            out.append(args.as_str());
            out.append(")");
            out
        },
        ExpressionIR::Binary { left, operator, right } => {
            let l = generate_expression(left);
            let r = generate_expression(right);
            let mut out = crate::text::to_owned_string("(");
            out.append(l.as_str());
            out.append(" ");
            out.append(binary_op_text(*operator));
            out.append(" ");
            out.append(r.as_str());
            out.append(")");
            out
        },
        ExpressionIR::Unary { operator, operand } => {
            let arg = generate_expression(operand);
            let mut out = match operator {
                UnaryOp::Not => crate::text::to_owned_string("!"),
                UnaryOp::Neg => crate::text::to_owned_string("-"),
            };
            out.append(arg.as_str());
            out
        },
        ExpressionIR::Object(fields) => {
            let mut out = crate::text::to_owned_string("{ ");
            let body = generate_entries_joined(fields);
            out.append(body.as_str());
            out.append(" }");
            out
        },
        ExpressionIR::Array(elements) => {
            let mut out = crate::text::to_owned_string("[");
            let body = generate_exprs_joined(elements);
            out.append(body.as_str());
            out.append("]");
            out
        },
    }
}

fn generate_exprs_joined(es: &Vec<ExpressionIR>) -> (r: String)
    ensures
        r@ == spec_exprs_joined(es@, es@.len() as int),
    decreases es@, 1nat, es@.len() as int,
{
    let mut out = String::new();
    let mut i: usize = 0;
    while i < es.len()
        invariant
            i <= es@.len(),
            out@ == spec_exprs_joined(es@, i as int),
        decreases es.len() - i,
    {
        if i > 0 {
            out.append(", ");
        }
        assert(decreases_to!(es@ => es@[i as int]));
        let s = generate_expression(&es[i]);
        out.append(s.as_str());
        i = i + 1;
    }
    out
}

fn generate_entries_joined(fs: &Vec<(String, ExpressionIR)>) -> (r: String)
    ensures
        r@ == spec_entries_joined(fs@, fs@.len() as int),
    decreases fs@, 1nat, fs@.len() as int,
{
    let mut out = String::new();
    let mut i: usize = 0;
    while i < fs.len()
        invariant
            i <= fs@.len(),
            out@ == spec_entries_joined(fs@, i as int),
        decreases fs.len() - i,
    {
        if i > 0 {
            out.append(", ");
        }
        let entry = &fs[i];
        out.append(entry.0.as_str());
        out.append(": ");
        assert(decreases_to!(fs@ => fs@[i as int].1));
        let s = generate_expression(&entry.1);
        out.append(s.as_str());
        i = i + 1;
    }
    out
}

// ---------------------------------------------------------------------------
// Statements
// ---------------------------------------------------------------------------

/// The TypeScript text of a statement, each line starting with `pre`; nested
/// blocks are indented two more spaces.
pub open spec fn spec_statement(s: StatementIR, pre: Seq<char>) -> Seq<char>
    decreases s, 0nat, 0int,
{
    match s {
        StatementIR::If { condition, then_branch, else_branch } => {
            let inner = pre + "  "@;
            pre + "if ("@ + spec_expression(condition) + ") {\n"@ + spec_block(
                then_branch@,
                then_branch@.len() as int,
                inner,
            ) + match else_branch {
                Some(es) => pre + "} else {\n"@ + spec_block(es@, es@.len() as int, inner),
                None => Seq::empty(),
            } + pre + "}\n"@
        },
        StatementIR::Throw { message } => pre + "throw new Error(\""@ + message@ + "\");\n"@,
        StatementIR::Emit { event_type, fields } => pre + "this.emit({ type: \""@ + event_type@ + "\", "@
            + spec_entries_joined(fields@, fields@.len() as int) + " });\n"@,
        StatementIR::Let { name, value } => pre + "const "@ + name@ + " = "@ + spec_expression(value) + ";\n"@,
        StatementIR::Expression(e) => pre + spec_expression(e) + ";\n"@,
        StatementIR::Return(Some(e)) => pre + "return "@ + spec_expression(e) + ";\n"@,
        StatementIR::Return(None) => pre + "return;\n"@,
    }
}

/// The first `n` statements of `ss`, concatenated.
pub open spec fn spec_block(ss: Seq<StatementIR>, n: int, pre: Seq<char>) -> Seq<char>
    decreases ss, 1nat, n,
{
    if n <= 0 || n > ss.len() {
        Seq::empty()
    } else {
        spec_block(ss, n - 1, pre) + spec_statement(ss[n - 1], pre)
    }
}

/// Generates the TypeScript text of a statement, each line starting with `pre`.
pub fn generate_statement(stmt: &StatementIR, pre: &str) -> (r: String)
    ensures
        r@ == spec_statement(*stmt, pre@),
    decreases stmt, 0nat, 0int,
{
    match stmt {
        StatementIR::If { condition, then_branch, else_branch } => {
            let mut inner = crate::text::to_owned_string(pre);
            inner.append("  ");
            let cond = generate_expression(condition);
            let mut out = crate::text::to_owned_string(pre);
            out.append("if (");
            out.append(cond.as_str());
            out.append(") {\n");
            let then_text = generate_block(then_branch, inner.as_str());
            out.append(then_text.as_str());
            match else_branch {
                Some(es) => {
                    out.append(pre);
                    out.append("} else {\n");
                    let else_text = generate_block(es, inner.as_str());
                    out.append(else_text.as_str());
                },
                None => {},
            }
            out.append(pre);
            out.append("}\n");
            out
        },
        StatementIR::Throw { message } => {
            let mut out = crate::text::to_owned_string(pre);
            out.append("throw new Error(\"");
            out.append(message.as_str());
            out.append("\");\n");
            out
        },
        StatementIR::Emit { event_type, fields } => {
            let mut out = crate::text::to_owned_string(pre);
            out.append("this.emit({ type: \"");
            out.append(event_type.as_str());
            out.append("\", ");
            let body = generate_entries_joined(fields);
            out.append(body.as_str());
            out.append(" });\n");
            out
        },
        StatementIR::Let { name, value } => {
            let mut out = crate::text::to_owned_string(pre);
            out.append("const ");
            out.append(name.as_str());
            out.append(" = ");
            let v = generate_expression(value);
            out.append(v.as_str());
            out.append(";\n");
            out
        },
        StatementIR::Expression(e) => {
            let mut out = crate::text::to_owned_string(pre);
            let v = generate_expression(e);
            out.append(v.as_str());
            out.append(";\n");
            out
        },
        StatementIR::Return(Some(e)) => {
            let mut out = crate::text::to_owned_string(pre);
            out.append("return ");
            let v = generate_expression(e);
            out.append(v.as_str());
            out.append(";\n");
            out
        },
        StatementIR::Return(None) => {
            let mut out = crate::text::to_owned_string(pre);
            out.append("return;\n");
            out
        },
    }
}

fn generate_block(ss: &Vec<StatementIR>, pre: &str) -> (r: String)
    ensures
        r@ == spec_block(ss@, ss@.len() as int, pre@),
    decreases ss@, 1nat, ss@.len() as int,
{
    let mut out = String::new();
    let mut i: usize = 0;
    while i < ss.len()
        invariant
            i <= ss@.len(),
            out@ == spec_block(ss@, i as int, pre@),
        decreases ss.len() - i,
    {
        assert(decreases_to!(ss@ => ss@[i as int]));
        let s = generate_statement(&ss[i], pre);
        out.append(s.as_str());
        i = i + 1;
    }
    out
}

// ---------------------------------------------------------------------------
// The aggregate class
// ---------------------------------------------------------------------------

pub const AG_MID_0: &'static str = r#" {
    for (const event of events) {
      agg.applyEvent(event);
    }
    return agg;
  }

  getState(): Readonly<"#;
pub const AG_MID_1: &'static str = r#"> {
    return this.state;
  }

  getPendingEvents(): "#;
pub const AG_MID_2: &'static str = r#"[] {
    return [...this.pendingEvents];
  }

  clearPendingEvents(): void {
    this.pendingEvents = [];
  }

  private emit(event: "#;
pub const AG_MID_3: &'static str = r#"): void {
    this.pendingEvents.push(event);
    this.applyEvent(event);
  }

  private applyEvent(event: "#;

/// Imports, fields, the factory, the getters, `emit` and the head of
/// `applyEvent`, for the aggregate named `n`.
pub open spec fn spec_aggregate_head(n: Seq<char>) -> Seq<char> {
    let snake = spec_snake_case(n);
    let ev = n + "Event"@;
    let st = n + "State"@;
    let init = "initial"@ + n + "State"@;
    let class = n + "Aggregate"@;
    "import type { "@ + ev + " } from '../events/"@ + snake + ".events';\n"@
        + "import type { "@ + st + " } from '../state/"@ + snake + ".state';\n"@
        + "import { "@ + init + " } from '../state/"@ + snake + ".state';\n\n"@
        + "export class "@ + class + " {\n"@
        + "  private state: "@ + st + " = { ..."@ + init + " };\n"@
        + "  private pendingEvents: "@ + ev + "[] = [];\n\n"@
        + "  static create(events: "@ + ev + "[]): "@ + class
        + " {\n    const agg = new "@ + class + "();\n"@
        + AG_MID_0@ + st + AG_MID_1@ + ev + AG_MID_2@ + ev + AG_MID_3@ + ev + "): void "@
}

/// Whether the state has a field named `name`.
pub open spec fn state_has_field(state: ObjectType, name: Seq<char>) -> bool {
    exists|j: int| 0 <= j < state.fields@.len() && #[trigger] state.fields@[j].name@ == name
}

/// The assignment that copies an event field into the state field of the same
/// name, or nothing when the state has no such field.
pub open spec fn spec_field_assignment(state: ObjectType, name: Seq<char>) -> Seq<char> {
    if state_has_field(state, name) {
        "        this.state."@ + name + " = event."@ + name + ";\n"@
    } else {
        Seq::empty()
    }
}

/// The `case` of one event variant in the generated `applyEvent`.
pub open spec fn spec_apply_case(state: ObjectType, v: EventVariant) -> Seq<char> {
    "      case \""@ + v.name@ + "\":\n"@ + seq_flatten(
        Seq::new(v.fields@.len(), |k: int| spec_field_assignment(state, v.fields@[k].name@)),
    ) + "        break;\n"@
}

/// The body of `applyEvent`: the source's own body when it was kept, else a
/// switch that copies each event field into the state field of the same name.
pub open spec fn spec_apply_body(a: AggregateIR) -> Seq<char> {
    match a.raw_apply_body {
        Some(raw) => raw@ + "\n\n"@,
        None => "{\n    switch (event.type) {\n"@ + seq_flatten(
            Seq::new(a.events.variants@.len(), |k: int| spec_apply_case(a.state, a.events.variants@[k])),
        ) + "    }\n  }\n\n"@,
    }
}

/// `name: type` of a command parameter.
pub open spec fn spec_command_param(c: CommandIR, k: int) -> Seq<char> {
    c.parameters@[k].name@ + ": "@ + spec_ts_type(c.parameters@[k].typ)
}

/// The method of one command.
pub open spec fn spec_command_method(c: CommandIR) -> Seq<char> {
    "  "@ + c.name@ + "("@ + seq_join(Seq::new(c.parameters@.len(), |k: int| spec_command_param(c, k)), ", "@)
        + "): void {\n"@ + spec_block(c.body@, c.body@.len() as int, "    "@) + "  }\n\n"@
}

/// The TypeScript module of an aggregate class.
pub open spec fn spec_aggregate(a: AggregateIR) -> Seq<char> {
    spec_aggregate_head(a.name@) + spec_apply_body(a) + seq_flatten(
        Seq::new(a.commands@.len(), |k: int| spec_command_method(a.commands@[k])),
    ) + "}\n"@
}

fn aggregate_head(n: &str) -> (r: String)
    ensures
        r@ == spec_aggregate_head(n@),
{
    let snake = to_snake_case(n);
    let mut ev = crate::text::to_owned_string(n);
    ev.append("Event");
    let mut st = crate::text::to_owned_string(n);
    st.append("State");
    let mut init = crate::text::to_owned_string("initial");
    init.append(n);
    init.append("State");
    let mut class = crate::text::to_owned_string(n);
    class.append("Aggregate");
    let mut out = crate::text::to_owned_string("import type { ");
    out.append(ev.as_str());
    out.append(" } from '../events/");
    out.append(snake.as_str());
    out.append(".events';\n");
    out.append("import type { ");
    out.append(st.as_str());
    out.append(" } from '../state/");
    out.append(snake.as_str());
    out.append(".state';\n");
    out.append("import { ");
    out.append(init.as_str());
    out.append(" } from '../state/");
    out.append(snake.as_str());
    out.append(".state';\n\n");
    out.append("export class ");
    out.append(class.as_str());
    out.append(" {\n");
    out.append("  private state: ");
    out.append(st.as_str());
    out.append(" = { ...");
    out.append(init.as_str());
    out.append(" };\n");
    out.append("  private pendingEvents: ");
    out.append(ev.as_str());
    out.append("[] = [];\n\n");
    out.append("  static create(events: ");
    out.append(ev.as_str());
    out.append("[]): ");
    out.append(class.as_str());
    out.append(" {\n    const agg = new ");
    out.append(class.as_str());
    out.append("();\n");
    out.append(AG_MID_0);
    out.append(st.as_str());
    out.append(AG_MID_1);
    out.append(ev.as_str());
    out.append(AG_MID_2);
    out.append(ev.as_str());
    out.append(AG_MID_3);
    out.append(ev.as_str());
    out.append("): void ");
    out
}

fn has_state_field(state: &ObjectType, name: &str) -> (r: bool)
    ensures
        r == state_has_field(*state, name@),
{
    let mut i: usize = 0;
    while i < state.fields.len()
        invariant
            i <= state.fields@.len(),
            forall|j: int| 0 <= j < i ==> state.fields@[j].name@ != name@,
        decreases state.fields.len() - i,
    {
        if crate::text::str_eq(state.fields[i].name.as_str(), name) {
            return true;
        }
        i = i + 1;
    }
    false
}

fn apply_case(state: &ObjectType, v: &EventVariant) -> (r: String)
    ensures
        r@ == spec_apply_case(*state, *v),
{
    let ghost f = |k: int| spec_field_assignment(*state, v.fields@[k].name@);
    let mut out = crate::text::to_owned_string("      case \"");
    out.append(v.name.as_str());
    out.append("\":\n");
    let ghost head = out@;
    let mut body = String::new();
    let mut i: usize = 0;
    while i < v.fields.len()
        invariant
            i <= v.fields@.len(),
            f == (|k: int| spec_field_assignment(*state, v.fields@[k].name@)),
            body@ == seq_flatten(Seq::new(i as nat, f)),
        decreases v.fields.len() - i,
    {
        let name = v.fields[i].name.as_str();
        if has_state_field(state, name) {
            body.append("        this.state.");
            body.append(name);
            body.append(" = event.");
            body.append(name);
            body.append(";\n");
        }
        proof {
            lemma_flatten_new_step(f, i as int);
        }
        i = i + 1;
    }
    out.append(body.as_str());
    out.append("        break;\n");
    out
}

fn apply_body(a: &AggregateIR) -> (r: String)
    ensures
        r@ == spec_apply_body(*a),
{
    match &a.raw_apply_body {
        Some(raw) => {
            let mut out = raw.clone();
            out.append("\n\n");
            out
        },
        None => {
            let ghost f = |k: int| spec_apply_case(a.state, a.events.variants@[k]);
            let mut cases = String::new();
            let mut i: usize = 0;
            while i < a.events.variants.len()
                invariant
                    i <= a.events.variants@.len(),
                    f == (|k: int| spec_apply_case(a.state, a.events.variants@[k])),
                    cases@ == seq_flatten(Seq::new(i as nat, f)),
                decreases a.events.variants.len() - i,
            {
                let c = apply_case(&a.state, &a.events.variants[i]);
                cases.append(c.as_str());
                proof {
                    lemma_flatten_new_step(f, i as int);
                }
                i = i + 1;
            }
            let mut out = crate::text::to_owned_string("{\n    switch (event.type) {\n");
            out.append(cases.as_str());
            out.append("    }\n  }\n\n");
            out
        },
    }
}

fn command_method(c: &CommandIR) -> (r: String)
    ensures
        r@ == spec_command_method(*c),
{
    let ghost f = |k: int| spec_command_param(*c, k);
    let mut params = String::new();
    let mut i: usize = 0;
    while i < c.parameters.len()
        invariant
            i <= c.parameters@.len(),
            f == (|k: int| spec_command_param(*c, k)),
            params@ == seq_join(Seq::new(i as nat, f), ", "@),
        decreases c.parameters.len() - i,
    {
        if i > 0 {
            params.append(", ");
        }
        let p = &c.parameters[i];
        params.append(p.name.as_str());
        params.append(": ");
        let t = to_ts_type(&p.typ);
        params.append(t.as_str());
        proof {
            lemma_join_new_step(f, ", "@, i as int);
        }
        i = i + 1;
    }
    let mut out = crate::text::to_owned_string("  ");
    out.append(c.name.as_str());
    out.append("(");
    out.append(params.as_str());
    out.append("): void {\n");
    let body = generate_block(&c.body, "    ");
    out.append(body.as_str());
    out.append("  }\n\n");
    out
}

/// Generates the TypeScript module of an aggregate class.
pub fn generate_aggregate(aggregate: &AggregateIR) -> (r: String)
    ensures
        r@ == spec_aggregate(*aggregate),
{
    let mut out = aggregate_head(aggregate.name.as_str());
    let apply = apply_body(aggregate);
    out.append(apply.as_str());
    let ghost f = |k: int| spec_command_method(aggregate.commands@[k]);
    let mut methods = String::new();
    let mut i: usize = 0;
    while i < aggregate.commands.len()
        invariant
            i <= aggregate.commands@.len(),
            f == (|k: int| spec_command_method(aggregate.commands@[k])),
            methods@ == seq_flatten(Seq::new(i as nat, f)),
        decreases aggregate.commands.len() - i,
    {
        let m = command_method(&aggregate.commands[i]);
        methods.append(m.as_str());
        proof {
            lemma_flatten_new_step(f, i as int);
        }
        i = i + 1;
    }
    out.append(methods.as_str());
    out.append("}\n");
    out
}

} // verus!
