//! Generation of pure TypeScript runtime validators for command inputs.

use vstd::prelude::*;

use crate::codegen::ts_types::{spec_pascal_case, spec_ts_type, to_pascal_case, to_ts_type};
use crate::ir::{DomainType, FieldDef, ObjectType, ParameterIR};
use crate::ir::aggregate::{AggregateIR, CommandIR};
use crate::text::{lemma_flatten_new_step, lemma_join_new_step, occurs_at, seq_contains, seq_flatten, seq_join};

verus! {

pub const VAL_PRELUDE: &'static str = r#"export type ValidationError = { field: string; message: string };

export type ValidationResult<T> =
  | { ok: true; value: T }
  | { ok: false; errors: ValidationError[] };

"#;

pub const VAL_OBJECT_CHECK: &'static str = r#"  const errors: ValidationError[] = [];

  if (typeof input !== 'object' || input === null) {
    return { ok: false, errors: [{ field: '_root', message: 'Expected object' }] };
  }

"#;

pub const VAL_ERRORS_RETURN: &'static str = r#"  if (errors.length > 0) {
    return { ok: false, errors };
  }

"#;

/// `errors.push(...)` line reporting that `field` is not of the expected kind.
pub open spec fn spec_error_line(pre: Seq<char>, field: Seq<char>, expected: Seq<char>) -> Seq<char> {
    pre + "  errors.push({ field: '"@ + field + "', message: 'Expected "@ + expected + "' });\n"@
}

/// Validation code for the value at `path`, reported under `field`, indented by `pre`.
pub open spec fn spec_type_validation(field: Seq<char>, path: Seq<char>, typ: DomainType, pre: Seq<char>) -> Seq<char>
    decreases typ, 1nat,
{
    match typ {
        DomainType::String => pre + "if (typeof "@ + path + " !== 'string') {\n"@
            + spec_error_line(pre, field, "string"@) + pre + "}\n"@,
        DomainType::Number => pre + "if (typeof "@ + path + " !== 'number' || Number.isNaN("@ + path + ")) {\n"@
            + spec_error_line(pre, field, "number"@) + pre + "}\n"@,
        DomainType::Boolean => pre + "if (typeof "@ + path + " !== 'boolean') {\n"@
            + spec_error_line(pre, field, "boolean"@) + pre + "}\n"@,
        DomainType::Array(inner) => pre + "if (!Array.isArray("@ + path + ")) {\n"@
            + spec_error_line(pre, field, "array"@) + pre + "} else {\n"@
            + pre + "  for (let i = 0; i < "@ + path + ".length; i++) {\n"@
            + spec_type_validation(field + "[i]"@, path + "[i]"@, *inner, pre + "    "@)
            + pre + "  }\n"@ + pre + "}\n"@,
        DomainType::Option(inner) => pre + "if ("@ + path + " !== undefined && "@ + path + " !== null) {\n"@
            + spec_type_validation(field, path, *inner, pre + "  "@) + pre + "}\n"@,
        DomainType::Object(obj) => pre + "if (typeof "@ + path + " !== 'object' || "@ + path + " === null) {\n"@
            + spec_error_line(pre, field, "object"@) + pre + "} else {\n"@
            + spec_object_fields_validation(field, path, obj, pre, obj.fields@.len() as int)
            + pre + "}\n"@,
        DomainType::Reference(_) => pre + "if (typeof "@ + path + " !== 'object' || "@ + path + " === null) {\n"@
            + spec_error_line(pre, field, "object"@) + pre + "}\n"@,
    }
}

/// Validation of the first `n` fields of an object at `path`.
pub open spec fn spec_object_fields_validation(field: Seq<char>, path: Seq<char>, obj: ObjectType, pre: Seq<char>, n: int) -> Seq<char>
    decreases obj, 2nat, n,
{
    if n <= 0 || n > obj.fields@.len() {
        Seq::empty()
    } else {
        spec_object_fields_validation(field, path, obj, pre, n - 1)
            + spec_field_member_validation(field, path, obj.fields@[n - 1], pre)
    }
}

/// Validation of one field of an object at `path`; optional fields are only
/// checked when present.
pub open spec fn spec_field_member_validation(field: Seq<char>, path: Seq<char>, f: FieldDef, pre: Seq<char>) -> Seq<char>
    decreases f, 0nat,
{
    let nested_path = "("@ + path + " as Record<string, unknown>)."@ + f.name@;
    let nested_field = field + "."@ + f.name@;
    if f.optional {
        pre + "  if ("@ + nested_path + " !== undefined) {\n"@
            + spec_type_validation(nested_field, nested_path, f.typ, pre + "    "@) + pre + "  }\n"@
    } else {
        spec_type_validation(nested_field, nested_path, f.typ, pre + "  "@)
    }
}

proof fn lemma_occurs_between(a: Seq<char>, b: Seq<char>, c: Seq<char>)
    ensures
        occurs_at(a + b + c, b, a.len() as int),
        seq_contains(a + b + c, b),
{
    assert((a + b + c).subrange(a.len() as int, (a.len() + b.len()) as int) =~= b);
    assert(occurs_at(a + b + c, b, a.len() as int));
}

/// The validator of an array walks exactly the indices below its length: it
/// holds the loop `for (let i = 0; i < path.length; i++)`, and inside it the
/// validation of the element type at `path[i]`, reported as `field[i]`.
pub proof fn law_array_validation_walks_elements(field: Seq<char>, path: Seq<char>, inner: DomainType, pre: Seq<char>)
    ensures
        seq_contains(
            spec_type_validation(field, path, DomainType::Array(Box::new(inner)), pre),
            "for (let i = 0; i < "@ + path + ".length; i++) {"@,
        ),
        seq_contains(
            spec_type_validation(field, path, DomainType::Array(Box::new(inner)), pre),
            spec_type_validation(field + "[i]"@, path + "[i]"@, inner, pre + "    "@),
        ),
{
    reveal_strlit("  for (let i = 0; i < ");
    reveal_strlit("for (let i = 0; i < ");
    reveal_strlit("  ");
    reveal_strlit(".length; i++) {\n");
    reveal_strlit(".length; i++) {");
    reveal_strlit("\n");
    let s = spec_type_validation(field, path, DomainType::Array(Box::new(inner)), pre);
    let head = pre + "if (!Array.isArray("@ + path + ")) {\n"@ + spec_error_line(pre, field, "array"@) + pre
        + "} else {\n"@;
    let p = "for (let i = 0; i < "@ + path + ".length; i++) {"@;
    let body = spec_type_validation(field + "[i]"@, path + "[i]"@, inner, pre + "    "@);
    let tail = pre + "  }\n"@ + pre + "}\n"@;
    assert("  for (let i = 0; i < "@ =~= "  "@ + "for (let i = 0; i < "@);
    assert(".length; i++) {\n"@ =~= ".length; i++) {"@ + "\n"@);
    let a = head + pre + "  "@;
    let c = "\n"@ + body + tail;
    assert(s =~= a + p + c);
    lemma_occurs_between(a, p, c);
    let a2 = head + pre + "  "@ + p + "\n"@;
    assert(s =~= a2 + body + tail);
    lemma_occurs_between(a2, body, tail);
}

/// The validator of a string, number or boolean tests the `typeof` of the
/// value at `path` against that very type.
pub proof fn law_scalar_validation_tests_its_type(field: Seq<char>, path: Seq<char>, pre: Seq<char>)
    ensures
        seq_contains(spec_type_validation(field, path, DomainType::String, pre), "typeof "@ + path + " !== 'string'"@),
        seq_contains(spec_type_validation(field, path, DomainType::Number, pre), "typeof "@ + path + " !== 'number'"@),
        seq_contains(
            spec_type_validation(field, path, DomainType::Boolean, pre),
            "typeof "@ + path + " !== 'boolean'"@,
        ),
{
    reveal_strlit("if (typeof ");
    reveal_strlit("if (");
    reveal_strlit("typeof ");
    reveal_strlit(" !== 'string') {\n");
    reveal_strlit(" !== 'string'");
    reveal_strlit(" !== 'number' || Number.isNaN(");
    reveal_strlit(" !== 'number'");
    reveal_strlit(" || Number.isNaN(");
    reveal_strlit(" !== 'boolean') {\n");
    reveal_strlit(" !== 'boolean'");
    reveal_strlit(") {\n");
    assert("if (typeof "@ =~= "if ("@ + "typeof "@);
    assert(" !== 'string') {\n"@ =~= " !== 'string'"@ + ") {\n"@);
    assert(" !== 'number' || Number.isNaN("@ =~= " !== 'number'"@ + " || Number.isNaN("@);
    assert(" !== 'boolean') {\n"@ =~= " !== 'boolean'"@ + ") {\n"@);
    let a = pre + "if ("@;
    let ps = "typeof "@ + path + " !== 'string'"@;
    let cs = ") {\n"@ + spec_error_line(pre, field, "string"@) + pre + "}\n"@;
    assert(spec_type_validation(field, path, DomainType::String, pre) =~= a + ps + cs);
    lemma_occurs_between(a, ps, cs);
    let pn = "typeof "@ + path + " !== 'number'"@;
    let cn = " || Number.isNaN("@ + path + ")) {\n"@ + spec_error_line(pre, field, "number"@) + pre + "}\n"@;
    assert(spec_type_validation(field, path, DomainType::Number, pre) =~= a + pn + cn);
    lemma_occurs_between(a, pn, cn);
    let pb = "typeof "@ + path + " !== 'boolean'"@;
    let cb = ") {\n"@ + spec_error_line(pre, field, "boolean"@) + pre + "}\n"@;
    assert(spec_type_validation(field, path, DomainType::Boolean, pre) =~= a + pb + cb);
    lemma_occurs_between(a, pb, cb);
}

/// The validator of an optional value checks the inner type only when the
/// value is present: under the test that it is neither `undefined` nor `null`.
pub proof fn law_option_validation_only_when_present(field: Seq<char>, path: Seq<char>, inner: DomainType, pre: Seq<char>)
    ensures
        occurs_at(
            spec_type_validation(field, path, DomainType::Option(Box::new(inner)), pre),
            "if ("@ + path + " !== undefined && "@ + path + " !== null) {\n"@,
            pre.len() as int,
        ),
        seq_contains(
            spec_type_validation(field, path, DomainType::Option(Box::new(inner)), pre),
            spec_type_validation(field, path, inner, pre + "  "@),
        ),
{
    let s = spec_type_validation(field, path, DomainType::Option(Box::new(inner)), pre);
    let t = "if ("@ + path + " !== undefined && "@ + path + " !== null) {\n"@;
    let body = spec_type_validation(field, path, inner, pre + "  "@);
    let tail = pre + "}\n"@;
    assert(s =~= pre + t + (body + tail));
    lemma_occurs_between(pre, t, body + tail);
    assert(s =~= (pre + t) + body + tail);
    lemma_occurs_between(pre + t, body, tail);
}

/// Two spaces per indentation level.
pub open spec fn spec_indent(n: nat) -> Seq<char> {
    Seq::new(2 * n, |i: int| ' ')
}

fn error_line(out: &mut String, pre: &str, field: &str, expected: &str)
    ensures
        final(out)@ == old(out)@ + spec_error_line(pre@, field@, expected@),
{
    let mut s = crate::text::to_owned_string(pre);
    s.append("  errors.push({ field: '");
    s.append(field);
    s.append("', message: 'Expected ");
    s.append(expected);
    s.append("' });\n");
    out.append(s.as_str());
}

fn type_validation(field: &str, path: &str, typ: &DomainType, pre: &str) -> (r: String)
    ensures
        r@ == spec_type_validation(field@, path@, *typ, pre@),
    decreases typ, 1nat,
{
    let mut out = crate::text::to_owned_string(pre);
    match typ {
        DomainType::String => {
            out.append("if (typeof ");
            out.append(path);
            out.append(" !== 'string') {\n");
            error_line(&mut out, pre, field, "string");
            out.append(pre);
            out.append("}\n");
        },
        DomainType::Number => {
            out.append("if (typeof ");
            out.append(path);
            out.append(" !== 'number' || Number.isNaN(");
            out.append(path);
            out.append(")) {\n");
            error_line(&mut out, pre, field, "number");
            out.append(pre);
            out.append("}\n");
        },
        DomainType::Boolean => {
            out.append("if (typeof ");
            out.append(path);
            out.append(" !== 'boolean') {\n");
            error_line(&mut out, pre, field, "boolean");
            out.append(pre);
            out.append("}\n");
        },
        DomainType::Array(inner) => {
            out.append("if (!Array.isArray(");
            out.append(path);
            out.append(")) {\n");
            error_line(&mut out, pre, field, "array");
            out.append(pre);
            out.append("} else {\n");
            out.append(pre);
            out.append("  for (let i = 0; i < ");
            out.append(path);
            out.append(".length; i++) {\n");
            let mut f2 = crate::text::to_owned_string(field);
            f2.append("[i]");
            let mut p2 = crate::text::to_owned_string(path);
            p2.append("[i]");
            let mut pre2 = crate::text::to_owned_string(pre);
            pre2.append("    ");
            let inner_code = type_validation(f2.as_str(), p2.as_str(), inner, pre2.as_str());
            out.append(inner_code.as_str());
            out.append(pre);
            out.append("  }\n");
            out.append(pre);
            out.append("}\n");
        },
        DomainType::Option(inner) => {
            out.append("if (");
            out.append(path);
            out.append(" !== undefined && ");
            out.append(path);
            out.append(" !== null) {\n");
            let mut pre2 = crate::text::to_owned_string(pre);
            pre2.append("  ");
            let inner_code = type_validation(field, path, inner, pre2.as_str());
            out.append(inner_code.as_str());
            out.append(pre);
            out.append("}\n");
        },
        DomainType::Object(obj) => {
            out.append("if (typeof ");
            out.append(path);
            out.append(" !== 'object' || ");
            out.append(path);
            out.append(" === null) {\n");
            error_line(&mut out, pre, field, "object");
            out.append(pre);
            out.append("} else {\n");
            let fields_code = object_fields_validation(field, path, obj, pre);
            out.append(fields_code.as_str());
            out.append(pre);
            out.append("}\n");
        },
        DomainType::Reference(_) => {
            out.append("if (typeof ");
            out.append(path);
            out.append(" !== 'object' || ");
            out.append(path);
            out.append(" === null) {\n");
            error_line(&mut out, pre, field, "object");
            out.append(pre);
            out.append("}\n");
        },
    }
    out
}

fn object_fields_validation(field: &str, path: &str, obj: &ObjectType, pre: &str) -> (r: String)
    ensures
        r@ == spec_object_fields_validation(field@, path@, *obj, pre@, obj.fields@.len() as int),
    decreases obj, 2nat,
{
    let mut out = String::new();
    let mut i: usize = 0;
    while i < obj.fields.len()
        invariant
            i <= obj.fields@.len(),
            out@ == spec_object_fields_validation(field@, path@, *obj, pre@, i as int),
        decreases obj.fields.len() - i,
    {
        assert(decreases_to!(*obj => obj.fields@[i as int]));
        let code = field_member_validation(field, path, &obj.fields[i], pre);
        out.append(code.as_str());
        i = i + 1;
    }
    out
}

fn field_member_validation(field: &str, path: &str, f: &FieldDef, pre: &str) -> (r: String)
    ensures
        r@ == spec_field_member_validation(field@, path@, *f, pre@),
    decreases f, 0nat,
{
    let mut nested_path = crate::text::to_owned_string("(");
    nested_path.append(path);
    nested_path.append(" as Record<string, unknown>).");
    nested_path.append(f.name.as_str());
    let mut nested_field = crate::text::to_owned_string(field);
    nested_field.append(".");
    nested_field.append(f.name.as_str());
    if f.optional {
        let mut out = crate::text::to_owned_string(pre);
        out.append("  if (");
        out.append(nested_path.as_str());
        out.append(" !== undefined) {\n");
        let mut pre2 = crate::text::to_owned_string(pre);
        pre2.append("    ");
        let code = type_validation(nested_field.as_str(), nested_path.as_str(), &f.typ, pre2.as_str());
        out.append(code.as_str());
        out.append(pre);
        out.append("  }\n");
        out
    } else {
        let mut pre2 = crate::text::to_owned_string(pre);
        pre2.append("  ");
        type_validation(nested_field.as_str(), nested_path.as_str(), &f.typ, pre2.as_str())
    }
}

/// Generates validation code for the value at `path` of type `typ`, reporting
/// errors under `field`, indented by `indent` levels of two spaces.
pub fn generate_type_validation(field: &str, path: &str, typ: &DomainType, indent: usize) -> (r: String)
    ensures
        r@ == spec_type_validation(field@, path@, *typ, spec_indent(indent as nat)),
{
    let mut pre = String::new();
    let mut i: usize = 0;
    while i < indent
        invariant
            i <= indent,
            pre@ == spec_indent(i as nat),
        decreases indent - i,
    {
        proof {
            reveal_strlit("  ");
        }
        pre.append("  ");
        i = i + 1;
        assert(pre@ =~= spec_indent(i as nat));
    }
    type_validation(field, path, typ, pre.as_str())
}

/// The validation of one command parameter: `obj.<name>`, indented two levels.
pub open spec fn spec_field_validation(p: ParameterIR) -> Seq<char> {
    spec_type_validation(p.name@, "obj."@ + p.name@, p.typ, spec_indent(2))
}

/// Generates the validation code of a single parameter.
pub fn generate_field_validation(param: &ParameterIR) -> (r: String)
    ensures
        r@ == spec_field_validation(*param),
{
    let mut path = crate::text::to_owned_string("obj.");
    path.append(param.name.as_str());
    generate_type_validation(param.name.as_str(), path.as_str(), &param.typ, 2)
}

/// `<Aggregate><Command>Input`.
pub open spec fn spec_input_ty_name(c: CommandIR, agg: Seq<char>) -> Seq<char> {
    agg + spec_pascal_case(c.name@) + "Input"@
}

/// The input type of a command.
pub open spec fn spec_command_input_type(c: CommandIR, agg: Seq<char>) -> Seq<char> {
    if c.parameters@.len() == 0 {
        "export type "@ + spec_input_ty_name(c, agg) + " = Record<string, never>;\n"@
    } else {
        "export type "@ + spec_input_ty_name(c, agg) + " = {\n"@
            + seq_flatten(Seq::new(c.parameters@.len(),
                |k: int| "  "@ + c.parameters@[k].name@ + ": "@ + spec_ts_type(c.parameters@[k].typ) + ";\n"@))
            + "};\n"@
    }
}

/// Generates the input type of a command.
pub fn generate_command_input_type(cmd: &CommandIR, aggregate_name: &str) -> (r: String)
    ensures
        r@ == spec_command_input_type(*cmd, aggregate_name@),
{
    let pascal = to_pascal_case(cmd.name.as_str());
    let mut input_ty = crate::text::to_owned_string(aggregate_name);
    input_ty.append(pascal.as_str());
    input_ty.append("Input");
    let mut out = crate::text::to_owned_string("export type ");
    out.append(input_ty.as_str());
    if cmd.parameters.len() == 0 {
        out.append(" = Record<string, never>;\n");
        return out;
    }
    out.append(" = {\n");
    let ghost f = |k: int| "  "@ + cmd.parameters@[k].name@ + ": "@ + spec_ts_type(cmd.parameters@[k].typ) + ";\n"@;
    let mut fields = String::new();
    let mut i: usize = 0;
    while i < cmd.parameters.len()
        invariant
            i <= cmd.parameters@.len(),
            f == (|k: int| "  "@ + cmd.parameters@[k].name@ + ": "@ + spec_ts_type(cmd.parameters@[k].typ) + ";\n"@),
            fields@ == seq_flatten(Seq::new(i as nat, f)),
        decreases cmd.parameters.len() - i,
    {
        let p = &cmd.parameters[i];
        let t = to_ts_type(&p.typ);
        let mut line = crate::text::to_owned_string("  ");
        line.append(p.name.as_str());
        line.append(": ");
        line.append(t.as_str());
        line.append(";\n");
        fields.append(line.as_str());
        proof {
            lemma_flatten_new_step(f, i as int);
        }
        i = i + 1;
    }
    out.append(fields.as_str());
    out.append("};\n");
    out
}

/// The validator function of a command.
pub open spec fn spec_command_validator(c: CommandIR, agg: Seq<char>) -> Seq<char> {
    let input_ty = spec_input_ty_name(c, agg);
    let head = "export function "@ + ("validate"@ + agg + spec_pascal_case(c.name@) + "Input"@)
        + "(input: unknown): ValidationResult<"@ + input_ty + "> {\n"@ + VAL_OBJECT_CHECK@;
    let n = c.parameters@.len();
    if n == 0 {
        head + "  return { ok: true, value: {} as "@ + input_ty + " };\n"@ + "}\n"@
    } else {
        head + "  const obj = input as Record<string, unknown>;\n\n"@
            + seq_flatten(Seq::new(n, |k: int| spec_field_validation(c.parameters@[k])))
            + VAL_ERRORS_RETURN@
            + "  return { ok: true, value: { "@
            + seq_join(Seq::new(n, |k: int| c.parameters@[k].name@ + ": obj."@ + c.parameters@[k].name@), ", "@)
            + " } as "@ + input_ty + " };\n"@ + "}\n"@
    }
}

/// Generates the validator function of a command.
pub fn generate_command_validator(cmd: &CommandIR, aggregate_name: &str) -> (r: String)
    ensures
        r@ == spec_command_validator(*cmd, aggregate_name@),
{
    let pascal = to_pascal_case(cmd.name.as_str());
    let mut input_ty = crate::text::to_owned_string(aggregate_name);
    input_ty.append(pascal.as_str());
    input_ty.append("Input");
    let mut fn_name = crate::text::to_owned_string("validate");
    fn_name.append(aggregate_name);
    fn_name.append(pascal.as_str());
    fn_name.append("Input");
    let mut out = crate::text::to_owned_string("export function ");
    out.append(fn_name.as_str());
    out.append("(input: unknown): ValidationResult<");
    out.append(input_ty.as_str());
    out.append("> {\n");
    out.append(VAL_OBJECT_CHECK);
    if cmd.parameters.len() == 0 {
        out.append("  return { ok: true, value: {} as ");
        out.append(input_ty.as_str());
        out.append(" };\n");
        out.append("}\n");
        return out;
    }
    out.append("  const obj = input as Record<string, unknown>;\n\n");
    let ghost fv = |k: int| spec_field_validation(cmd.parameters@[k]);
    let ghost fa = |k: int| cmd.parameters@[k].name@ + ": obj."@ + cmd.parameters@[k].name@;
    let mut checks = String::new();
    let mut assigns = String::new();
    let mut i: usize = 0;
    while i < cmd.parameters.len()
        invariant
            i <= cmd.parameters@.len(),
            fv == (|k: int| spec_field_validation(cmd.parameters@[k])),
            fa == (|k: int| cmd.parameters@[k].name@ + ": obj."@ + cmd.parameters@[k].name@),
            checks@ == seq_flatten(Seq::new(i as nat, fv)),
            assigns@ == seq_join(Seq::new(i as nat, fa), ", "@),
        decreases cmd.parameters.len() - i,
    {
        let p = &cmd.parameters[i];
        let v = generate_field_validation(p);
        checks.append(v.as_str());
        if i > 0 {
            assigns.append(", ");
        }
        assigns.append(p.name.as_str());
        assigns.append(": obj.");
        assigns.append(p.name.as_str());
        proof {
            lemma_flatten_new_step(fv, i as int);
            lemma_join_new_step(fa, ", "@, i as int);
        }
        i = i + 1;
    }
    out.append(checks.as_str());
    out.append(VAL_ERRORS_RETURN);
    out.append("  return { ok: true, value: { ");
    out.append(assigns.as_str());
    out.append(" } as ");
    out.append(input_ty.as_str());
    out.append(" };\n");
    out.append("}\n");
    out
}

/// The validators module of an aggregate: the shared result types, then for
/// each command its input type and validator.
pub open spec fn spec_generate_validators(a: AggregateIR) -> Seq<char> {
    VAL_PRELUDE@ + seq_flatten(Seq::new(a.commands@.len(), |k: int|
        spec_command_input_type(a.commands@[k], a.name@) + "\n"@ + spec_command_validator(a.commands@[k], a.name@) + "\n"@))
}

/// Generates the validators of all commands of an aggregate. The import path
/// is not used by validators.
pub fn generate_validators(aggregate: &AggregateIR, _domain_import_path: &str) -> (r: String)
    ensures
        r@ == spec_generate_validators(*aggregate),
{
    let ghost f = |k: int| spec_command_input_type(aggregate.commands@[k], aggregate.name@) + "\n"@
        + spec_command_validator(aggregate.commands@[k], aggregate.name@) + "\n"@;
    let mut body = String::new();
    let mut i: usize = 0;
    while i < aggregate.commands.len()
        invariant
            i <= aggregate.commands@.len(),
            f == (|k: int| spec_command_input_type(aggregate.commands@[k], aggregate.name@) + "\n"@
                + spec_command_validator(aggregate.commands@[k], aggregate.name@) + "\n"@),
            body@ == seq_flatten(Seq::new(i as nat, f)),
        decreases aggregate.commands.len() - i,
    {
        let cmd = &aggregate.commands[i];
        let t = generate_command_input_type(cmd, aggregate.name.as_str());
        let v = generate_command_validator(cmd, aggregate.name.as_str());
        let mut piece = t;
        piece.append("\n");
        piece.append(v.as_str());
        piece.append("\n");
        body.append(piece.as_str());
        proof {
            lemma_flatten_new_step(f, i as int);
        }
        i = i + 1;
    }
    let mut out = crate::text::to_owned_string(VAL_PRELUDE);
    out.append(body.as_str());
    out
}

} // verus!
