//! TypeScript rendering of an aggregate's state type and its initial value.

use vstd::prelude::*;

use crate::codegen::aggregate::spec_escape_quotes;
use crate::codegen::ts_types::{spec_ts_type, to_ts_type};
use crate::ir::aggregate::AggregateIR;
use crate::ir::assoc::{find_key, lookup};
use crate::ir::{DomainType, FieldDef, InitialValue};
use crate::text::{lemma_flatten_new_step, seq_flatten};

verus! {

/// The TypeScript expression of an initial value.
pub open spec fn spec_initial_value(v: InitialValue) -> Seq<char> {
    match v {
        InitialValue::String(s) => "\""@ + spec_escape_quotes(s@) + "\""@,
        InitialValue::Number(n) => n@,
        InitialValue::Boolean(b) => if b { "true"@ } else { "false"@ },
        InitialValue::Null => "undefined"@,
        InitialValue::EmptyArray => "[]"@,
        InitialValue::EmptyObject => "{}"@,
    }
}

/// The default TypeScript value of a domain type.
pub open spec fn spec_default_for_type(t: DomainType) -> Seq<char> {
    match t {
        DomainType::String => "\"\""@,
        DomainType::Number => "0"@,
        DomainType::Boolean => "false"@,
        DomainType::Array(_) => "[]"@,
        DomainType::Option(_) => "undefined"@,
        DomainType::Reference(_) => "undefined as any"@,
        DomainType::Object(_) => "{}"@,
    }
}

/// The member of a state field in the state type.
pub open spec fn spec_state_member(f: FieldDef) -> Seq<char> {
    "  "@ + f.name@ + (if f.optional { "?"@ } else { Seq::empty() }) + ": "@ + spec_ts_type(f.typ) + ";\n"@
}

/// The initial value of a state field: the declared one, else the default of
/// its type.
pub open spec fn spec_initial_entry(a: AggregateIR, f: FieldDef) -> Seq<char> {
    "  "@ + f.name@ + ": "@ + match lookup(a.initial_state@, f.name@) {
        Some(v) => spec_initial_value(v),
        None => spec_default_for_type(f.typ),
    } + ",\n"@
}

/// The state type of an aggregate followed by its initial state constant.
pub open spec fn spec_state_type(a: AggregateIR) -> Seq<char> {
    let n = a.state.fields@.len();
    "export type "@ + a.name@ + "State = {\n"@
        + seq_flatten(Seq::new(n, |k: int| spec_state_member(a.state.fields@[k])))
        + "};\n\n"@
        + "export const initial"@ + a.name@ + "State: "@ + a.name@ + "State = {\n"@
        + seq_flatten(Seq::new(n, |k: int| spec_initial_entry(a, a.state.fields@[k])))
        + "};\n"@
}

/// Converts an initial value to a TypeScript expression.
pub fn initial_value_to_ts(value: &InitialValue) -> (r: String)
    ensures
        r@ == spec_initial_value(*value),
{
    match value {
        InitialValue::String(s) => {
            if s.unicode_len() == 0 {
                proof {
                    assert(s@ =~= Seq::<char>::empty());
                    assert(spec_escape_quotes(s@) =~= Seq::<char>::empty());
                    reveal_strlit("\"\"");
                    reveal_strlit("\"");
                    assert("\""@ + spec_escape_quotes(s@) + "\""@ =~= "\"\""@);
                }
                crate::text::to_owned_string("\"\"")
            } else {
                let mut out = crate::text::to_owned_string("\"");
                let e = crate::codegen::aggregate::escape_quotes(s.as_str());
                out.append(e.as_str());
                out.append("\"");
                out
            }
        },
        InitialValue::Number(n) => n.clone(),
        InitialValue::Boolean(b) => if *b {
            crate::text::to_owned_string("true")
        } else {
            crate::text::to_owned_string("false")
        },
        InitialValue::Null => crate::text::to_owned_string("undefined"),
        InitialValue::EmptyArray => crate::text::to_owned_string("[]"),
        InitialValue::EmptyObject => crate::text::to_owned_string("{}"),
    }
}

/// The default TypeScript value for a domain type.
pub fn default_for_type(typ: &DomainType) -> (r: String)
    ensures
        r@ == spec_default_for_type(*typ),
{
    match typ {
        DomainType::String => crate::text::to_owned_string("\"\""),
        DomainType::Number => crate::text::to_owned_string("0"),
        DomainType::Boolean => crate::text::to_owned_string("false"),
        DomainType::Array(_) => crate::text::to_owned_string("[]"),
        DomainType::Option(_) => crate::text::to_owned_string("undefined"),
        DomainType::Reference(_) => crate::text::to_owned_string("undefined as any"),
        DomainType::Object(_) => crate::text::to_owned_string("{}"),
    }
}

fn initial_entry(a: &AggregateIR, f: &FieldDef) -> (r: String)
    ensures
        r@ == spec_initial_entry(*a, *f),
{
    let value = match find_key(&a.initial_state, f.name.as_str()) {
        Some(i) => initial_value_to_ts(&a.initial_state[i].1),
        None => default_for_type(&f.typ),
    };
    let mut out = crate::text::to_owned_string("  ");
    out.append(f.name.as_str());
    out.append(": ");
    out.append(value.as_str());
    out.append(",\n");
    out
}

/// Generates the state type of an aggregate and its initial state constant.
pub fn generate_state_type(aggregate: &AggregateIR) -> (r: String)
    ensures
        r@ == spec_state_type(*aggregate),
{
    let n = aggregate.state.fields.len();
    let ghost fm = |k: int| spec_state_member(aggregate.state.fields@[k]);
    let ghost fi = |k: int| spec_initial_entry(*aggregate, aggregate.state.fields@[k]);
    let mut members = String::new();
    let mut inits = String::new();
    let mut i: usize = 0;
    while i < n
        invariant
            n == aggregate.state.fields@.len(),
            i <= n,
            fm == (|k: int| spec_state_member(aggregate.state.fields@[k])),
            fi == (|k: int| spec_initial_entry(*aggregate, aggregate.state.fields@[k])),
            members@ == seq_flatten(Seq::new(i as nat, fm)),
            inits@ == seq_flatten(Seq::new(i as nat, fi)),
        decreases n - i,
    {
        let field = &aggregate.state.fields[i];
        members.append("  ");
        members.append(field.name.as_str());
        if field.optional {
            members.append("?");
        }
        members.append(": ");
        let t = to_ts_type(&field.typ);
        members.append(t.as_str());
        members.append(";\n");
        let e = initial_entry(aggregate, field);
        inits.append(e.as_str());
        proof {
            lemma_flatten_new_step(fm, i as int);
            lemma_flatten_new_step(fi, i as int);
        }
        i = i + 1;
    }
    let mut out = crate::text::to_owned_string("export type ");
    out.append(aggregate.name.as_str());
    out.append("State = {\n");
    out.append(members.as_str());
    out.append("};\n\n");
    out.append("export const initial");
    out.append(aggregate.name.as_str());
    out.append("State: ");
    out.append(aggregate.name.as_str());
    out.append("State = {\n");
    out.append(inits.as_str());
    out.append("};\n");
    out
}

} // verus!
