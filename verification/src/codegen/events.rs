//! TypeScript rendering of an event discriminated union and its type guards.

use vstd::prelude::*;

use crate::codegen::ts_types::{spec_ts_type, to_ts_type};
use crate::ir::aggregate::{EventField, EventTypeIR, EventVariant};
use crate::text::{lemma_flatten_new_step, lemma_join_new_step, seq_flatten, seq_join};

verus! {

/// `name: type` of an event field.
pub open spec fn spec_event_field(f: EventField) -> Seq<char> {
    f.name@ + ": "@ + spec_ts_type(f.typ)
}

/// The union member of a variant: `  | { type: "V"; f: T; ... }`.
pub open spec fn spec_variant_member(v: EventVariant) -> Seq<char> {
    let fields = seq_join(Seq::new(v.fields@.len(), |k: int| spec_event_field(v.fields@[k])), "; "@);
    "  | { type: \""@ + v.name@ + "\""@ + (if v.fields@.len() == 0 { Seq::empty() } else { "; "@ + fields }) + " }"@
}

/// The type guard of a variant.
pub open spec fn spec_variant_guard(events: EventTypeIR, v: EventVariant) -> Seq<char> {
    "export function is"@ + v.name@ + "(event: "@ + events.name@ + "): event is { type: \""@ + v.name@
        + "\" } & "@ + events.name@ + " {\n"@ + "  return event.type === \""@ + v.name@ + "\";\n"@ + "}\n\n"@
}

/// The whole event module: the union type followed by one guard per variant.
pub open spec fn spec_event_type(events: EventTypeIR) -> Seq<char> {
    let n = events.variants@.len();
    "export type "@ + events.name@ + " =\n"@
        + seq_join(Seq::new(n, |k: int| spec_variant_member(events.variants@[k])), "\n"@)
        + ";\n"@ + "\n"@
        + seq_flatten(Seq::new(n, |k: int| spec_variant_guard(events, events.variants@[k])))
}

fn variant_member(v: &EventVariant) -> (r: String)
    ensures
        r@ == spec_variant_member(*v),
{
    let ghost f = |k: int| spec_event_field(v.fields@[k]);
    let mut fields = String::new();
    let mut i: usize = 0;
    while i < v.fields.len()
        invariant
            i <= v.fields@.len(),
            f == (|k: int| spec_event_field(v.fields@[k])),
            fields@ == seq_join(Seq::new(i as nat, f), "; "@),
        decreases v.fields.len() - i,
    {
        if i > 0 {
            fields.append("; ");
        }
        let f_i = &v.fields[i];
        fields.append(f_i.name.as_str());
        fields.append(": ");
        let t = to_ts_type(&f_i.typ);
        fields.append(t.as_str());
        proof {
            lemma_join_new_step(f, "; "@, i as int);
        }
        i = i + 1;
    }
    let mut out = crate::text::to_owned_string("  | { type: \"");
    out.append(v.name.as_str());
    out.append("\"");
    if v.fields.len() > 0 {
        out.append("; ");
        out.append(fields.as_str());
    }
    out.append(" }");
    out
}

/// Generates the TypeScript discriminated union of an event type and one type
/// guard per variant.
pub fn generate_event_type(events: &EventTypeIR) -> (r: String)
    ensures
        r@ == spec_event_type(*events),
{
    let n = events.variants.len();
    let ghost fm = |k: int| spec_variant_member(events.variants@[k]);
    let ghost fg = |k: int| spec_variant_guard(*events, events.variants@[k]);
    let mut members = String::new();
    let mut guards = String::new();
    let mut i: usize = 0;
    while i < n
        invariant
            n == events.variants@.len(),
            i <= n,
            fm == (|k: int| spec_variant_member(events.variants@[k])),
            fg == (|k: int| spec_variant_guard(*events, events.variants@[k])),
            members@ == seq_join(Seq::new(i as nat, fm), "\n"@),
            guards@ == seq_flatten(Seq::new(i as nat, fg)),
        decreases n - i,
    {
        let v = &events.variants[i];
        if i > 0 {
            members.append("\n");
        }
        let m = variant_member(v);
        members.append(m.as_str());
        guards.append("export function is");
        guards.append(v.name.as_str());
        guards.append("(event: ");
        guards.append(events.name.as_str());
        guards.append("): event is { type: \"");
        guards.append(v.name.as_str());
        guards.append("\" } & ");
        guards.append(events.name.as_str());
        guards.append(" {\n");
        guards.append("  return event.type === \"");
        guards.append(v.name.as_str());
        guards.append("\";\n");
        guards.append("}\n\n");
        proof {
            lemma_join_new_step(fm, "\n"@, i as int);
            lemma_flatten_new_step(fg, i as int);
        }
        i = i + 1;
    }
    let mut out = crate::text::to_owned_string("export type ");
    out.append(events.name.as_str());
    out.append(" =\n");
    out.append(members.as_str());
    out.append(";\n");
    out.append("\n");
    out.append(guards.as_str());
    out
}

} // verus!
