//! TypeScript type rendering of domain types, and identifier case conversions.

use vstd::prelude::*;

use crate::ir::{DomainType, FieldDef, ObjectType};
use crate::text::{
    char_is_uppercase, char_to_lowercase, char_to_uppercase, chars_of, push_char, spec_is_uppercase,
    spec_lowercase, spec_uppercase,
};

verus! {

/// The TypeScript rendering of a domain type.
pub open spec fn spec_ts_type(t: DomainType) -> Seq<char>
    decreases t, 0nat,
{
    match t {
        DomainType::String => "string"@,
        DomainType::Number => "number"@,
        DomainType::Boolean => "boolean"@,
        DomainType::Array(inner) => spec_ts_type(*inner) + "[]"@,
        DomainType::Option(inner) => spec_ts_type(*inner) + " | undefined"@,
        DomainType::Reference(name) => name@,
        DomainType::Object(obj) => spec_object_type(obj),
    }
}

/// An inline object type: `{ f1; f2 }`, or `Record<string, never>` without fields.
pub open spec fn spec_object_type(obj: ObjectType) -> Seq<char>
    decreases obj, 2nat,
{
    if obj.fields@.len() == 0 {
        "Record<string, never>"@
    } else {
        "{ "@ + spec_fields_joined(obj, obj.fields@.len() as int) + " }"@
    }
}

/// The first `n` fields of `obj`, each rendered by `spec_format_field`, joined by `"; "`.
pub open spec fn spec_fields_joined(obj: ObjectType, n: int) -> Seq<char>
    decreases obj, 1nat, n,
{
    if n <= 0 || n > obj.fields@.len() {
        Seq::empty()
    } else if n == 1 {
        spec_format_field(obj.fields@[0])
    } else {
        spec_fields_joined(obj, n - 1) + "; "@ + spec_format_field(obj.fields@[n - 1])
    }
}

/// `name: type`, with `?` after the name of an optional field.
pub open spec fn spec_format_field(f: FieldDef) -> Seq<char>
    decreases f, 0nat,
{
    f.name@ + (if f.optional { "?"@ } else { Seq::empty() }) + ": "@ + spec_ts_type(f.typ)
}

/// Converts a domain type to its TypeScript type.
pub fn to_ts_type(typ: &DomainType) -> (r: String)
    ensures
        r@ == spec_ts_type(*typ),
    decreases typ, 0nat,
{
    match typ {
        DomainType::String => crate::text::to_owned_string("string"),
        DomainType::Number => crate::text::to_owned_string("number"),
        DomainType::Boolean => crate::text::to_owned_string("boolean"),
        DomainType::Array(inner) => {
            let mut s = to_ts_type(inner);
            s.append("[]");
            s
        },
        DomainType::Option(inner) => {
            let mut s = to_ts_type(inner);
            s.append(" | undefined");
            s
        },
        DomainType::Reference(name) => name.clone(),
        DomainType::Object(obj) => generate_object_type(obj),
    }
}

/// Generates an inline TypeScript object type.
pub fn generate_object_type(obj: &ObjectType) -> (r: String)
    ensures
        r@ == spec_object_type(*obj),
    decreases obj, 2nat,
{
    if obj.fields.len() == 0 {
        return crate::text::to_owned_string("Record<string, never>");
    }
    let mut body = String::new();
    let mut i: usize = 0;
    while i < obj.fields.len()
        invariant
            0 < obj.fields@.len(),
            i <= obj.fields@.len(),
            body@ == spec_fields_joined(*obj, i as int),
        decreases obj.fields.len() - i,
    {
        if i > 0 {
            body.append("; ");
        }
        assert(decreases_to!(*obj => obj.fields@[i as int]));
        let f = format_field(&obj.fields[i]);
        body.append(f.as_str());
        i = i + 1;
    }
    let mut out = crate::text::to_owned_string("{ ");
    out.append(body.as_str());
    out.append(" }");
    out
}

/// Formats a single field definition.
pub fn format_field(field: &FieldDef) -> (r: String)
    ensures
        r@ == spec_format_field(*field),
    decreases field, 0nat,
{
    let mut s = field.name.clone();
    if field.optional {
        s.append("?");
    }
    s.append(": ");
    let t = to_ts_type(&field.typ);
    s.append(t.as_str());
    s
}

// ---------------------------------------------------------------------------
// Case conversions
// ---------------------------------------------------------------------------

/// What `to_snake_case` emits for the character at position `i`.
pub open spec fn snake_piece(c: char, i: int) -> Seq<char> {
    if spec_is_uppercase(c) {
        (if i > 0 { seq!['_'] } else { Seq::empty() }) + seq![spec_lowercase(c)[0]]
    } else {
        seq![c]
    }
}

/// snake_case: every upper-case character becomes the first character of its
/// lower-case mapping, preceded by `_` unless it is the first character.
pub open spec fn spec_snake_case(s: Seq<char>) -> Seq<char>
    decreases s.len(),
{
    if s.len() == 0 {
        Seq::empty()
    } else {
        spec_snake_case(s.drop_last()) + snake_piece(s.last(), s.len() - 1)
    }
}

/// Converts a PascalCase or camelCase name to snake_case.
pub fn to_snake_case(s: &str) -> (r: String)
    ensures
        r@ == spec_snake_case(s@),
{
    let cs = chars_of(s);
    let mut out = String::new();
    let mut i: usize = 0;
    while i < cs.len()
        invariant
            cs@ == s@,
            i <= cs@.len(),
            out@ == spec_snake_case(s@.subrange(0, i as int)),
        decreases cs.len() - i,
    {
        let c = cs[i];
        proof {
            assert(s@.subrange(0, i + 1).drop_last() =~= s@.subrange(0, i as int));
        }
        if char_is_uppercase(c) {
            if i > 0 {
                push_char(&mut out, '_');
            }
            let lower = char_to_lowercase(c);
            let first = lower.as_str().get_char(0);
            push_char(&mut out, first);
            proof {
                if i > 0 {
                    assert(out@ =~= spec_snake_case(s@.subrange(0, i as int)) + (seq!['_'] + seq![first]));
                } else {
                    assert(out@ =~= spec_snake_case(s@.subrange(0, i as int)) + (Seq::<char>::empty() + seq![first]));
                }
            }
        } else {
            push_char(&mut out, c);
        }
        i = i + 1;
    }
    assert(s@.subrange(0, cs@.len() as int) =~= s@);
    out
}

/// What `to_pascal_case` emits for position `i` of `s`: underscores vanish, the
/// first character of each `_`-separated word becomes its upper-case mapping.
pub open spec fn pascal_piece(s: Seq<char>, i: int) -> Seq<char> {
    if s[i] == '_' {
        Seq::empty()
    } else if i == 0 || s[i - 1] == '_' {
        spec_uppercase(s[i])
    } else {
        seq![s[i]]
    }
}

/// PascalCase of a snake_case name: the words between underscores, each with
/// its first character upper-cased, concatenated.
pub open spec fn spec_pascal_case(s: Seq<char>) -> Seq<char>
    decreases s.len(),
{
    if s.len() == 0 {
        Seq::empty()
    } else {
        spec_pascal_case(s.drop_last()) + pascal_piece(s, s.len() - 1)
    }
}

proof fn lemma_pascal_prefix(s: Seq<char>, n: int)
    requires
        0 < n <= s.len(),
    ensures
        spec_pascal_case(s.subrange(0, n)) == spec_pascal_case(s.subrange(0, n - 1)) + pascal_piece(s, n - 1),
{
    let p = s.subrange(0, n);
    assert(p.drop_last() =~= s.subrange(0, n - 1));
    assert(pascal_piece(p, n - 1) == pascal_piece(s, n - 1));
}

/// Converts a snake_case name to PascalCase.
pub fn to_pascal_case(s: &str) -> (r: String)
    ensures
        r@ == spec_pascal_case(s@),
{
    let cs = chars_of(s);
    let mut out = String::new();
    let mut i: usize = 0;
    while i < cs.len()
        invariant
            cs@ == s@,
            i <= cs@.len(),
            out@ == spec_pascal_case(s@.subrange(0, i as int)),
        decreases cs.len() - i,
    {
        let c = cs[i];
        proof {
            lemma_pascal_prefix(s@, i + 1);
        }
        if c == '_' {
            assert(out@ =~= out@ + pascal_piece(s@, i as int));
        } else if i == 0 || cs[i - 1] == '_' {
            let up = char_to_uppercase(c);
            out.append(up.as_str());
        } else {
            push_char(&mut out, c);
        }
        i = i + 1;
    }
    assert(s@.subrange(0, cs@.len() as int) =~= s@);
    out
}

/// camelCase: the PascalCase form with its first character replaced by that
/// character's lower-case mapping.
pub open spec fn spec_camel_case(s: Seq<char>) -> Seq<char> {
    let p = spec_pascal_case(s);
    if p.len() == 0 {
        Seq::empty()
    } else {
        spec_lowercase(p[0]) + p.drop_first()
    }
}

/// Converts a name to camelCase.
pub fn to_camel_case(s: &str) -> (r: String)
    ensures
        r@ == spec_camel_case(s@),
{
    let pascal = to_pascal_case(s);
    let ps = chars_of(pascal.as_str());
    if ps.len() == 0 {
        return String::new();
    }
    let mut out = char_to_lowercase(ps[0]);
    let mut i: usize = 1;
    while i < ps.len()
        invariant
            ps@ == spec_pascal_case(s@),
            1 <= i <= ps@.len(),
            out@ == spec_lowercase(ps@[0]) + ps@.subrange(1, i as int),
        decreases ps.len() - i,
    {
        push_char(&mut out, ps[i]);
        i = i + 1;
        assert(out@ =~= spec_lowercase(ps@[0]) + ps@.subrange(1, i as int));
    }
    assert(ps@.drop_first() =~= ps@.subrange(1, ps@.len() as int));
    out
}

} // verus!
