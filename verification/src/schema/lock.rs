//! Schema lock file: the event schemas of a domain captured at a point in
//! time (`events.lock.json`). In production mode the compiler compares the
//! current schemas against it to detect changes and enforce safe evolution.
//! Maps are association lists with unique keys.

use vstd::prelude::*;

use std::collections::hash_map::DefaultHasher;
use std::hash::Hasher;
use vstd::std_specs::hash::DefaultHasherAdditionalSpecFns;

use crate::ir::aggregate::{AggregateIR, EventField, EventVariant};
use crate::ir::assoc::{find_key, has_key, keys_unique};
use crate::ir::{DomainIR, DomainType};
use crate::store::telemetry::spec_padded_decimal;
use crate::text::{
    bytes_less, bytes_lt, lemma_join_new_step, lemma_lt_irrefl, lemma_lt_total, lemma_lt_trans, push_char, seq_join,
    spec_nat_decimal,
};

verus! {

/// The schema lock file format version.
pub const LOCK_FILE_VERSION: &'static str = "1.0";

/// The complete schema lock file.
#[derive(Debug)]
pub struct SchemaLockFile {
    /// Lock file format version.
    pub version: String,
    /// When this lock file was produced.
    pub generated_at: String,
    /// Version of the compiler that produced this file.
    pub compiler_version: String,
    /// Schemas of each aggregate, keyed by aggregate name.
    pub aggregates: Vec<(String, AggregateLock)>,
}

/// Lock file entry of a single aggregate.
#[derive(Debug)]
pub struct AggregateLock {
    /// Event schemas keyed by event name.
    pub events: Vec<(String, EventSchema)>,
}

/// Schema of a single event type.
#[derive(Debug)]
pub struct EventSchema {
    /// Schema version (starts at 1, increments on non-breaking changes).
    pub version: u32,
    /// Previous version this was upcast from, if any.
    pub previous_version: Option<u32>,
    /// Event fields keyed by name.
    pub fields: Vec<(String, FieldSchema)>,
    /// Upcast strategies from older versions, keyed by source version
    /// (`"auto"` or the name of a custom function).
    pub upcast_from: Vec<(u32, String)>,
    /// Content hash for quick comparison.
    pub hash: String,
}

/// Schema of a single field.
#[derive(Debug)]
pub struct FieldSchema {
    /// TypeScript type representation.
    pub typ: String,
    /// Whether the field is required.
    pub required: bool,
    /// Default value of an optional field, as JSON text.
    pub default: Option<String>,
}

/// The abstract value of a field schema: type text, required flag, default JSON text.
pub type FieldSchemaView = (Seq<char>, bool, Option<Seq<char>>);

impl View for FieldSchema {
    type V = FieldSchemaView;

    open spec fn view(&self) -> FieldSchemaView {
        (self.typ@, self.required, match self.default {
            Some(d) => Some(d@),
            None => None,
        })
    }
}

/// A copy of a field schema.
pub fn clone_field_schema(s: &FieldSchema) -> (r: FieldSchema)
    ensures
        r == *s,
{
    FieldSchema {
        typ: s.typ.clone(),
        required: s.required,
        default: match &s.default {
            Some(d) => Some(d.clone()),
            None => None,
        },
    }
}

// ---------------------------------------------------------------------------
// Keyed lists of field schemas, by their views
// ---------------------------------------------------------------------------

/// The views of a list of named field schemas.
pub open spec fn fields_view(m: Seq<(String, FieldSchema)>) -> Seq<(Seq<char>, FieldSchemaView)> {
    m.map_values(|e: (String, FieldSchema)| (e.0@, e.1@))
}

/// The index of the first entry at or after `i` whose key is `k`, or -1.
pub open spec fn first_key_index<V>(e: Seq<(Seq<char>, V)>, k: Seq<char>, i: int) -> int
    decreases e.len() - i,
{
    if i < 0 || i >= e.len() {
        -1
    } else if e[i].0 == k {
        i
    } else {
        first_key_index(e, k, i + 1)
    }
}

/// Binding `k` to `v`: the value of the first entry with key `k` is replaced,
/// or the entry is appended.
pub open spec fn view_insert<V>(e: Seq<(Seq<char>, V)>, k: Seq<char>, v: V) -> Seq<(Seq<char>, V)> {
    let i = first_key_index(e, k, 0);
    if i >= 0 {
        e.update(i, (k, v))
    } else {
        e.push((k, v))
    }
}

proof fn lemma_first_key_index_range<V>(e: Seq<(Seq<char>, V)>, k: Seq<char>, i: int)
    requires
        0 <= i,
    ensures
        first_key_index(e, k, i) == -1 || (i <= first_key_index(e, k, i) < e.len()),
    decreases e.len() - i,
{
    if i < e.len() && e[i].0 != k {
        lemma_first_key_index_range(e, k, i + 1);
    }
}

pub proof fn lemma_first_key_index<V>(e: Seq<(Seq<char>, V)>, k: Seq<char>, i: int, j: int)
    requires
        0 <= i <= j <= e.len(),
        forall|m: int| i <= m < j ==> e[m].0 != k,
        j == e.len() || e[j].0 == k,
    ensures
        first_key_index(e, k, i) == if j == e.len() { -1 } else { j },
    decreases j - i,
{
    if i < j {
        lemma_first_key_index(e, k, i + 1, j);
    }
}

/// Binds `k` to `v` in a list of named field schemas.
pub fn insert_field(m: &mut Vec<(String, FieldSchema)>, k: String, v: FieldSchema)
    ensures
        fields_view(final(m)@) == view_insert(fields_view(old(m)@), k@, v@),
        keys_unique(old(m)@) ==> keys_unique(final(m)@),
{
    let ghost old_m = m@;
    let ghost kv = k@;
    let ghost vv = v@;
    match find_key(m, k.as_str()) {
        Some(i) => {
            m.set(i, (k, v));
            proof {
                lemma_first_key_index(fields_view(old_m), kv, 0, i as int);
                assert(fields_view(m@) =~= fields_view(old_m).update(i as int, (kv, vv)));
                assert forall|a: int, b: int| 0 <= a < b < m@.len() && keys_unique(old_m) implies m@[a].0@
                    != m@[b].0@ by {
                    assert(old_m[i as int].0@ == kv);
                }
            }
        },
        None => {
            m.push((k, v));
            proof {
                lemma_first_key_index(fields_view(old_m), kv, 0, old_m.len() as int);
                assert(fields_view(m@) =~= fields_view(old_m).push((kv, vv)));
                assert forall|a: int, b: int| 0 <= a < b < m@.len() && keys_unique(old_m) implies m@[a].0@
                    != m@[b].0@ by {
                    if b == old_m.len() {
                        assert(!has_key(old_m, kv));
                        assert(old_m[a].0@ != kv);
                    }
                }
            }
        },
    }
}

// ---------------------------------------------------------------------------
// Type text
// ---------------------------------------------------------------------------

/// The TypeScript text of a domain type as the lock file records it.
pub open spec fn spec_type_string(t: DomainType) -> Seq<char>
    decreases t, 0nat, 0int,
{
    match t {
        DomainType::String => "string"@,
        DomainType::Number => "number"@,
        DomainType::Boolean => "boolean"@,
        DomainType::Array(inner) => spec_type_string(*inner) + "[]"@,
        DomainType::Option(inner) => spec_type_string(*inner) + " | undefined"@,
        DomainType::Object(obj) => "{ "@ + spec_object_fields_string(obj.fields@, obj.fields@.len() as int)
            + " }"@,
        DomainType::Reference(name) => name@,
    }
}

/// The first `n` fields of an object type, `name?: type`, joined by `", "`.
pub open spec fn spec_object_fields_string(fs: Seq<crate::ir::FieldDef>, n: int) -> Seq<char>
    decreases fs, 1nat, n,
{
    if n <= 0 || n > fs.len() {
        Seq::empty()
    } else {
        let f = fs[n - 1];
        let item = f.name@ + (if f.optional { "?"@ } else { Seq::empty() }) + ": "@ + spec_type_string(f.typ);
        if n == 1 {
            item
        } else {
            spec_object_fields_string(fs, n - 1) + ", "@ + item
        }
    }
}

fn domain_type_to_string(typ: &DomainType) -> (r: String)
    ensures
        r@ == spec_type_string(*typ),
    decreases typ, 0nat, 0int,
{
    match typ {
        DomainType::String => crate::text::to_owned_string("string"),
        DomainType::Number => crate::text::to_owned_string("number"),
        DomainType::Boolean => crate::text::to_owned_string("boolean"),
        DomainType::Array(inner) => {
            let mut s = domain_type_to_string(inner);
            s.append("[]");
            s
        },
        DomainType::Option(inner) => {
            let mut s = domain_type_to_string(inner);
            s.append(" | undefined");
            s
        },
        DomainType::Object(obj) => {
            let mut s = crate::text::to_owned_string("{ ");
            let body = object_fields_string(&obj.fields);
            s.append(body.as_str());
            s.append(" }");
            s
        },
        DomainType::Reference(name) => name.clone(),
    }
}

fn object_fields_string(fs: &Vec<crate::ir::FieldDef>) -> (r: String)
    ensures
        r@ == spec_object_fields_string(fs@, fs@.len() as int),
    decreases fs@, 1nat, fs@.len() as int,
{
    let mut out = String::new();
    let mut i: usize = 0;
    while i < fs.len()
        invariant
            i <= fs@.len(),
            out@ == spec_object_fields_string(fs@, i as int),
        decreases fs.len() - i,
    {
        if i > 0 {
            out.append(", ");
        }
        let f = &fs[i];
        out.append(f.name.as_str());
        if f.optional {
            out.append("?");
        }
        out.append(": ");
        assert(decreases_to!(fs@ => fs@[i as int]));
        assert(decreases_to!(fs@[i as int] => fs@[i as int].typ));
        let t = domain_type_to_string(&f.typ);
        out.append(t.as_str());
        i = i + 1;
    }
    out
}

/// Converts a domain type to its TypeScript text as the lock file records it.
pub fn domain_type_to_string_pub(typ: &DomainType) -> (r: String)
    ensures
        r@ == spec_type_string(*typ),
{
    domain_type_to_string(typ)
}

// ---------------------------------------------------------------------------
// Field and event schemas
// ---------------------------------------------------------------------------

/// The schema of a field of type `t`: an optional type is recorded by its
/// inner type, not required, with default `null`.
pub open spec fn spec_field_schema(t: DomainType) -> FieldSchemaView {
    match t {
        DomainType::Option(inner) => (spec_type_string(*inner), false, Some("null"@)),
        _ => (spec_type_string(t), true, None),
    }
}

impl FieldSchema {
    /// The schema of an event field.
    pub fn from_field(field: &EventField) -> (r: Self)
        ensures
            r@ == spec_field_schema(field.typ),
    {
        match &field.typ {
            DomainType::Option(inner) => FieldSchema {
                typ: domain_type_to_string(inner),
                required: false,
                default: Some(crate::text::to_owned_string("null")),
            },
            other => FieldSchema { typ: domain_type_to_string(other), required: true, default: None },
        }
    }
}

/// The field schemas of the first `n` event fields, inserted in order.
pub open spec fn spec_fields_schema(fs: Seq<EventField>, n: int) -> Seq<(Seq<char>, FieldSchemaView)>
    decreases n,
{
    if n <= 0 || n > fs.len() {
        Seq::empty()
    } else {
        view_insert(spec_fields_schema(fs, n - 1), fs[n - 1].name@, spec_field_schema(fs[n - 1].typ))
    }
}

/// Builds the field schemas of an event's fields.
pub fn fields_schema(fields: &Vec<EventField>) -> (r: Vec<(String, FieldSchema)>)
    ensures
        fields_view(r@) == spec_fields_schema(fields@, fields@.len() as int),
        keys_unique(r@),
{
    let mut m: Vec<(String, FieldSchema)> = Vec::new();
    let mut i: usize = 0;
    while i < fields.len()
        invariant
            i <= fields@.len(),
            fields_view(m@) == spec_fields_schema(fields@, i as int),
            keys_unique(m@),
        decreases fields.len() - i,
    {
        let f = &fields[i];
        let schema = FieldSchema::from_field(f);
        insert_field(&mut m, f.name.clone(), schema);
        i = i + 1;
    }
    m
}

// ---------------------------------------------------------------------------
// Content hash
// ---------------------------------------------------------------------------

/// The UTF-8 bytes of a string.
pub open spec fn utf8_bytes(s: String) -> Seq<u8> {
    vstd::utf8::encode_utf8(s@)
}

/// `order` lists each index of `m` once, by ascending name bytes.
pub open spec fn sorted_order(m: Seq<(String, FieldSchema)>, order: Seq<int>) -> bool {
    &&& order.len() == m.len()
    &&& forall|p: int| 0 <= p < order.len() ==> 0 <= #[trigger] order[p] < m.len()
    &&& forall|p: int, q: int| 0 <= p < q < order.len() ==> order[p] != order[q]
    &&& forall|p: int, q: int|
        0 <= p < q < order.len() ==> !bytes_lt(
            utf8_bytes(m[order[q]].0),
            utf8_bytes(m[order[p]].0),
        )
}

/// The byte strings written to the hasher: the event name, then for each field
/// in `order` its name, type and required flag (a string as its bytes followed
/// by `0xff`, a flag as one byte).
pub open spec fn hash_writes(name: Seq<u8>, m: Seq<(String, FieldSchema)>, order: Seq<int>) -> Seq<Seq<u8>>
    decreases order.len(),
{
    if order.len() == 0 {
        seq![name, seq![0xffu8]]
    } else {
        let e = m[order.last()];
        hash_writes(name, m, order.drop_last()) + seq![
            utf8_bytes(e.0),
            seq![0xffu8],
            utf8_bytes(e.1.typ),
            seq![0xffu8],
            seq![if e.1.required { 1u8 } else { 0u8 }],
        ]
    }
}

pub open spec fn hex_digit(d: nat) -> char {
    let d = d % 16;
    if d < 10 {
        ((d + 48) as u32) as char
    } else {
        ((d + 87) as u32) as char
    }
}

/// The last `width` hexadecimal digits of `n`, zero-padded, lower case.
pub open spec fn spec_hex_fixed(n: nat, width: nat) -> Seq<char>
    decreases width,
{
    if width == 0 {
        Seq::empty()
    } else {
        spec_hex_fixed(n / 16, (width - 1) as nat) + seq![hex_digit(n % 16)]
    }
}

/// `sha256:` and the 16 hexadecimal digits of a hash value.
pub open spec fn spec_hash_text(h: u64) -> Seq<char> {
    "sha256:"@ + spec_hex_fixed(h as nat, 16)
}

/// `h` is the hash text of an event named `name` with fields `m`: the name and
/// the fields in name order fed to `DefaultHasher`.
pub open spec fn is_schema_hash(name: Seq<u8>, m: Seq<(String, FieldSchema)>, h: Seq<char>) -> bool {
    exists|order: Seq<int>|
        sorted_order(m, order) && h == spec_hash_text(
            DefaultHasher::spec_finish(#[trigger] hash_writes(name, m, order)),
        )
}

fn hex_char(d: u64) -> (c: char)
    requires
        d < 16,
    ensures
        c == hex_digit(d as nat),
{
    if d < 10 {
        let c = ((d + 48) as u8) as char;
        proof {
            assert(c == hex_digit(d as nat));
        }
        c
    } else {
        let c = ((d + 87) as u8) as char;
        proof {
            assert(c == hex_digit(d as nat));
        }
        c
    }
}

fn push_hex_fixed(out: &mut String, n: u64, width: usize)
    ensures
        final(out)@ == old(out)@ + spec_hex_fixed(n as nat, width as nat),
    decreases width,
{
    if width > 0 {
        push_hex_fixed(out, n / 16, width - 1);
        push_char(out, hex_char(n % 16));
        proof {
            assert(hex_digit((n % 16) as nat) == hex_digit(n as nat % 16));
        }
    }
}

/// `sha256:` followed by the 16 zero-padded hexadecimal digits of `h`.
pub fn hash_text(h: u64) -> (r: String)
    ensures
        r@ == spec_hash_text(h),
{
    let mut out = crate::text::to_owned_string("sha256:");
    push_hex_fixed(&mut out, h, 16);
    out
}

/// The name bytes of the `k`-th entry.
spec fn name_bytes(m: Seq<(String, FieldSchema)>, k: int) -> Seq<u8> {
    utf8_bytes(m[k].0)
}

/// The indices of `m` ordered by ascending name bytes (insertion sort).
fn sort_by_name(m: &Vec<(String, FieldSchema)>) -> (order: Vec<usize>)
    ensures
        sorted_order(m@, order@.map_values(|x: usize| x as int)),
{
    let mut order: Vec<usize> = Vec::new();
    let mut i: usize = 0;
    while i < m.len()
        invariant
            i <= m@.len(),
            order@.len() == i,
            forall|p: int| 0 <= p < order@.len() ==> #[trigger] order@[p] < i,
            forall|p: int, q: int| 0 <= p < q < order@.len() ==> order@[p] != order@[q],
            forall|p: int, q: int|
                0 <= p < q < order@.len() ==> !bytes_lt(
                    name_bytes(m@, order@[q] as int),
                    name_bytes(m@, order@[p] as int),
                ),
        decreases m.len() - i,
    {
        let key = m[i].0.as_str().as_bytes();
        let ghost kb = name_bytes(m@, i as int);
        let mut j: usize = order.len();
        while j > 0
            invariant
                j <= order@.len(),
                key@ == kb,
                kb == name_bytes(m@, i as int),
                forall|p: int| 0 <= p < order@.len() ==> #[trigger] order@[p] < m@.len(),
                forall|q: int| j <= q < order@.len() ==> bytes_lt(kb, #[trigger] name_bytes(m@, order@[q] as int)),
            ensures
                j <= order@.len(),
                forall|q: int| j <= q < order@.len() ==> bytes_lt(kb, #[trigger] name_bytes(m@, order@[q] as int)),
                j == 0 || !bytes_lt(kb, name_bytes(m@, order@[j - 1] as int)),
            decreases j,
        {
            let prev = order[j - 1];
            if !bytes_less(key, m[prev].0.as_str().as_bytes()) {
                break;
            }
            j = j - 1;
        }
        let ghost old_order = order@;
        proof {
            // Everything before the insertion point is not greater than the key.
            assert forall|p: int| 0 <= p < j implies !bytes_lt(kb, #[trigger] name_bytes(m@, old_order[p] as int)) by {
                let last = name_bytes(m@, old_order[j - 1] as int);
                let here = name_bytes(m@, old_order[p] as int);
                assert(!bytes_lt(kb, last));
                if bytes_lt(kb, here) {
                    if p < j - 1 {
                        assert(!bytes_lt(last, here));
                        lemma_lt_total(last, here);
                        if bytes_lt(here, last) {
                            lemma_lt_trans(kb, here, last);
                        }
                    }
                }
            }
        }
        order.insert(j, i);
        proof {
            let o = order@;
            assert(o =~= old_order.insert(j as int, i));
            assert forall|p: int, q: int| 0 <= p < q < o.len() implies !bytes_lt(
                name_bytes(m@, o[q] as int),
                name_bytes(m@, o[p] as int),
            ) by {
                if p == j {
                    let other = name_bytes(m@, old_order[q - 1] as int);
                    assert(bytes_lt(kb, other));
                    if bytes_lt(other, kb) {
                        lemma_lt_trans(kb, other, kb);
                        lemma_lt_irrefl(kb);
                    }
                } else if q == j {
                    assert(!bytes_lt(kb, name_bytes(m@, old_order[p] as int)));
                } else {
                    let pp = if p < j { p } else { p - 1 };
                    let qq = if q < j { q } else { q - 1 };
                    assert(pp < qq);
                    assert(o[p] == old_order[pp]);
                    assert(o[q] == old_order[qq]);
                }
            }
            assert forall|p: int, q: int| 0 <= p < q < o.len() implies o[p] != o[q] by {
                if p != j && q != j {
                    let pp = if p < j { p } else { p - 1 };
                    let qq = if q < j { q } else { q - 1 };
                    assert(o[p] == old_order[pp]);
                    assert(o[q] == old_order[qq]);
                } else if p == j {
                    assert(o[q] == old_order[q - 1]);
                } else {
                    assert(o[p] == old_order[p]);
                }
            }
            assert forall|p: int| 0 <= p < o.len() implies #[trigger] o[p] < i + 1 by {
                if p < j {
                    assert(o[p] == old_order[p]);
                } else if p > j {
                    assert(o[p] == old_order[p - 1]);
                }
            }
        }
        i = i + 1;
    }
    proof {
        let o = order@.map_values(|x: usize| x as int);
        assert forall|p: int, q: int| 0 <= p < q < o.len() implies !bytes_lt(
            utf8_bytes(m@[o[q]].0),
            utf8_bytes(m@[o[p]].0),
        ) by {
            assert(o[q] == order@[q] as int);
            assert(o[p] == order@[p] as int);
            assert(!bytes_lt(name_bytes(m@, order@[q] as int), name_bytes(m@, order@[p] as int)));
        }
    }
    order
}

/// Computes the content hash of an event schema: the event name and the
/// fields in name order, fed to `DefaultHasher`.
fn compute_hash(event_name: &str, fields: &Vec<(String, FieldSchema)>) -> (r: String)
    ensures
        is_schema_hash(vstd::utf8::encode_utf8(event_name@), fields@, r@),
{
    let order = sort_by_name(fields);
    let ghost ov = order@.map_values(|x: usize| x as int);
    let ghost name = vstd::utf8::encode_utf8(event_name@);
    let ff: Vec<u8> = vec![0xffu8];
    let mut hasher = DefaultHasher::new();
    let nb = event_name.as_bytes();
    assert(nb@ == name);
    assert(hasher@ == Seq::<Seq<u8>>::empty());
    hasher.write(nb);
    assert(hasher@ == seq![name]);
    let ffs = ff.as_slice();
    assert(ffs@ == seq![0xffu8]);
    hasher.write(ffs);
    assert(hasher@ == seq![name, seq![0xffu8]]);
    proof {
        assert(ov.subrange(0, 0) =~= Seq::<int>::empty());
        assert(hasher@ =~= hash_writes(name, fields@, ov.subrange(0, 0)));
    }
    let mut k: usize = 0;
    while k < order.len()
        invariant
            k <= order@.len(),
            ov == order@.map_values(|x: usize| x as int),
            sorted_order(fields@, ov),
            ff@ == seq![0xffu8],
            hasher@ == hash_writes(name, fields@, ov.subrange(0, k as int)),
        decreases order.len() - k,
    {
        assert(ov[k as int] == order@[k as int] as int);
        let e = &fields[order[k]];
        let ghost before = hasher@;
        let b1 = e.0.as_str().as_bytes();
        let b2 = e.1.typ.as_str().as_bytes();
        assert(b1@ == utf8_bytes(e.0));
        assert(b2@ == utf8_bytes(e.1.typ));
        hasher.write(b1);
        hasher.write(ff.as_slice());
        hasher.write(b2);
        hasher.write(ff.as_slice());
        let flag: Vec<u8> = if e.1.required { vec![1u8] } else { vec![0u8] };
        assert(flag@ == seq![if e.1.required { 1u8 } else { 0u8 }]);
        hasher.write(flag.as_slice());
        proof {
            let sub = ov.subrange(0, k + 1);
            assert(sub.drop_last() =~= ov.subrange(0, k as int));
            assert(sub.last() == order@[k as int] as int);
            let tail = seq![
                utf8_bytes(e.0),
                seq![0xffu8],
                utf8_bytes(e.1.typ),
                seq![0xffu8],
                seq![if e.1.required { 1u8 } else { 0u8 }],
            ];
            assert(hasher@ =~= before + tail);
            assert(hash_writes(name, fields@, sub) == hash_writes(name, fields@, sub.drop_last()) + tail);
        }
        k = k + 1;
    }
    let h = hasher.finish();
    proof {
        assert(ov.subrange(0, ov.len() as int) =~= ov);
    }
    let r = hash_text(h);
    proof {
        assert(sorted_order(fields@, ov) && r@ == spec_hash_text(DefaultHasher::spec_finish(hash_writes(name, fields@, ov))));
    }
    r
}

/// The entries the hash reads in `order`: name bytes, type bytes, required
/// flag.
pub open spec fn hashed_entries(m: Seq<(String, FieldSchema)>, order: Seq<int>) -> Seq<(Seq<u8>, Seq<u8>, bool)> {
    Seq::new(order.len(), |k: int| (utf8_bytes(m[order[k]].0), utf8_bytes(m[order[k]].1.typ), m[order[k]].1.required))
}

/// Whether two fields have the same name, type and requiredness.
pub open spec fn same_field(a: (String, FieldSchema), b: (String, FieldSchema)) -> bool {
    a.0@ == b.0@ && a.1.typ@ == b.1.typ@ && a.1.required == b.1.required
}

/// Whether no two entries share a name.
pub open spec fn names_unique(m: Seq<(String, FieldSchema)>) -> bool {
    forall|a: int, b: int| 0 <= a < b < m.len() ==> m[a].0@ != m[b].0@
}

proof fn lemma_hash_writes_entries(
    name: Seq<u8>,
    m1: Seq<(String, FieldSchema)>,
    o1: Seq<int>,
    m2: Seq<(String, FieldSchema)>,
    o2: Seq<int>,
)
    requires
        o1.len() == o2.len(),
        hashed_entries(m1, o1) == hashed_entries(m2, o2),
    ensures
        hash_writes(name, m1, o1) == hash_writes(name, m2, o2),
    decreases o1.len(),
{
    if o1.len() > 0 {
        let k = o1.len() - 1;
        assert(hashed_entries(m1, o1)[k] == hashed_entries(m2, o2)[k]);
        assert(hashed_entries(m1, o1.drop_last()) =~= hashed_entries(m1, o1).drop_last());
        assert(hashed_entries(m2, o2.drop_last()) =~= hashed_entries(m2, o2).drop_last());
        lemma_hash_writes_entries(name, m1, o1.drop_last(), m2, o2.drop_last());
    }
}

proof fn lemma_utf8_injective(a: Seq<char>, b: Seq<char>)
    requires
        vstd::utf8::encode_utf8(a) == vstd::utf8::encode_utf8(b),
    ensures
        a == b,
{
    vstd::utf8::encode_utf8_decode_utf8(a);
    vstd::utf8::encode_utf8_decode_utf8(b);
}

proof fn lemma_order_covers(m: Seq<(String, FieldSchema)>, order: Seq<int>, j: int)
    requires
        sorted_order(m, order),
        0 <= j < m.len(),
    ensures
        exists|k: int| 0 <= k < order.len() && order[k] == j,
{
    let full = vstd::set_lib::set_int_range(0, m.len() as int);
    assert(order.no_duplicates());
    order.unique_seq_to_set();
    vstd::set_lib::lemma_int_range(0, m.len() as int);
    assert forall|x: int| order.to_set().contains(x) implies full.contains(x) by {
        let k = choose|k: int| 0 <= k < order.len() && order[k] == x;
    }
    vstd::seq_lib::seq_to_set_is_finite(order);
    vstd::set_lib::lemma_subset_equality(order.to_set(), full);
    assert(full.contains(j));
    assert(order.to_set().contains(j));
}

/// The names of the entries of `m` in `order`.
pub open spec fn ordered_names(m: Seq<(String, FieldSchema)>, order: Seq<int>) -> Seq<Seq<u8>> {
    Seq::new(order.len(), |k: int| utf8_bytes(m[order[k]].0))
}

proof fn lemma_ordered_names_increase(m: Seq<(String, FieldSchema)>, order: Seq<int>)
    requires
        sorted_order(m, order),
        names_unique(m),
    ensures
        forall|p: int, q: int|
            0 <= p < q < order.len() ==> #[trigger] bytes_lt(ordered_names(m, order)[p], ordered_names(m, order)[q]),
{
    let n = ordered_names(m, order);
    assert forall|p: int, q: int| 0 <= p < q < order.len() implies bytes_lt(n[p], n[q]) by {
        assert(order[p] != order[q]);
        if n[p] == n[q] {
            lemma_utf8_injective(m[order[p]].0@, m[order[q]].0@);
            if order[p] < order[q] {
                assert(m[order[p]].0@ != m[order[q]].0@);
            } else {
                assert(m[order[q]].0@ != m[order[p]].0@);
            }
        }
        lemma_lt_total(n[p], n[q]);
    }
}

proof fn lemma_first_elements_equal(a: Seq<Seq<u8>>, b: Seq<Seq<u8>>)
    requires
        a.len() == b.len(),
        a.len() > 0,
        forall|p: int, q: int| 0 <= p < q < a.len() ==> #[trigger] bytes_lt(a[p], a[q]),
        forall|p: int, q: int| 0 <= p < q < b.len() ==> #[trigger] bytes_lt(b[p], b[q]),
        b.contains(a[0]),
        a.contains(b[0]),
    ensures
        a[0] == b[0],
{
    let j = choose|j: int| 0 <= j < b.len() && b[j] == a[0];
    let i = choose|i: int| 0 <= i < a.len() && a[i] == b[0];
    if i != 0 && j != 0 {
        assert(bytes_lt(b[0], b[j]));
        assert(bytes_lt(a[0], a[i]));
        lemma_lt_trans(a[0], b[0], a[0]);
        lemma_lt_irrefl(a[0]);
    }
}

proof fn lemma_tail_contains(a: Seq<Seq<u8>>, b: Seq<Seq<u8>>, x: int)
    requires
        a.len() == b.len(),
        0 <= x,
        x + 1 < a.len(),
        a[0] == b[0],
        forall|p: int, q: int| 0 <= p < q < a.len() ==> #[trigger] bytes_lt(a[p], a[q]),
        b.contains(a[x + 1]),
    ensures
        b.drop_first().contains(a.drop_first()[x]),
{
    let y = choose|y: int| 0 <= y < b.len() && b[y] == a[x + 1];
    assert(bytes_lt(a[0], a[x + 1]));
    if y == 0 {
        lemma_lt_irrefl(a[0]);
    }
    assert(b.drop_first()[y - 1] == a.drop_first()[x]);
}

proof fn lemma_increasing_same_elements(a: Seq<Seq<u8>>, b: Seq<Seq<u8>>)
    requires
        a.len() == b.len(),
        forall|p: int, q: int| 0 <= p < q < a.len() ==> #[trigger] bytes_lt(a[p], a[q]),
        forall|p: int, q: int| 0 <= p < q < b.len() ==> #[trigger] bytes_lt(b[p], b[q]),
        forall|i: int| 0 <= i < a.len() ==> #[trigger] b.contains(a[i]),
        forall|j: int| 0 <= j < b.len() ==> #[trigger] a.contains(b[j]),
    ensures
        a == b,
    decreases a.len(),
{
    if a.len() > 0 {
        assert(b.contains(a[0]));
        assert(a.contains(b[0]));
        lemma_first_elements_equal(a, b);
        let a1 = a.drop_first();
        let b1 = b.drop_first();
        assert forall|p: int, q: int| 0 <= p < q < a1.len() implies #[trigger] bytes_lt(a1[p], a1[q]) by {
            assert(bytes_lt(a[p + 1], a[q + 1]));
        }
        assert forall|p: int, q: int| 0 <= p < q < b1.len() implies #[trigger] bytes_lt(b1[p], b1[q]) by {
            assert(bytes_lt(b[p + 1], b[q + 1]));
        }
        assert forall|x: int| 0 <= x < a1.len() implies #[trigger] b1.contains(a1[x]) by {
            assert(b.contains(a[x + 1]));
            lemma_tail_contains(a, b, x);
        }
        assert forall|y: int| 0 <= y < b1.len() implies #[trigger] a1.contains(b1[y]) by {
            assert(a.contains(b[y + 1]));
            lemma_tail_contains(b, a, y);
        }
        lemma_increasing_same_elements(a1, b1);
        assert(a =~= seq![a[0]] + a1);
        assert(b =~= seq![b[0]] + b1);
    }
}

/// Whether `m` holds an entry with the same name, type and requiredness as
/// `f`.
pub open spec fn holds_field(m: Seq<(String, FieldSchema)>, f: (String, FieldSchema)) -> bool {
    exists|j: int| 0 <= j < m.len() && same_field(f, #[trigger] m[j])
}

proof fn lemma_names_match(
    m1: Seq<(String, FieldSchema)>,
    o1: Seq<int>,
    m2: Seq<(String, FieldSchema)>,
    o2: Seq<int>,
    i: int,
)
    requires
        sorted_order(m1, o1),
        sorted_order(m2, o2),
        0 <= i < o1.len(),
        holds_field(m2, m1[o1[i]]),
    ensures
        ordered_names(m2, o2).contains(ordered_names(m1, o1)[i]),
{
    let e = choose|j: int| 0 <= j < m2.len() && same_field(m1[o1[i]], #[trigger] m2[j]);
    lemma_order_covers(m2, o2, e);
    let k = choose|k: int| 0 <= k < o2.len() && o2[k] == e;
    assert(ordered_names(m2, o2)[k] == ordered_names(m1, o1)[i]);
}

proof fn lemma_entry_matches(
    m1: Seq<(String, FieldSchema)>,
    o1: Seq<int>,
    m2: Seq<(String, FieldSchema)>,
    o2: Seq<int>,
    k: int,
)
    requires
        sorted_order(m1, o1),
        sorted_order(m2, o2),
        names_unique(m2),
        0 <= k < o1.len(),
        o1.len() == o2.len(),
        ordered_names(m1, o1)[k] == ordered_names(m2, o2)[k],
        holds_field(m2, m1[o1[k]]),
    ensures
        hashed_entries(m1, o1)[k] == hashed_entries(m2, o2)[k],
{
    lemma_utf8_injective(m1[o1[k]].0@, m2[o2[k]].0@);
    let e = choose|j: int| 0 <= j < m2.len() && same_field(m1[o1[k]], #[trigger] m2[j]);
    if e != o2[k] {
        if e < o2[k] {
            assert(m2[e].0@ != m2[o2[k]].0@);
        } else {
            assert(m2[o2[k]].0@ != m2[e].0@);
        }
    }
    assert(utf8_bytes(m1[o1[k]].1.typ) == utf8_bytes(m2[o2[k]].1.typ));
}

/// The content hash does not depend on the order of the fields: two lists
/// holding the same fields (same names, types and requiredness), each name
/// once, hash alike.
pub proof fn law_hash_ignores_field_order(
    name: Seq<u8>,
    m1: Seq<(String, FieldSchema)>,
    m2: Seq<(String, FieldSchema)>,
    h1: Seq<char>,
    h2: Seq<char>,
)
    requires
        m1.len() == m2.len(),
        names_unique(m1),
        names_unique(m2),
        forall|i: int| 0 <= i < m1.len() ==> #[trigger] holds_field(m2, m1[i]),
        forall|j: int| 0 <= j < m2.len() ==> #[trigger] holds_field(m1, m2[j]),
        is_schema_hash(name, m1, h1),
        is_schema_hash(name, m2, h2),
    ensures
        h1 == h2,
{
    let o1 = choose|o: Seq<int>|
        sorted_order(m1, o) && h1 == spec_hash_text(DefaultHasher::spec_finish(#[trigger] hash_writes(name, m1, o)));
    let o2 = choose|o: Seq<int>|
        sorted_order(m2, o) && h2 == spec_hash_text(DefaultHasher::spec_finish(#[trigger] hash_writes(name, m2, o)));
    let n1 = ordered_names(m1, o1);
    let n2 = ordered_names(m2, o2);
    lemma_ordered_names_increase(m1, o1);
    lemma_ordered_names_increase(m2, o2);
    assert forall|i: int| 0 <= i < n1.len() implies #[trigger] n2.contains(n1[i]) by {
        assert(holds_field(m2, m1[o1[i]]));
        lemma_names_match(m1, o1, m2, o2, i);
    }
    assert forall|j: int| 0 <= j < n2.len() implies #[trigger] n1.contains(n2[j]) by {
        assert(holds_field(m1, m2[o2[j]]));
        lemma_names_match(m2, o2, m1, o1, j);
    }
    lemma_increasing_same_elements(n1, n2);
    assert forall|k: int| 0 <= k < o1.len() implies hashed_entries(m1, o1)[k] == hashed_entries(m2, o2)[k] by {
        assert(n1[k] == n2[k]);
        assert(holds_field(m2, m1[o1[k]]));
        lemma_entry_matches(m1, o1, m2, o2, k);
    }
    assert(hashed_entries(m1, o1) =~= hashed_entries(m2, o2));
    lemma_hash_writes_entries(name, m1, o1, m2, o2);
}

impl EventSchema {
    /// The first version of the schema of an event with the given fields.
    pub fn from_variant(name: &str, fields: &Vec<EventField>) -> (r: Self)
        ensures
            r.version == 1,
            r.previous_version is None,
            fields_view(r.fields@) == spec_fields_schema(fields@, fields@.len() as int),
            keys_unique(r.fields@),
            r.upcast_from@.len() == 0,
            is_schema_hash(vstd::utf8::encode_utf8(name@), r.fields@, r.hash@),
    {
        let field_schemas = fields_schema(fields);
        let hash = compute_hash(name, &field_schemas);
        EventSchema { version: 1, previous_version: None, fields: field_schemas, upcast_from: Vec::new(), hash }
    }

    /// A new version of this schema with `added_fields` bound in: the version
    /// increments, the old version is recorded as upcast automatically, and the
    /// hash covers the new fields (with an empty event name).
    pub fn new_version(&self, added_fields: Vec<(String, FieldSchema)>) -> (r: Self)
        requires
            self.version < u32::MAX,
        ensures
            r.version == self.version + 1,
            r.previous_version == Some(self.version),
            fields_view(r.fields@) == spec_extend(fields_view(self.fields@), fields_view(added_fields@), added_fields@.len() as int),
            keys_unique(self.fields@) ==> keys_unique(r.fields@),
            upcast_view(r.upcast_from@) == spec_upcast_insert(upcast_view(self.upcast_from@), self.version, "auto"@),
            is_schema_hash(Seq::empty(), r.fields@, r.hash@),
    {
        let mut fields: Vec<(String, FieldSchema)> = Vec::new();
        let mut i: usize = 0;
        while i < self.fields.len()
            invariant
                i <= self.fields@.len(),
                fields@ == self.fields@.subrange(0, i as int),
            decreases self.fields.len() - i,
        {
            let e = &self.fields[i];
            fields.push((e.0.clone(), clone_field_schema(&e.1)));
            proof {
                assert(fields@ =~= self.fields@.subrange(0, i + 1));
            }
            i = i + 1;
        }
        proof {
            assert(fields@ =~= self.fields@);
        }
        let mut j: usize = 0;
        while j < added_fields.len()
            invariant
                j <= added_fields@.len(),
                fields_view(fields@) == spec_extend(fields_view(self.fields@), fields_view(added_fields@), j as int),
                keys_unique(self.fields@) ==> keys_unique(fields@),
            decreases added_fields.len() - j,
        {
            let e = &added_fields[j];
            insert_field(&mut fields, e.0.clone(), clone_field_schema(&e.1));
            proof {
                assert(fields_view(added_fields@)[j as int] == (added_fields@[j as int].0@, added_fields@[j as int].1@));
            }
            j = j + 1;
        }
        let hash = compute_hash("", &fields);
        proof {
            reveal_strlit("");
            assert(vstd::utf8::encode_utf8(""@) =~= Seq::<u8>::empty()) by {
                assert(""@ =~= Seq::<char>::empty());
            }
        }
        let mut upcast_from: Vec<(u32, String)> = Vec::new();
        let mut k: usize = 0;
        while k < self.upcast_from.len()
            invariant
                k <= self.upcast_from@.len(),
                upcast_view(upcast_from@) == upcast_view(self.upcast_from@).subrange(0, k as int),
            decreases self.upcast_from.len() - k,
        {
            let e = &self.upcast_from[k];
            let ghost before = upcast_from@;
            let text = e.1.clone();
            upcast_from.push((e.0, text));
            proof {
                assert(upcast_view(upcast_from@) =~= upcast_view(before).push((e.0, e.1@)));
                assert(upcast_view(upcast_from@) =~= upcast_view(self.upcast_from@).subrange(0, k + 1));
            }
            k = k + 1;
        }
        proof {
            assert(upcast_view(upcast_from@) =~= upcast_view(self.upcast_from@));
        }
        let ghost uv = upcast_view(upcast_from@);
        let mut m: usize = 0;
        while m < upcast_from.len() && upcast_from[m].0 != self.version
            invariant
                m <= upcast_from@.len(),
                uv == upcast_view(upcast_from@),
                forall|q: int| 0 <= q < m ==> upcast_from@[q].0 != self.version,
            decreases upcast_from.len() - m,
        {
            m = m + 1;
        }
        proof {
            lemma_first_version_index(uv, self.version, 0, m as int);
        }
        if m < upcast_from.len() {
            upcast_from.set(m, (self.version, crate::text::to_owned_string("auto")));
            proof {
                assert(upcast_view(upcast_from@) =~= uv.update(m as int, (self.version, "auto"@)));
            }
        } else {
            upcast_from.push((self.version, crate::text::to_owned_string("auto")));
            proof {
                assert(upcast_view(upcast_from@) =~= uv.push((self.version, "auto"@)));
            }
        }
        EventSchema {
            version: self.version + 1,
            previous_version: Some(self.version),
            fields,
            upcast_from,
            hash,
        }
    }
}

/// `base` with the first `n` entries of `added` bound in, in order.
pub open spec fn spec_extend(
    base: Seq<(Seq<char>, FieldSchemaView)>,
    added: Seq<(Seq<char>, FieldSchemaView)>,
    n: int,
) -> Seq<(Seq<char>, FieldSchemaView)>
    decreases n,
{
    if n <= 0 || n > added.len() {
        base
    } else {
        view_insert(spec_extend(base, added, n - 1), added[n - 1].0, added[n - 1].1)
    }
}

/// The views of the upcast strategies.
pub open spec fn upcast_view(u: Seq<(u32, String)>) -> Seq<(u32, Seq<char>)> {
    u.map_values(|e: (u32, String)| (e.0, e.1@))
}

/// The index of the first entry at or after `i` keyed `k`, or -1.
pub open spec fn first_version_index(u: Seq<(u32, Seq<char>)>, k: u32, i: int) -> int
    decreases u.len() - i,
{
    if i < 0 || i >= u.len() {
        -1
    } else if u[i].0 == k {
        i
    } else {
        first_version_index(u, k, i + 1)
    }
}

proof fn lemma_first_version_index(u: Seq<(u32, Seq<char>)>, k: u32, i: int, j: int)
    requires
        0 <= i <= j <= u.len(),
        forall|m: int| i <= m < j ==> u[m].0 != k,
        j == u.len() || u[j].0 == k,
    ensures
        first_version_index(u, k, i) == if j == u.len() { -1 } else { j },
    decreases j - i,
{
    if i < j {
        lemma_first_version_index(u, k, i + 1, j);
    }
}

/// `u` with `k` bound to `v`: the first entry keyed `k` is replaced, or the
/// entry is appended.
pub open spec fn spec_upcast_insert(u: Seq<(u32, Seq<char>)>, k: u32, v: Seq<char>) -> Seq<(u32, Seq<char>)> {
    let i = first_version_index(u, k, 0);
    if i >= 0 {
        u.update(i, (k, v))
    } else {
        u.push((k, v))
    }
}

/// `s` is the first version of the schema of `v`.
pub open spec fn is_variant_schema(s: EventSchema, v: EventVariant) -> bool {
    &&& s.version == 1
    &&& s.previous_version is None
    &&& fields_view(s.fields@) == spec_fields_schema(v.fields@, v.fields@.len() as int)
    &&& keys_unique(s.fields@)
    &&& s.upcast_from@.len() == 0
    &&& is_schema_hash(vstd::utf8::encode_utf8(v.name@), s.fields@, s.hash@)
}

/// Event names bound to the index of the variant whose schema they hold: the
/// first `n` variants inserted in order, so a repeated name holds its last
/// variant.
pub open spec fn spec_event_slots(vs: Seq<EventVariant>, n: int) -> Seq<(Seq<char>, int)>
    decreases n,
{
    if n <= 0 || n > vs.len() {
        Seq::empty()
    } else {
        view_insert(spec_event_slots(vs, n - 1), vs[n - 1].name@, n - 1)
    }
}

/// The lock entry of an aggregate holds, per event name, the schema of the
/// last variant with that name.
pub open spec fn is_aggregate_lock(l: AggregateLock, a: AggregateIR) -> bool {
    let vs = a.events.variants@;
    let slots = spec_event_slots(vs, vs.len() as int);
    &&& l.events@.len() == slots.len()
    &&& keys_unique(l.events@)
    &&& forall|j: int|
        0 <= j < slots.len() ==> {
            &&& #[trigger] l.events@[j].0@ == slots[j].0
            &&& 0 <= slots[j].1 < vs.len()
            &&& is_variant_schema(l.events@[j].1, vs[slots[j].1])
        }
}

proof fn lemma_slots_in_range(vs: Seq<EventVariant>, n: int)
    requires
        0 <= n <= vs.len(),
    ensures
        forall|j: int| 0 <= j < spec_event_slots(vs, n).len() ==> 0 <= #[trigger] spec_event_slots(vs, n)[j].1 < n,
    decreases n,
{
    if n > 0 {
        lemma_slots_in_range(vs, n - 1);
        let prev = spec_event_slots(vs, n - 1);
        lemma_first_key_index_range(prev, vs[n - 1].name@, 0);
        assert forall|j: int| 0 <= j < spec_event_slots(vs, n).len() implies 0 <= #[trigger] spec_event_slots(vs, n)[j].1 < n by {
            if j < prev.len() {
                assert(0 <= prev[j].1 < n - 1);
            }
        }
    }
}

impl AggregateLock {
    /// The lock entry of an aggregate: the schema of each of its events.
    pub fn from_aggregate(aggregate: &AggregateIR) -> (r: Self)
        ensures
            is_aggregate_lock(r, *aggregate),
    {
        let ghost vs = aggregate.events.variants@;
        let mut events: Vec<(String, EventSchema)> = Vec::new();
        let mut i: usize = 0;
        while i < aggregate.events.variants.len()
            invariant
                vs == aggregate.events.variants@,
                i <= vs.len(),
                events@.len() == spec_event_slots(vs, i as int).len(),
                keys_unique(events@),
                forall|j: int|
                    0 <= j < events@.len() ==> {
                        &&& #[trigger] events@[j].0@ == spec_event_slots(vs, i as int)[j].0
                        &&& 0 <= spec_event_slots(vs, i as int)[j].1 < vs.len()
                        &&& is_variant_schema(events@[j].1, vs[spec_event_slots(vs, i as int)[j].1])
                    },
            decreases aggregate.events.variants.len() - i,
        {
            let v = &aggregate.events.variants[i];
            let schema = EventSchema::from_variant(v.name.as_str(), &v.fields);
            let ghost prev_slots = spec_event_slots(vs, i as int);
            let ghost old_events = events@;
            proof {
                lemma_slots_in_range(vs, i as int);
                assert forall|j: int| 0 <= j < old_events.len() implies (#[trigger] old_events[j].0@ == prev_slots[j].0) by {}
            }
            match find_key(&events, v.name.as_str()) {
                Some(k) => {
                    events.set(k, (v.name.clone(), schema));
                    proof {
                        let slots_seq = prev_slots;
                        assert forall|m: int| 0 <= m < k implies slots_seq[m].0 != v.name@ by {
                            assert(old_events[m].0@ == slots_seq[m].0);
                        }
                        lemma_first_key_index(slots_seq, v.name@, 0, k as int);
                        assert(spec_event_slots(vs, i + 1) == slots_seq.update(k as int, (v.name@, i as int)));
                        assert forall|a: int, b: int| 0 <= a < b < events@.len() implies events@[a].0@ != events@[b].0@ by {
                            assert(old_events[k as int].0@ == v.name@);
                        }
                    }
                },
                None => {
                    events.push((v.name.clone(), schema));
                    proof {
                        let slots_seq = prev_slots;
                        assert forall|m: int| 0 <= m < slots_seq.len() implies slots_seq[m].0 != v.name@ by {
                            assert(old_events[m].0@ == slots_seq[m].0);
                            assert(!has_key(old_events, v.name@));
                        }
                        lemma_first_key_index(slots_seq, v.name@, 0, slots_seq.len() as int);
                        assert(spec_event_slots(vs, i + 1) == slots_seq.push((v.name@, i as int)));
                        assert forall|a: int, b: int| 0 <= a < b < events@.len() implies events@[a].0@ != events@[b].0@ by {
                            if b == old_events.len() {
                                assert(old_events[a].0@ != v.name@) by {
                                    assert(!has_key(old_events, v.name@));
                                }
                            }
                        }
                    }
                },
            }
            i = i + 1;
        }
        AggregateLock { events }
    }
}

/// Whether `y` is a leap year of the Gregorian calendar.
pub open spec fn is_leap_year(y: int) -> bool {
    (y % 4 == 0 && y % 100 != 0) || y % 400 == 0
}

/// The number of days of year `y`.
pub open spec fn year_length(y: int) -> nat {
    if is_leap_year(y) {
        366
    } else {
        365
    }
}

/// The number of days of month `m` (1 to 12) of year `y`.
pub open spec fn month_length(y: int, m: int) -> nat {
    if m == 2 {
        if is_leap_year(y) {
            29
        } else {
            28
        }
    } else if m == 4 || m == 6 || m == 9 || m == 11 {
        30
    } else {
        31
    }
}

/// The year and the zero-based day within it of the day `days` days after
/// January 1 of year `y`.
pub open spec fn civil_year(y: int, days: nat) -> (int, nat)
    decreases days,
{
    if days < year_length(y) {
        (y, days)
    } else {
        civil_year(y + 1, (days - year_length(y)) as nat)
    }
}

/// The month and the zero-based day within it of the zero-based day `doy`
/// of year `y`, counting from month `m`.
pub open spec fn civil_month(y: int, m: int, doy: nat) -> (int, nat)
    decreases doy,
{
    if m >= 12 || doy < month_length(y, m) {
        (m, doy)
    } else {
        civil_month(y, m + 1, (doy - month_length(y, m)) as nat)
    }
}

/// The ISO 8601 UTC date-time (`YYYY-MM-DDTHH:MM:SSZ`) of `secs` seconds
/// after the Unix epoch.
pub open spec fn spec_iso_timestamp(secs: u64) -> Seq<char> {
    let (y, doy) = civil_year(1970, (secs / 86400) as nat);
    let (m, dom) = civil_month(y, 1, doy);
    let tod = (secs % 86400) as int;
    spec_padded_decimal(y, 4) + "-"@ + spec_padded_decimal(m, 2) + "-"@ + spec_padded_decimal(dom as int + 1, 2)
        + "T"@ + spec_padded_decimal(tod / 3600, 2) + ":"@ + spec_padded_decimal((tod % 3600) / 60, 2) + ":"@
        + spec_padded_decimal(tod % 60, 2) + "Z"@
}

/// Whether `t` is a timestamp as the lock file records it: the ISO date-time
/// of some number of seconds since the Unix epoch.
pub open spec fn is_lock_timestamp(t: Seq<char>) -> bool {
    exists|secs: u64| t == #[trigger] spec_iso_timestamp(secs)
}

/// Seconds since the Unix epoch by the system clock, 0 when the clock is
/// before the epoch (`SystemTime::now().duration_since(UNIX_EPOCH)`). What
/// the clock reads is not stated.
#[verifier::external_body]
fn unix_now_secs() -> (r: u64) {
    std::time::SystemTime::now().duration_since(std::time::UNIX_EPOCH).unwrap_or_default().as_secs()
}

fn year_len(y: u64) -> (r: u64)
    ensures
        r == year_length(y as int),
{
    if (y % 4 == 0 && y % 100 != 0) || y % 400 == 0 {
        366
    } else {
        365
    }
}

fn month_len(y: u64, m: u64) -> (r: u64)
    ensures
        r == month_length(y as int, m as int),
{
    if m == 2 {
        if (y % 4 == 0 && y % 100 != 0) || y % 400 == 0 {
            29
        } else {
            28
        }
    } else if m == 4 || m == 6 || m == 9 || m == 11 {
        30
    } else {
        31
    }
}

/// The ISO 8601 UTC date-time of `secs` seconds after the Unix epoch, as
/// `YYYY-MM-DDTHH:MM:SSZ`.
pub fn timestamp_text(secs: u64) -> (r: String)
    ensures
        r@ == spec_iso_timestamp(secs),
{
    let total: u64 = secs / 86400;
    let mut days: u64 = total;
    let mut y: u64 = 1970;
    while days >= year_len(y)
        invariant
            civil_year(1970, total as nat) == civil_year(y as int, days as nat),
            y + days <= 1970 + total,
            total == secs / 86400,
        decreases days,
    {
        let len = year_len(y);
        days = days - len;
        y = y + 1;
    }
    let mut m: u64 = 1;
    let mut doy: u64 = days;
    while m < 12 && doy >= month_len(y, m)
        invariant
            1 <= m <= 12,
            doy <= days,
            days < 366,
            civil_month(y as int, 1, days as nat) == civil_month(y as int, m as int, doy as nat),
        decreases doy,
    {
        let len = month_len(y, m);
        doy = doy - len;
        m = m + 1;
    }
    let tod: u64 = secs % 86400;
    let mut out = String::new();
    crate::store::telemetry::push_padded(&mut out, y as i64, 4);
    crate::text::push_char(&mut out, '-');
    crate::store::telemetry::push_padded(&mut out, m as i64, 2);
    crate::text::push_char(&mut out, '-');
    crate::store::telemetry::push_padded(&mut out, (doy + 1) as i64, 2);
    crate::text::push_char(&mut out, 'T');
    crate::store::telemetry::push_padded(&mut out, (tod / 3600) as i64, 2);
    crate::text::push_char(&mut out, ':');
    crate::store::telemetry::push_padded(&mut out, ((tod % 3600) / 60) as i64, 2);
    crate::text::push_char(&mut out, ':');
    crate::store::telemetry::push_padded(&mut out, (tod % 60) as i64, 2);
    crate::text::push_char(&mut out, 'Z');
    proof {
        reveal_strlit("-");
        reveal_strlit("T");
        reveal_strlit(":");
        reveal_strlit("Z");
        assert(civil_year(1970, total as nat) == (y as int, days as nat));
        assert(civil_month(y as int, 1, days as nat) == (m as int, doy as nat));
        assert(out@ =~= spec_iso_timestamp(secs));
    }
    out
}

/// The current time as the lock file records it: the ISO date-time of the
/// system clock's seconds.
pub fn chrono_lite_now() -> (r: String)
    ensures
        is_lock_timestamp(r@),
{
    let secs = unix_now_secs();
    let t = timestamp_text(secs);
    assert(t@ == spec_iso_timestamp(secs));
    t
}

/// The aggregate names bound to the index of the aggregate whose lock they
/// hold (the last one of each name).
pub open spec fn spec_aggregate_slots(aggs: Seq<AggregateIR>, n: int) -> Seq<(Seq<char>, int)>
    decreases n,
{
    if n <= 0 || n > aggs.len() {
        Seq::empty()
    } else {
        view_insert(spec_aggregate_slots(aggs, n - 1), aggs[n - 1].name@, n - 1)
    }
}

/// `f` is the lock file of `d` made by `compiler_version` at `generated_at`.
pub open spec fn is_lock_file_of(f: SchemaLockFile, d: DomainIR, compiler_version: Seq<char>) -> bool {
    let aggs = d.aggregates@;
    let slots = spec_aggregate_slots(aggs, aggs.len() as int);
    &&& f.version@ == LOCK_FILE_VERSION@
    &&& f.compiler_version@ == compiler_version
    &&& f.aggregates@.len() == slots.len()
    &&& keys_unique(f.aggregates@)
    &&& forall|j: int|
        0 <= j < slots.len() ==> {
            &&& #[trigger] f.aggregates@[j].0@ == slots[j].0
            &&& 0 <= slots[j].1 < aggs.len()
            &&& is_aggregate_lock(f.aggregates@[j].1, aggs[slots[j].1])
        }
}

proof fn lemma_aggregate_slots_in_range(aggs: Seq<AggregateIR>, n: int)
    requires
        0 <= n <= aggs.len(),
    ensures
        forall|j: int|
            0 <= j < spec_aggregate_slots(aggs, n).len() ==> 0 <= #[trigger] spec_aggregate_slots(aggs, n)[j].1 < n,
    decreases n,
{
    if n > 0 {
        lemma_aggregate_slots_in_range(aggs, n - 1);
        let prev = spec_aggregate_slots(aggs, n - 1);
        lemma_first_key_index_range(prev, aggs[n - 1].name@, 0);
        assert forall|j: int| 0 <= j < spec_aggregate_slots(aggs, n).len() implies 0 <= #[trigger] spec_aggregate_slots(aggs, n)[j].1 < n by {
            if j < prev.len() {
                assert(0 <= prev[j].1 < n - 1);
            }
        }
    }
}

impl SchemaLockFile {
    /// The lock file of a domain at the given time: per aggregate the schema of
    /// each of its events.
    pub fn from_domain_ir_at(domain: &DomainIR, compiler_version: &str, generated_at: String) -> (r: Self)
        ensures
            is_lock_file_of(r, *domain, compiler_version@),
            r.generated_at == generated_at,
    {
        let ghost aggs = domain.aggregates@;
        let mut aggregates: Vec<(String, AggregateLock)> = Vec::new();
        let mut i: usize = 0;
        while i < domain.aggregates.len()
            invariant
                aggs == domain.aggregates@,
                i <= aggs.len(),
                aggregates@.len() == spec_aggregate_slots(aggs, i as int).len(),
                keys_unique(aggregates@),
                forall|j: int|
                    0 <= j < aggregates@.len() ==> {
                        &&& #[trigger] aggregates@[j].0@ == spec_aggregate_slots(aggs, i as int)[j].0
                        &&& 0 <= spec_aggregate_slots(aggs, i as int)[j].1 < aggs.len()
                        &&& is_aggregate_lock(aggregates@[j].1, aggs[spec_aggregate_slots(aggs, i as int)[j].1])
                    },
            decreases domain.aggregates.len() - i,
        {
            let a = &domain.aggregates[i];
            let lock = AggregateLock::from_aggregate(a);
            let ghost prev_slots = spec_aggregate_slots(aggs, i as int);
            let ghost old_aggs = aggregates@;
            proof {
                lemma_aggregate_slots_in_range(aggs, i as int);
            }
            match find_key(&aggregates, a.name.as_str()) {
                Some(k) => {
                    aggregates.set(k, (a.name.clone(), lock));
                    proof {
                        assert forall|m: int| 0 <= m < k implies prev_slots[m].0 != a.name@ by {
                            assert(old_aggs[m].0@ == prev_slots[m].0);
                        }
                        lemma_first_key_index(prev_slots, a.name@, 0, k as int);
                        assert(spec_aggregate_slots(aggs, i + 1) == prev_slots.update(k as int, (a.name@, i as int)));
                        assert forall|x: int, y: int| 0 <= x < y < aggregates@.len() implies aggregates@[x].0@ != aggregates@[y].0@ by {
                            assert(old_aggs[k as int].0@ == a.name@);
                        }
                    }
                },
                None => {
                    aggregates.push((a.name.clone(), lock));
                    proof {
                        assert forall|m: int| 0 <= m < prev_slots.len() implies prev_slots[m].0 != a.name@ by {
                            assert(old_aggs[m].0@ == prev_slots[m].0);
                            assert(!has_key(old_aggs, a.name@));
                        }
                        lemma_first_key_index(prev_slots, a.name@, 0, prev_slots.len() as int);
                        assert(spec_aggregate_slots(aggs, i + 1) == prev_slots.push((a.name@, i as int)));
                        assert forall|x: int, y: int| 0 <= x < y < aggregates@.len() implies aggregates@[x].0@ != aggregates@[y].0@ by {
                            if y == old_aggs.len() {
                                assert(old_aggs[x].0@ != a.name@) by {
                                    assert(!has_key(old_aggs, a.name@));
                                }
                            }
                        }
                    }
                },
            }
            i = i + 1;
        }
        SchemaLockFile {
            version: crate::text::to_owned_string(LOCK_FILE_VERSION),
            generated_at,
            compiler_version: crate::text::to_owned_string(compiler_version),
            aggregates,
        }
    }

    /// The lock file of a domain, stamped with the current time.
    pub fn from_domain_ir(domain: &DomainIR, compiler_version: &str) -> (r: Self)
        ensures
            is_lock_file_of(r, *domain, compiler_version@),
            is_lock_timestamp(r.generated_at@),
    {
        let now = chrono_lite_now();
        Self::from_domain_ir_at(domain, compiler_version, now)
    }
}

} // verus!
