//! Projection analysis: which classes are projections, the shape of their
//! state, the signals that make them time series, the events they subscribe
//! to, their SQL schema and their query methods.

use vstd::prelude::*;

use crate::codegen::ts_types::{spec_snake_case, to_snake_case};
use crate::diagnostic::CompilerError;
use crate::frontend::ast::{ClassDecl, Expression, MethodDecl, ObjectProperty, Statement, TypeNode, Visibility};
use crate::frontend::to_ir::{
    convert_parameters, convert_type_node, converted_param, converted_type, first_prop_named, lemma_first_prop_named,
    method_ok, props_ok, type_ok,
};
use crate::ir::projection::{
    contains_any, is_range_param, is_time_related_name, spec_range_params, spec_sql_type_of, spec_time_keywords,
    spec_time_string_methods, spec_timestamp_fields, time_string_methods, timestamp_fields, ColumnDef, IndexDef,
    ProjectionKind, ProjectionSchema, QueryMethodIR, SqlType, StateShape, SubscribedEvent, TimeSeriesSignals,
};
use crate::ir::access::AccessLevel;
use crate::ir::projection::ProjectionIR;
use crate::ir::DomainType;
use crate::text::{contains, seq_contains, spec_str_lowercase, spec_trim_char, str_eq, str_to_lowercase, trim_char, views};

verus! {

// ---------------------------------------------------------------------------
// Projections
// ---------------------------------------------------------------------------

/// The index of the first method at or after `i` named `name`, or -1.
pub open spec fn first_method_named(ms: Seq<MethodDecl>, name: Seq<char>, i: int) -> int
    decreases ms.len() - i,
{
    if i < 0 || i >= ms.len() {
        -1
    } else if ms[i].name@ == name {
        i
    } else {
        first_method_named(ms, name, i + 1)
    }
}

proof fn lemma_first_method_named(ms: Seq<MethodDecl>, name: Seq<char>, i: int, j: int)
    requires
        0 <= i <= j <= ms.len(),
        forall|m: int| i <= m < j ==> ms[m].name@ != name,
        j == ms.len() || ms[j].name@ == name,
    ensures
        first_method_named(ms, name, i) == if j == ms.len() { -1 } else { j },
    decreases j - i,
{
    if i < j {
        lemma_first_method_named(ms, name, i + 1, j);
    }
}

/// The index of the first method named `name`.
pub fn find_method(methods: &Vec<MethodDecl>, name: &str) -> (r: Option<usize>)
    ensures
        match r {
            Some(i) => i < methods@.len() && first_method_named(methods@, name@, 0) == i,
            None => first_method_named(methods@, name@, 0) == -1,
        },
{
    let mut i: usize = 0;
    while i < methods.len()
        invariant
            i <= methods@.len(),
            forall|m: int| 0 <= m < i ==> methods@[m].name@ != name@,
        decreases methods.len() - i,
    {
        if str_eq(methods[i].name.as_str(), name) {
            proof {
                lemma_first_method_named(methods@, name@, 0, i as int);
            }
            return Some(i);
        }
        i = i + 1;
    }
    proof {
        lemma_first_method_named(methods@, name@, 0, methods@.len() as int);
    }
    None
}

/// Whether a state type has the shape of a projection's state.
pub open spec fn is_state_shape(t: Option<TypeNode>) -> bool {
    match t {
        Some(TypeNode::IndexSignature { .. }) => true,
        Some(TypeNode::ObjectLiteral(_)) => true,
        _ => false,
    }
}

/// Whether a class is a projection: it has a `build` method and a property
/// whose type is an index signature or an object type.
pub open spec fn spec_is_projection(c: ClassDecl) -> bool {
    &&& exists|k: int| 0 <= k < c.methods@.len() && #[trigger] c.methods@[k].name@ == "build"@
    &&& exists|k: int| 0 <= k < c.properties@.len() && is_state_shape(#[trigger] c.properties@[k].type_node)
}

fn state_shaped(t: &Option<TypeNode>) -> (r: bool)
    ensures
        r == is_state_shape(*t),
{
    match t {
        Some(TypeNode::IndexSignature { .. }) => true,
        Some(TypeNode::ObjectLiteral(_)) => true,
        _ => false,
    }
}

/// The index of the first property at or after `i` with a state-shaped type, or -1.
pub open spec fn first_state_prop(ps: Seq<crate::frontend::ast::PropertyDecl>, i: int) -> int
    decreases ps.len() - i,
{
    if i < 0 || i >= ps.len() {
        -1
    } else if is_state_shape(ps[i].type_node) {
        i
    } else {
        first_state_prop(ps, i + 1)
    }
}

fn find_state_prop(c: &ClassDecl) -> (r: Option<usize>)
    ensures
        match r {
            Some(i) => i < c.properties@.len() && first_state_prop(c.properties@, 0) == i && is_state_shape(
                c.properties@[i as int].type_node,
            ),
            None => first_state_prop(c.properties@, 0) == -1 && forall|k: int|
                0 <= k < c.properties@.len() ==> !is_state_shape(#[trigger] c.properties@[k].type_node),
        },
{
    let mut i: usize = 0;
    while i < c.properties.len()
        invariant
            i <= c.properties@.len(),
            forall|m: int| 0 <= m < i ==> !is_state_shape(#[trigger] c.properties@[m].type_node),
            first_state_prop(c.properties@, 0) == first_state_prop(c.properties@, i as int),
        decreases c.properties.len() - i,
    {
        if state_shaped(&c.properties[i].type_node) {
            return Some(i);
        }
        i = i + 1;
    }
    None
}

/// Decides whether a class is a projection.
pub fn is_projection(class: &ClassDecl) -> (r: bool)
    ensures
        r == spec_is_projection(*class),
{
    let has_build = match find_method(&class.methods, "build") {
        Some(i) => {
            proof {
                lemma_first_method_named_is(class.methods@, "build"@, 0);
                assert(class.methods@[i as int].name@ == "build"@);
            }
            true
        },
        None => {
            proof {
                assert forall|k: int| 0 <= k < class.methods@.len() implies #[trigger] class.methods@[k].name@
                    != "build"@ by {
                    if class.methods@[k].name@ == "build"@ {
                        lemma_first_method_named_found(class.methods@, "build"@, 0, k);
                    }
                }
            }
            false
        },
    };
    let found = find_state_prop(class);
    let has_state = match found {
        Some(i) => {
            proof {
                assert(is_state_shape(class.properties@[i as int].type_node));
            }
            true
        },
        None => false,
    };
    has_build && has_state
}

proof fn lemma_first_method_named_is(ms: Seq<MethodDecl>, name: Seq<char>, i: int)
    requires
        0 <= i,
    ensures
        first_method_named(ms, name, i) >= 0 ==> (i <= first_method_named(ms, name, i) < ms.len() && ms[first_method_named(
            ms,
            name,
            i,
        )].name@ == name),
    decreases ms.len() - i,
{
    if i < ms.len() && ms[i].name@ != name {
        lemma_first_method_named_is(ms, name, i + 1);
    }
}

proof fn lemma_first_method_named_found(ms: Seq<MethodDecl>, name: Seq<char>, i: int, k: int)
    requires
        0 <= i <= k < ms.len(),
        ms[k].name@ == name,
    ensures
        first_method_named(ms, name, i) >= 0,
    decreases k - i,
{
    if i < k && ms[i].name@ != name {
        lemma_first_method_named_found(ms, name, i + 1, k);
    }
}

/// The shape of a projection's state type.
pub open spec fn shape_of(t: TypeNode, shape: StateShape) -> bool {
    match t {
        TypeNode::IndexSignature { key_name, value_type, .. } => match *value_type {
            TypeNode::Primitive(p) => if p@ == "number"@ {
                shape matches StateShape::IndexedNumber { key_name: k } && k@ == key_name@
            } else {
                shape matches StateShape::IndexedObject { key_name: k, value_type: v } && k@ == key_name@
                    && converted_type(*value_type, v)
            },
            _ => shape matches StateShape::IndexedObject { key_name: k, value_type: v } && k@ == key_name@
                && converted_type(*value_type, v),
        },
        TypeNode::ObjectLiteral(ps) => {
            &&& shape matches StateShape::NamedFields { fields }
            &&& fields@.len() == ps@.len()
            &&& forall|k: int|
                0 <= k < ps@.len() ==> #[trigger] fields@[k].0@ == ps@[k].name@ && converted_type(
                    ps@[k].type_node,
                    fields@[k].1,
                )
        },
        _ => shape matches StateShape::NamedFields { fields } && fields@.len() == 0,
    }
}

/// Analyzes the shape of a projection's state type.
pub fn analyze_state_shape(t: &TypeNode) -> (r: StateShape)
    requires
        type_ok(*t),
    ensures
        shape_of(*t, r),
{
    match t {
        TypeNode::IndexSignature { key_name, value_type, .. } => {
            let is_number = match &**value_type {
                TypeNode::Primitive(p) => str_eq(p.as_str(), "number"),
                _ => false,
            };
            if is_number {
                StateShape::IndexedNumber { key_name: key_name.clone() }
            } else {
                StateShape::IndexedObject { key_name: key_name.clone(), value_type: convert_type_node(value_type) }
            }
        },
        TypeNode::ObjectLiteral(props) => {
            let mut fields: Vec<(String, DomainType)> = Vec::new();
            let mut i: usize = 0;
            while i < props.len()
                invariant
                    i <= props@.len(),
                    *t == TypeNode::ObjectLiteral(*props),
                    type_ok(*t),
                    fields@.len() == i,
                    forall|k: int|
                        0 <= k < i ==> #[trigger] fields@[k].0@ == props@[k].name@ && converted_type(
                            props@[k].type_node,
                            fields@[k].1,
                        ),
                decreases props.len() - i,
            {
                proof {
                    assert(type_ok(props@[i as int].type_node));
                }
                let typ = convert_type_node(&props[i].type_node);
                fields.push((props[i].name.clone(), typ));
                i = i + 1;
            }
            StateShape::NamedFields { fields }
        },
        _ => StateShape::NamedFields { fields: Vec::new() },
    }
}

/// The projection kind of a state shape: indexed objects are denormalized
/// views, indexed numbers time series when any time signal is present (else
/// aggregators), named fields aggregators.
pub open spec fn spec_projection_kind(shape: StateShape, signals: TimeSeriesSignals) -> ProjectionKind {
    match shape {
        StateShape::IndexedObject { .. } => ProjectionKind::DenormalizedView,
        StateShape::IndexedNumber { .. } => if signals.has_timestamp_derivation || signals.has_time_related_key_name
            || signals.has_range_query_methods {
            ProjectionKind::TimeSeries
        } else {
            ProjectionKind::Aggregator
        },
        StateShape::NamedFields { .. } => ProjectionKind::Aggregator,
    }
}

/// Determines the projection kind.
pub fn determine_projection_kind(shape: &StateShape, signals: &TimeSeriesSignals) -> (r: ProjectionKind)
    ensures
        r == spec_projection_kind(*shape, *signals),
{
    match shape {
        StateShape::IndexedObject { .. } => ProjectionKind::DenormalizedView,
        StateShape::IndexedNumber { .. } => if signals.any() {
            ProjectionKind::TimeSeries
        } else {
            ProjectionKind::Aggregator
        },
        StateShape::NamedFields { .. } => ProjectionKind::Aggregator,
    }
}

/// Some word of `words`, lower-cased, occurs in `s` lower-cased.
pub open spec fn contains_any_ci(s: Seq<char>, words: Seq<Seq<char>>) -> bool {
    exists|k: int| 0 <= k < words.len() && seq_contains(spec_str_lowercase(s), spec_str_lowercase(#[trigger] words[k]))
}

fn contains_any_ci_exec(s: &str, words: &Vec<&'static str>) -> (r: bool)
    ensures
        r == contains_any_ci(s@, words@.map_values(|w: &str| w@)),
{
    let ghost ws = words@.map_values(|w: &str| w@);
    let lower = str_to_lowercase(s);
    let mut i: usize = 0;
    while i < words.len()
        invariant
            ws == words@.map_values(|w: &str| w@),
            lower@ == spec_str_lowercase(s@),
            i <= words@.len(),
            forall|k: int| 0 <= k < i ==> !seq_contains(spec_str_lowercase(s@), spec_str_lowercase(#[trigger] ws[k])),
        decreases words.len() - i,
    {
        let w = str_to_lowercase(words[i]);
        proof {
            assert(ws[i as int] == words@[i as int]@);
        }
        if contains(lower.as_str(), w.as_str()) {
            return true;
        }
        i = i + 1;
    }
    false
}

/// Whether an expression derives a key from a timestamp:
/// `x.<timestampField>.<stringMethod>(...)` or
/// `x.<timestampField>.toISOString().<stringMethod>(...)` (names compared
/// case-insensitively by containment).
pub open spec fn spec_is_timestamp_derivation(e: Expression) -> bool {
    match e {
        Expression::Call { callee, .. } => match *callee {
            Expression::MemberAccess { object, property, .. } => contains_any_ci(property@, spec_time_string_methods())
                && match *object {
                Expression::MemberAccess { property: inner, .. } => contains_any_ci(inner@, spec_timestamp_fields()),
                Expression::Call { callee: inner_callee, .. } => match *inner_callee {
                    Expression::MemberAccess { object: inner_obj, property: inner_prop, .. } => spec_str_lowercase(
                        inner_prop@,
                    ) == "toisostring"@ && match *inner_obj {
                        Expression::MemberAccess { property: field, .. } => contains_any_ci(field@, spec_timestamp_fields()),
                        _ => false,
                    },
                    _ => false,
                },
                _ => false,
            },
            _ => false,
        },
        _ => false,
    }
}

/// Decides whether an expression derives a key from a timestamp.
pub fn is_timestamp_derivation(expr: &Expression) -> (r: bool)
    ensures
        r == spec_is_timestamp_derivation(*expr),
{
    let methods = time_string_methods();
    let fields = timestamp_fields();
    match expr {
        Expression::Call { callee, .. } => match &**callee {
            Expression::MemberAccess { object, property, .. } => {
                if !contains_any_ci_exec(property.as_str(), &methods) {
                    return false;
                }
                match &**object {
                    Expression::MemberAccess { property: inner, .. } => contains_any_ci_exec(inner.as_str(), &fields),
                    Expression::Call { callee: inner_callee, .. } => match &**inner_callee {
                        Expression::MemberAccess { object: inner_obj, property: inner_prop, .. } => {
                            let lower = str_to_lowercase(inner_prop.as_str());
                            if !str_eq(lower.as_str(), "toisostring") {
                                return false;
                            }
                            match &**inner_obj {
                                Expression::MemberAccess { property: field, .. } => contains_any_ci_exec(
                                    field.as_str(),
                                    &fields,
                                ),
                                _ => false,
                            }
                        },
                        _ => false,
                    },
                    _ => false,
                }
            },
            _ => false,
        },
        _ => false,
    }
}

/// Whether some top-level declaration in `build` has a timestamp-derived initializer.
pub open spec fn spec_has_timestamp_derived_key(c: ClassDecl) -> bool {
    let b = first_method_named(c.methods@, "build"@, 0);
    b >= 0 && exists|k: int|
        0 <= k < c.methods@[b].body@.len() && (#[trigger] c.methods@[b].body@[k] matches Statement::VariableDecl {
            initializer: Some(init),
            ..
        } && spec_is_timestamp_derivation(init))
}

/// Decides whether the key of `build` derives from a timestamp.
pub fn has_timestamp_derived_key(class: &ClassDecl) -> (r: bool)
    ensures
        r == spec_has_timestamp_derived_key(*class),
{
    let b = match find_method(&class.methods, "build") {
        Some(b) => b,
        None => return false,
    };
    let body = &class.methods[b].body;
    let mut i: usize = 0;
    while i < body.len()
        invariant
            i <= body@.len(),
            b < class.methods@.len(),
            first_method_named(class.methods@, "build"@, 0) == b,
            *body == class.methods@[b as int].body,
            forall|k: int|
                0 <= k < i ==> !(#[trigger] body@[k] matches Statement::VariableDecl { initializer: Some(init), .. }
                    && spec_is_timestamp_derivation(init)),
        decreases body.len() - i,
    {
        match &body[i] {
            Statement::VariableDecl { initializer: Some(init), .. } => {
                if is_timestamp_derivation(init) {
                    proof {
                        assert(body@[i as int] matches Statement::VariableDecl { initializer: Some(init), .. }
                            && spec_is_timestamp_derivation(init));
                    }
                    return true;
                }
            },
            _ => {},
        }
        i = i + 1;
    }
    false
}

/// Whether a method is a public query method candidate (not `build` or the constructor).
pub open spec fn is_public_query(m: MethodDecl) -> bool {
    m.visibility == Visibility::Public && m.name@ != "build"@ && m.name@ != "constructor"@
}

/// Whether some public method (not `build` or the constructor) has a range parameter.
pub open spec fn spec_has_range_query_methods(c: ClassDecl) -> bool {
    exists|k: int|
        0 <= k < c.methods@.len() && is_public_query(#[trigger] c.methods@[k]) && exists|j: int|
            0 <= j < c.methods@[k].parameters@.len() && contains_any(
                spec_str_lowercase(#[trigger] c.methods@[k].parameters@[j].name@),
                spec_range_params(),
            )
}

fn is_public_query_exec(m: &MethodDecl) -> (r: bool)
    ensures
        r == is_public_query(*m),
{
    m.visibility == Visibility::Public && !str_eq(m.name.as_str(), "build") && !str_eq(m.name.as_str(), "constructor")
}

/// Decides whether the class has range query methods.
pub fn has_range_query_methods(class: &ClassDecl) -> (r: bool)
    ensures
        r == spec_has_range_query_methods(*class),
{
    let mut k: usize = 0;
    while k < class.methods.len()
        invariant
            k <= class.methods@.len(),
            forall|m: int|
                0 <= m < k ==> !(is_public_query(#[trigger] class.methods@[m]) && exists|j: int|
                    0 <= j < class.methods@[m].parameters@.len() && contains_any(
                        spec_str_lowercase(#[trigger] class.methods@[m].parameters@[j].name@),
                        spec_range_params(),
                    )),
        decreases class.methods.len() - k,
    {
        let m = &class.methods[k];
        if is_public_query_exec(m) {
            let mut j: usize = 0;
            while j < m.parameters.len()
                invariant
                    j <= m.parameters@.len(),
                    k < class.methods@.len(),
                    *m == class.methods@[k as int],
                    is_public_query(*m),
                    forall|q: int|
                        0 <= q < j ==> !contains_any(spec_str_lowercase(#[trigger] m.parameters@[q].name@), spec_range_params()),
                decreases m.parameters.len() - j,
            {
                if is_range_param(m.parameters[j].name.as_str()) {
                    proof {
                        assert(contains_any(spec_str_lowercase(class.methods@[k as int].parameters@[j as int].name@), spec_range_params()));
                        assert(is_public_query(class.methods@[k as int]));
                    }
                    return true;
                }
                j = j + 1;
            }
        }
        k = k + 1;
    }
    false
}

/// The time-series signals of a projection class.
pub open spec fn spec_signals(c: ClassDecl, shape: StateShape) -> TimeSeriesSignals {
    TimeSeriesSignals {
        has_timestamp_derivation: spec_has_timestamp_derived_key(c),
        has_time_related_key_name: match shape {
            StateShape::IndexedNumber { key_name } => contains_any(spec_str_lowercase(key_name@), spec_time_keywords()),
            _ => false,
        },
        has_range_query_methods: spec_has_range_query_methods(c),
    }
}

/// Detects the time-series signals of a projection class.
pub fn detect_time_series_signals(class: &ClassDecl, shape: &StateShape) -> (r: TimeSeriesSignals)
    ensures
        r == spec_signals(*class, *shape),
{
    let has_timestamp_derivation = has_timestamp_derived_key(class);
    let has_time_related_key_name = match shape {
        StateShape::IndexedNumber { key_name } => is_time_related_name(key_name.as_str()),
        _ => false,
    };
    let has_range_query_methods = has_range_query_methods(class);
    TimeSeriesSignals { has_timestamp_derivation, has_time_related_key_name, has_range_query_methods }
}

/// The event names a subscription type names: the members of a union, a
/// referenced type, or the `type` literal of an object type (without quotes,
/// when not empty).
pub open spec fn spec_event_names(t: TypeNode) -> Seq<Seq<char>>
    decreases t, 1nat, 0int,
{
    match t {
        TypeNode::Union(ms) => spec_union_names(t, ms@.len() as int),
        TypeNode::Reference(name) => seq![name@],
        TypeNode::ObjectLiteral(ps) => {
            let k = first_prop_named(ps@, "type"@, 0);
            if k < 0 {
                Seq::empty()
            } else {
                let name = match ps@[k].type_node {
                    TypeNode::Primitive(lit) => spec_trim_char(spec_trim_char(lit@, '"'), '\''),
                    _ => Seq::empty(),
                };
                if name.len() == 0 {
                    Seq::empty()
                } else {
                    seq![name]
                }
            }
        },
        _ => Seq::empty(),
    }
}

/// The event names of the first `n` members of the union `t`, in order.
pub open spec fn spec_union_names(t: TypeNode, n: int) -> Seq<Seq<char>>
    decreases t, 0nat, n,
{
    match t {
        TypeNode::Union(ms) => if n <= 0 || n > ms@.len() {
            Seq::empty()
        } else {
            spec_union_names(t, n - 1) + spec_event_names(ms@[n - 1])
        },
        _ => Seq::empty(),
    }
}

/// Extracts the event names of a subscription type.
pub fn extract_event_names_from_type(t: &TypeNode) -> (r: Vec<String>)
    ensures
        views(r@) == spec_event_names(*t),
    decreases t,
{
    match t {
        TypeNode::Union(ms) => {
            let mut out: Vec<String> = Vec::new();
            let mut i: usize = 0;
            while i < ms.len()
                invariant
                    i <= ms@.len(),
                    *t == TypeNode::Union(*ms),
                    views(out@) == spec_union_names(*t, i as int),
                decreases ms.len() - i,
            {
                proof {
                    let tn = *t;
                    assert(decreases_to!(tn => tn->Union_0@[i as int]));
                }
                let mut names = extract_event_names_from_type(&ms[i]);
                let ghost before = views(out@);
                out.append(&mut names);
                proof {
                    assert(views(out@) =~= before + spec_event_names(ms@[i as int]));
                }
                i = i + 1;
            }
            out
        },
        TypeNode::Reference(name) => {
            let r = vec![name.clone()];
            proof {
                assert(views(r@) =~= seq![name@]);
            }
            r
        },
        TypeNode::ObjectLiteral(ps) => {
            let mut k: usize = 0;
            while k < ps.len() && !str_eq(ps[k].name.as_str(), "type")
                invariant
                    k <= ps@.len(),
                    forall|m: int| 0 <= m < k ==> ps@[m].name@ != "type"@,
                decreases ps.len() - k,
            {
                k = k + 1;
            }
            proof {
                lemma_first_prop_named(ps@, "type"@, 0, k as int);
            }
            if k == ps.len() {
                let r: Vec<String> = Vec::new();
                proof {
                    assert(views(r@) =~= Seq::<Seq<char>>::empty());
                }
                return r;
            }
            let name = match &ps[k].type_node {
                TypeNode::Primitive(lit) => {
                    let a = trim_char(lit.as_str(), '"');
                    trim_char(a.as_str(), '\'')
                },
                _ => String::new(),
            };
            if name.unicode_len() == 0 {
                let r: Vec<String> = Vec::new();
                proof {
                    assert(views(r@) =~= Seq::<Seq<char>>::empty());
                }
                r
            } else {
                let ghost nv = name@;
                let r = vec![name];
                proof {
                    assert(views(r@) =~= seq![nv]);
                }
                r
            }
        },
        _ => {
            let r: Vec<String> = Vec::new();
            proof {
                assert(views(r@) =~= Seq::<Seq<char>>::empty());
            }
            r
        },
    }
}

/// The suffixes that mark the aggregate of an event name.
pub open spec fn spec_event_suffixes() -> Seq<Seq<char>> {
    seq!["Created"@, "Updated"@, "Deleted"@, "Completed"@, "Cancelled"@, "Added"@, "Removed"@, "Changed"@]
}

/// The aggregate of an event name: the name without the first suffix (in the
/// order above) that it ends with.
pub open spec fn spec_infer_aggregate_from(name: Seq<char>, k: int) -> Option<Seq<char>>
    decreases spec_event_suffixes().len() - k,
{
    let sfx = spec_event_suffixes();
    if k < 0 || k >= sfx.len() {
        None
    } else if crate::text::seq_ends_with(name, sfx[k]) {
        Some(name.subrange(0, name.len() - sfx[k].len()))
    } else {
        spec_infer_aggregate_from(name, k + 1)
    }
}

/// Infers the aggregate of an event from its name (`UserCreated` -> `User`).
pub fn infer_aggregate_from_event(event_name: &str) -> (r: Option<String>)
    ensures
        match spec_infer_aggregate_from(event_name@, 0) {
            Some(a) => r matches Some(s) && s@ == a,
            None => r is None,
        },
{
    let suffixes = vec!["Created", "Updated", "Deleted", "Completed", "Cancelled", "Added", "Removed", "Changed"];
    proof {
        assert(suffixes@.map_values(|w: &str| w@) =~= spec_event_suffixes());
    }
    let mut k: usize = 0;
    while k < suffixes.len()
        invariant
            k <= suffixes@.len(),
            suffixes@.map_values(|w: &str| w@) == spec_event_suffixes(),
            spec_infer_aggregate_from(event_name@, 0) == spec_infer_aggregate_from(event_name@, k as int),
        decreases suffixes.len() - k,
    {
        let sfx = suffixes[k];
        proof {
            assert(sfx@ == spec_event_suffixes()[k as int]);
        }
        if crate::text::ends_with(event_name, sfx) {
            let n = event_name.unicode_len();
            let m = sfx.unicode_len();
            return Some(crate::text::to_owned_string(event_name.substring_char(0, n - m)));
        }
        k = k + 1;
    }
    None
}

/// `evs` are the subscribed events of a projection class: the event names of
/// the type of `build`'s first parameter, each with its inferred aggregate.
pub open spec fn subscribed_events_of(c: ClassDecl, evs: Seq<SubscribedEvent>) -> bool {
    let b = first_method_named(c.methods@, "build"@, 0);
    let names = if b >= 0 && c.methods@[b].parameters@.len() > 0 {
        match c.methods@[b].parameters@[0].type_node {
            Some(t) => spec_event_names(t),
            None => Seq::empty(),
        }
    } else {
        Seq::empty()
    };
    &&& evs.len() == names.len()
    &&& forall|k: int|
        0 <= k < names.len() ==> #[trigger] evs[k].event_name@ == names[k] && match spec_infer_aggregate_from(
            names[k],
            0,
        ) {
            Some(a) => evs[k].aggregate matches Some(s) && s@ == a,
            None => evs[k].aggregate is None,
        }
}

/// Extracts the events a projection subscribes to.
pub fn extract_subscribed_events(class: &ClassDecl) -> (r: Vec<SubscribedEvent>)
    ensures
        subscribed_events_of(*class, r@),
{
    let names: Vec<String> = match find_method(&class.methods, "build") {
        Some(b) => {
            let m = &class.methods[b];
            if m.parameters.len() > 0 {
                match &m.parameters[0].type_node {
                    Some(t) => extract_event_names_from_type(t),
                    None => Vec::new(),
                }
            } else {
                Vec::new()
            }
        },
        None => Vec::new(),
    };
    let ghost nv = views(names@);
    proof {
        let b = first_method_named(class.methods@, "build"@, 0);
        let expected = if b >= 0 && class.methods@[b].parameters@.len() > 0 {
            match class.methods@[b].parameters@[0].type_node {
                Some(t) => spec_event_names(t),
                None => Seq::empty(),
            }
        } else {
            Seq::empty()
        };
        assert(nv =~= expected);
    }
    let mut out: Vec<SubscribedEvent> = Vec::new();
    let mut i: usize = 0;
    while i < names.len()
        invariant
            i <= names@.len(),
            nv == views(names@),
            out@.len() == i,
            forall|k: int| 0 <= k < i ==> #[trigger] out@[k].event_name@ == nv[k],
            forall|k: int|
                0 <= k < i ==> match spec_infer_aggregate_from(nv[k], 0) {
                    Some(a) => (#[trigger] out@[k].aggregate) matches Some(s) && s@ == a,
                    None => out@[k].aggregate is None,
                },
        decreases names.len() - i,
    {
        let aggregate = infer_aggregate_from_event(names[i].as_str());
        let ghost before = out@;
        out.push(SubscribedEvent { event_name: names[i].clone(), aggregate });
        proof {
            assert(nv[i as int] == names@[i as int]@);
            assert forall|k: int| 0 <= k < i + 1 implies #[trigger] out@[k].event_name@ == nv[k] by {
                if k < i {
                    assert(out@[k] == before[k]);
                    assert(before[k].event_name@ == nv[k]);
                }
            }
            assert forall|k: int| 0 <= k < i + 1 implies match spec_infer_aggregate_from(nv[k], 0) {
                Some(a) => (#[trigger] out@[k].aggregate) matches Some(s) && s@ == a,
                None => out@[k].aggregate is None,
            } by {
                if k < i {
                    assert(out@[k] == before[k]);
                    assert(match spec_infer_aggregate_from(nv[k], 0) {
                        Some(a) => before[k].aggregate matches Some(s) && s@ == a,
                        None => before[k].aggregate is None,
                    });
                }
            }
        }
        i = i + 1;
    }
    out
}

/// `c` is the column of a property: snake-case name, the SQL type of its
/// domain type, nullable when optional, no default.
pub open spec fn column_of(p: ObjectProperty, c: ColumnDef) -> bool {
    &&& c.name@ == spec_snake_case(p.name@)
    &&& exists|d: DomainType| converted_type(p.type_node, d) && c.sql_type == spec_sql_type_of(d)
    &&& c.nullable == p.optional
    &&& c.default is None
}

/// `cols` are the columns of a property list, in order.
pub open spec fn columns_of_props(ps: Seq<ObjectProperty>, cols: Seq<ColumnDef>) -> bool {
    cols.len() == ps.len() && forall|k: int| 0 <= k < ps.len() ==> column_of(ps[k], #[trigger] cols[k])
}

/// Whether a type is the primitive `number`.
pub open spec fn is_number_type(t: TypeNode) -> bool {
    t matches TypeNode::Primitive(p) && p@ == "number"@
}

/// `cols` are the columns of a projection value type: an object type's
/// properties, a single non-null REAL `value` for numbers, none otherwise.
pub open spec fn columns_of_type(t: TypeNode, cols: Seq<ColumnDef>) -> bool {
    match t {
        TypeNode::ObjectLiteral(ps) => columns_of_props(ps@, cols),
        _ => if is_number_type(t) {
            cols.len() == 1 && cols[0].name@ == "value"@ && cols[0].sql_type == SqlType::Real && !cols[0].nullable
                && cols[0].default is None
        } else {
            cols.len() == 0
        },
    }
}

fn columns_from_props(ps: &Vec<ObjectProperty>) -> (r: Vec<ColumnDef>)
    requires
        props_ok(ps@),
    ensures
        columns_of_props(ps@, r@),
{
    let mut cols: Vec<ColumnDef> = Vec::new();
    let mut i: usize = 0;
    while i < ps.len()
        invariant
            i <= ps@.len(),
            props_ok(ps@),
            cols@.len() == i,
            forall|k: int| 0 <= k < i ==> column_of(ps@[k], #[trigger] cols@[k]),
        decreases ps.len() - i,
    {
        let p = &ps[i];
        let d = convert_type_node(&p.type_node);
        let sql_type = SqlType::from_domain_type(&d);
        cols.push(ColumnDef { name: to_snake_case(p.name.as_str()), sql_type, nullable: p.optional, default: None });
        proof {
            assert(converted_type(p.type_node, d) && sql_type == spec_sql_type_of(d));
        }
        i = i + 1;
    }
    cols
}

/// Extracts the columns of a projection value type.
pub fn extract_columns_from_type(t: &TypeNode) -> (r: Vec<ColumnDef>)
    requires
        type_ok(*t),
    ensures
        columns_of_type(*t, r@),
{
    match t {
        TypeNode::ObjectLiteral(ps) => columns_from_props(ps),
        TypeNode::Primitive(p) => {
            if str_eq(p.as_str(), "number") {
                vec![ColumnDef {
                    name: crate::text::to_owned_string("value"),
                    sql_type: SqlType::Real,
                    nullable: false,
                    default: None,
                }]
            } else {
                Vec::new()
            }
        },
        _ => Vec::new(),
    }
}

/// The snake-case parameter names of a method.
pub open spec fn param_snake_names(m: MethodDecl) -> Seq<Seq<char>> {
    Seq::new(m.parameters@.len(), |j: int| spec_snake_case(m.parameters@[j].name@))
}

/// The parameter names (snake case) of the public query methods, in order.
pub open spec fn index_candidates(c: ClassDecl) -> Seq<Seq<char>> {
    Seq::new(
        c.methods@.len(),
        |k: int| if is_public_query(c.methods@[k]) { param_snake_names(c.methods@[k]) } else { Seq::empty() },
    ).flatten()
}

/// The first `n` candidates that name a column, each once.
pub open spec fn spec_index_names(cands: Seq<Seq<char>>, colnames: Seq<Seq<char>>, n: int) -> Seq<Seq<char>>
    decreases n,
{
    if n <= 0 || n > cands.len() {
        Seq::empty()
    } else {
        let prev = spec_index_names(cands, colnames, n - 1);
        let x = cands[n - 1];
        if colnames.contains(x) && !prev.contains(x) {
            prev.push(x)
        } else {
            prev
        }
    }
}

/// The names of the columns.
pub open spec fn column_names(cols: Seq<ColumnDef>) -> Seq<Seq<char>> {
    cols.map_values(|d: ColumnDef| d.name@)
}

/// `idx` are the indexes derived from the query methods: one non-unique
/// `idx_<col>` index per parameter that names a column.
pub open spec fn indexes_of(c: ClassDecl, cols: Seq<ColumnDef>, idx: Seq<IndexDef>) -> bool {
    let colnames = column_names(cols);
    let cands = index_candidates(c);
    let names = spec_index_names(cands, colnames, cands.len() as int);
    &&& idx.len() == names.len()
    &&& forall|k: int|
        0 <= k < names.len() ==> {
            &&& #[trigger] idx[k].name@ == "idx_"@ + names[k]
            &&& views(idx[k].columns@) == seq![names[k]]
            &&& !idx[k].unique
        }
}

fn seq_has(v: &Vec<String>, x: &str) -> (r: bool)
    ensures
        r == views(v@).contains(x@),
{
    let mut i: usize = 0;
    while i < v.len()
        invariant
            i <= v@.len(),
            forall|k: int| 0 <= k < i ==> v@[k]@ != x@,
        decreases v.len() - i,
    {
        if str_eq(v[i].as_str(), x) {
            proof {
                assert(views(v@)[i as int] == x@);
            }
            return true;
        }
        i = i + 1;
    }
    proof {
        if views(v@).contains(x@) {
            let k = choose|k: int| 0 <= k < views(v@).len() && views(v@)[k] == x@;
            assert(v@[k]@ == x@);
        }
    }
    false
}

fn index_candidate_list(c: &ClassDecl) -> (r: Vec<String>)
    ensures
        views(r@) == index_candidates(*c),
{
    let ghost f = |k: int| if is_public_query(c.methods@[k]) { param_snake_names(c.methods@[k]) } else { Seq::empty() };
    let mut out: Vec<String> = Vec::new();
    let mut k: usize = 0;
    while k < c.methods.len()
        invariant
            k <= c.methods@.len(),
            f == (|k: int| if is_public_query(c.methods@[k]) { param_snake_names(c.methods@[k]) } else { Seq::empty() }),
            views(out@) == Seq::new(k as nat, f).flatten(),
        decreases c.methods.len() - k,
    {
        let m = &c.methods[k];
        let ghost base = views(out@);
        if is_public_query_exec(m) {
            let mut j: usize = 0;
            while j < m.parameters.len()
                invariant
                    j <= m.parameters@.len(),
                    views(out@) == base + param_snake_names(*m).subrange(0, j as int),
                decreases m.parameters.len() - j,
            {
                let s = to_snake_case(m.parameters[j].name.as_str());
                let ghost before = views(out@);
                out.push(s);
                proof {
                    assert(views(out@) =~= before.push(param_snake_names(*m)[j as int]));
                    assert(param_snake_names(*m).subrange(0, j + 1) =~= param_snake_names(*m).subrange(
                        0,
                        j as int,
                    ).push(param_snake_names(*m)[j as int]));
                }
                j = j + 1;
            }
            proof {
                assert(param_snake_names(*m).subrange(0, m.parameters@.len() as int) =~= param_snake_names(*m));
            }
        }
        proof {
            let prev = Seq::new(k as nat, f);
            prev.lemma_flatten_push(f(k as int));
            assert(Seq::new((k + 1) as nat, f) =~= prev.push(f(k as int)));
            assert(views(out@) =~= base + f(k as int));
        }
        k = k + 1;
    }
    proof {
        assert(Seq::new(c.methods@.len(), f) =~= Seq::new(
            c.methods@.len(),
            |k: int| if is_public_query(c.methods@[k]) { param_snake_names(c.methods@[k]) } else { Seq::empty() },
        ));
    }
    out
}

/// Derives the indexes of a projection table from its query methods' parameters.
pub fn derive_indexes_from_queries(class: &ClassDecl, columns: &Vec<ColumnDef>) -> (r: Vec<IndexDef>)
    ensures
        indexes_of(*class, columns@, r@),
{
    let mut colnames: Vec<String> = Vec::new();
    let mut i: usize = 0;
    while i < columns.len()
        invariant
            i <= columns@.len(),
            views(colnames@) == column_names(columns@).subrange(0, i as int),
        decreases columns.len() - i,
    {
        let ghost before = views(colnames@);
        colnames.push(columns[i].name.clone());
        proof {
            assert(column_names(columns@)[i as int] == columns@[i as int].name@);
            assert(views(colnames@) =~= before.push(columns@[i as int].name@));
            assert(views(colnames@) =~= column_names(columns@).subrange(0, i + 1));
        }
        i = i + 1;
    }
    proof {
        assert(views(colnames@) =~= column_names(columns@));
    }
    let cands = index_candidate_list(class);
    let ghost cv = views(cands@);
    let ghost cn = views(colnames@);
    let mut names: Vec<String> = Vec::new();
    let ghost mut nv: Seq<Seq<char>> = Seq::empty();
    let mut indexes: Vec<IndexDef> = Vec::new();
    let mut k: usize = 0;
    while k < cands.len()
        invariant
            k <= cands@.len(),
            cv == views(cands@),
            cn == views(colnames@),
            nv == views(names@),
            nv == spec_index_names(cv, cn, k as int),
            indexes@.len() == nv.len(),
            forall|q: int| 0 <= q < nv.len() ==> #[trigger] indexes@[q].name@ == "idx_"@ + nv[q],
            forall|q: int| 0 <= q < nv.len() ==> views(#[trigger] indexes@[q].columns@) == seq![nv[q]],
            forall|q: int| 0 <= q < nv.len() ==> !(#[trigger] indexes@[q]).unique,
        decreases cands.len() - k,
    {
        let x = &cands[k];
        proof {
            assert(cv[k as int] == x@);
        }
        if seq_has(&colnames, x.as_str()) && !seq_has(&names, x.as_str()) {
            let mut iname = crate::text::to_owned_string("idx_");
            iname.append(x.as_str());
            let cols = vec![x.clone()];
            proof {
                assert(views(cols@) =~= seq![x@]);
            }
            let ghost old_idx = indexes@;
            names.push(x.clone());
            indexes.push(IndexDef { name: iname, columns: cols, unique: false });
            proof {
                assert(views(names@) =~= nv.push(x@));
                assert forall|q: int| 0 <= q < nv.len() + 1 implies #[trigger] indexes@[q].name@ == "idx_"@ + nv.push(
                    x@,
                )[q] by {
                    if q < nv.len() {
                        assert(indexes@[q] == old_idx[q]);
                        assert(old_idx[q].name@ == "idx_"@ + nv[q]);
                    }
                }
                assert forall|q: int| 0 <= q < nv.len() + 1 implies views(#[trigger] indexes@[q].columns@) == seq![
                    nv.push(x@)[q],
                ] by {
                    if q < nv.len() {
                        assert(indexes@[q] == old_idx[q]);
                        assert(views(old_idx[q].columns@) == seq![nv[q]]);
                    }
                }
                assert forall|q: int| 0 <= q < nv.len() + 1 implies !(#[trigger] indexes@[q]).unique by {
                    if q < nv.len() {
                        assert(indexes@[q] == old_idx[q]);
                    }
                }
                nv = nv.push(x@);
            }
        }
        k = k + 1;
    }
    indexes
}

/// Whether a method is exposed as a query: public, not `build`, the
/// constructor, a getter or a setter.
pub open spec fn is_query_method(m: MethodDecl) -> bool {
    &&& is_public_query(m)
    &&& !crate::text::seq_starts_with(m.name@, "get_"@)
    &&& !crate::text::seq_starts_with(m.name@, "set_"@)
}

/// The indices of the first `n` query methods.
pub open spec fn query_indices(ms: Seq<MethodDecl>, n: int) -> Seq<int>
    decreases n,
{
    if n <= 0 || n > ms.len() {
        Seq::empty()
    } else if is_query_method(ms[n - 1]) {
        query_indices(ms, n - 1).push(n - 1)
    } else {
        query_indices(ms, n - 1)
    }
}

/// `q` is the query method of `m`.
pub open spec fn converted_query(m: MethodDecl, q: QueryMethodIR) -> bool {
    &&& q.name@ == m.name@
    &&& q.parameters@.len() == m.parameters@.len()
    &&& forall|k: int|
        0 <= k < m.parameters@.len() ==> converted_param(
            m.parameters@[k].name@,
            m.parameters@[k].type_node,
            #[trigger] q.parameters@[k],
        )
    &&& match m.return_type {
        Some(t) => q.return_type matches Some(d) && converted_type(t, d),
        None => q.return_type is None,
    }
    &&& views(q.indexed_columns@) == param_snake_names(m)
    &&& q.is_range_query == exists|j: int|
        0 <= j < m.parameters@.len() && contains_any(
            spec_str_lowercase(#[trigger] m.parameters@[j].name@),
            spec_range_params(),
        )
    &&& q.raw_body == m.raw_body
}

/// Every method of a class has well-formed annotations.
pub open spec fn class_methods_ok(c: ClassDecl) -> bool {
    forall|k: int| 0 <= k < c.methods@.len() ==> method_ok(#[trigger] c.methods@[k])
}

fn is_query_method_exec(m: &MethodDecl) -> (r: bool)
    ensures
        r == is_query_method(*m),
{
    is_public_query_exec(m) && !crate::text::starts_with(m.name.as_str(), "get_") && !crate::text::starts_with(
        m.name.as_str(),
        "set_",
    )
}

fn clone_opt_string(s: &Option<String>) -> (r: Option<String>)
    ensures
        r == *s,
{
    match s {
        Some(x) => Some(x.clone()),
        None => None,
    }
}

fn convert_query(m: &MethodDecl) -> (r: QueryMethodIR)
    requires
        method_ok(*m),
    ensures
        converted_query(*m, r),
{
    let parameters = convert_parameters(m);
    let return_type = match &m.return_type {
        Some(t) => Some(convert_type_node(t)),
        None => None,
    };
    let mut indexed: Vec<String> = Vec::new();
    let mut is_range = false;
    let mut j: usize = 0;
    while j < m.parameters.len()
        invariant
            j <= m.parameters@.len(),
            views(indexed@) == param_snake_names(*m).subrange(0, j as int),
            is_range == exists|q: int|
                0 <= q < j && contains_any(spec_str_lowercase(#[trigger] m.parameters@[q].name@), spec_range_params()),
        decreases m.parameters.len() - j,
    {
        let ghost before = views(indexed@);
        let sn = to_snake_case(m.parameters[j].name.as_str());
        let ghost snv = sn@;
        indexed.push(sn);
        if is_range_param(m.parameters[j].name.as_str()) {
            is_range = true;
        }
        proof {
            assert(views(indexed@) =~= before.push(snv));
            assert(param_snake_names(*m)[j as int] == snv);
            assert(views(indexed@) =~= param_snake_names(*m).subrange(0, j + 1));
        }
        j = j + 1;
    }
    proof {
        assert(param_snake_names(*m).subrange(0, m.parameters@.len() as int) =~= param_snake_names(*m));
    }
    QueryMethodIR {
        name: m.name.clone(),
        parameters,
        return_type,
        indexed_columns: indexed,
        is_range_query: is_range,
        raw_body: clone_opt_string(&m.raw_body),
    }
}

/// `qs` are the query methods of a class, in order.
pub open spec fn queries_of(c: ClassDecl, qs: Seq<QueryMethodIR>) -> bool {
    let idx = query_indices(c.methods@, c.methods@.len() as int);
    qs.len() == idx.len() && forall|k: int| 0 <= k < idx.len() ==> converted_query(c.methods@[idx[k]], #[trigger] qs[k])
}

/// Extracts the query methods of a projection class.
pub fn extract_query_methods(class: &ClassDecl) -> (r: Vec<QueryMethodIR>)
    requires
        class_methods_ok(*class),
    ensures
        queries_of(*class, r@),
{
    let mut out: Vec<QueryMethodIR> = Vec::new();
    let ghost mut idx: Seq<int> = Seq::empty();
    let mut i: usize = 0;
    while i < class.methods.len()
        invariant
            i <= class.methods@.len(),
            class_methods_ok(*class),
            idx == query_indices(class.methods@, i as int),
            out@.len() == idx.len(),
            forall|k: int| 0 <= k < idx.len() ==> converted_query(class.methods@[idx[k]], #[trigger] out@[k]),
        decreases class.methods.len() - i,
    {
        let m = &class.methods[i];
        if is_query_method_exec(m) {
            let q = convert_query(m);
            let ghost before = out@;
            out.push(q);
            proof {
                assert forall|k: int| 0 <= k < idx.len() + 1 implies converted_query(
                    class.methods@[idx.push(i as int)[k]],
                    #[trigger] out@[k],
                ) by {
                    if k < idx.len() {
                        assert(out@[k] == before[k]);
                        assert(converted_query(class.methods@[idx[k]], before[k]));
                    }
                }
                idx = idx.push(i as int);
            }
        }
        i = i + 1;
    }
    out
}

/// `s` is the schema of a projection whose state property is `prop` with type
/// `t`: an index signature keys rows by its (snake-case) key, an object type is
/// a single row keyed `id = 'singleton'`; indexes come from the query methods.
pub open spec fn schema_of(
    c: ClassDecl,
    prop_name: Seq<char>,
    t: TypeNode,
    r: Result<ProjectionSchema, CompilerError>,
) -> bool {
    match t {
        TypeNode::IndexSignature { key_name, value_type, .. } => {
            &&& r matches Ok(s)
            &&& s.state_property_name@ == prop_name
            &&& s.primary_keys@.len() == 1
            &&& s.primary_keys@[0].name@ == spec_snake_case(key_name@)
            &&& s.primary_keys@[0].sql_type == SqlType::Text
            &&& !s.primary_keys@[0].nullable
            &&& s.primary_keys@[0].default is None
            &&& columns_of_type(*value_type, s.columns@)
            &&& indexes_of(c, s.columns@, s.indexes@)
        },
        TypeNode::ObjectLiteral(ps) => {
            &&& r matches Ok(s)
            &&& s.state_property_name@ == prop_name
            &&& s.primary_keys@.len() == 1
            &&& s.primary_keys@[0].name@ == "id"@
            &&& s.primary_keys@[0].sql_type == SqlType::Text
            &&& !s.primary_keys@[0].nullable
            &&& s.primary_keys@[0].default matches Some(d) && d@ == "'singleton'"@
            &&& columns_of_props(ps@, s.columns@)
            &&& indexes_of(c, s.columns@, s.indexes@)
        },
        _ => r matches Err(CompilerError::InvalidProjection { name, reason }) && name@ == prop_name && reason@
            == "Unsupported state type shape"@,
    }
}

/// Extracts the SQL schema of a projection from its state property.
pub fn extract_projection_schema(prop_name: &str, state_type: &TypeNode, class: &ClassDecl) -> (r: Result<
    ProjectionSchema,
    CompilerError,
>)
    requires
        type_ok(*state_type),
        state_type matches TypeNode::ObjectLiteral(ps) ==> props_ok(ps@),
    ensures
        schema_of(*class, prop_name@, *state_type, r),
{
    match state_type {
        TypeNode::IndexSignature { key_name, value_type, .. } => {
            let pk = ColumnDef {
                name: to_snake_case(key_name.as_str()),
                sql_type: SqlType::Text,
                nullable: false,
                default: None,
            };
            let columns = extract_columns_from_type(value_type);
            let indexes = derive_indexes_from_queries(class, &columns);
            Ok(ProjectionSchema {
                state_property_name: crate::text::to_owned_string(prop_name),
                primary_keys: vec![pk],
                columns,
                indexes,
            })
        },
        TypeNode::ObjectLiteral(ps) => {
            let pk = ColumnDef {
                name: crate::text::to_owned_string("id"),
                sql_type: SqlType::Text,
                nullable: false,
                default: Some(crate::text::to_owned_string("'singleton'")),
            };
            let columns = columns_from_props(ps);
            let indexes = derive_indexes_from_queries(class, &columns);
            Ok(ProjectionSchema {
                state_property_name: crate::text::to_owned_string(prop_name),
                primary_keys: vec![pk],
                columns,
                indexes,
            })
        },
        _ => Err(CompilerError::InvalidProjection {
            name: crate::text::to_owned_string(prop_name),
            reason: crate::text::to_owned_string("Unsupported state type shape"),
        }),
    }
}

/// Every type annotation of a class is free of empty unions.
pub open spec fn class_ok(c: ClassDecl) -> bool {
    &&& class_methods_ok(c)
    &&& forall|k: int|
        0 <= k < c.properties@.len() ==> match #[trigger] c.properties@[k].type_node {
            Some(t) => type_ok(t),
            None => true,
        }
}

/// The raw body of the first method named `name`, if any.
pub open spec fn raw_body_of(c: ClassDecl, name: Seq<char>) -> Option<String> {
    let b = first_method_named(c.methods@, name, 0);
    if b >= 0 {
        c.methods@[b].raw_body
    } else {
        None
    }
}

/// `r` is the projection of a class: its first state-shaped property decides
/// the shape, kind and schema.
pub open spec fn converted_projection(c: ClassDecl, path: Seq<char>, r: Result<ProjectionIR, CompilerError>) -> bool {
    let i = first_state_prop(c.properties@, 0);
    if i < 0 {
        r matches Err(CompilerError::InvalidProjection { name, reason }) && name@ == c.name@ && reason@
            == "Missing state property with type annotation"@
    } else {
        let prop = c.properties@[i];
        let t = prop.type_node->Some_0;
        &&& r matches Ok(p)
        &&& p.name@ == c.name@
        &&& p.source_path@ == path
        &&& exists|shape: StateShape| shape_of(t, shape) && p.kind == spec_projection_kind(shape, spec_signals(c, shape))
        &&& subscribed_events_of(c, p.subscribed_events@)
        &&& schema_of(c, prop.name@, t, Ok(p.schema))
        &&& queries_of(c, p.queries@)
        &&& p.raw_build_body == raw_body_of(c, "build"@)
        &&& p.access == AccessLevel::Internal
        &&& p.roles@.len() == 0
    }
}

/// A class with a state-shaped property has a first one.
pub proof fn lemma_first_state_prop_exists(ps: Seq<crate::frontend::ast::PropertyDecl>, i: int, k: int)
    requires
        0 <= i <= k < ps.len(),
        is_state_shape(ps[k].type_node),
    ensures
        first_state_prop(ps, i) >= 0,
    decreases k - i,
{
    if i < k && !is_state_shape(ps[i].type_node) {
        lemma_first_state_prop_exists(ps, i + 1, k);
    }
}

proof fn lemma_first_state_prop(ps: Seq<crate::frontend::ast::PropertyDecl>, i: int)
    requires
        0 <= i,
    ensures
        first_state_prop(ps, i) >= 0 ==> (i <= first_state_prop(ps, i) < ps.len() && is_state_shape(
            ps[first_state_prop(ps, i)].type_node,
        )),
    decreases ps.len() - i,
{
    if i < ps.len() && !is_state_shape(ps[i].type_node) {
        lemma_first_state_prop(ps, i + 1);
    }
}

/// The raw body of the first method named `name`.
pub fn find_raw_body(c: &ClassDecl, name: &str) -> (r: Option<String>)
    ensures
        r == raw_body_of(*c, name@),
{
    match find_method(&c.methods, name) {
        Some(b) => match &c.methods[b].raw_body {
            Some(body) => Some(body.clone()),
            None => None,
        },
        None => None,
    }
}

/// Converts a projection class to the IR.
pub fn convert_projection(class: &ClassDecl, source_path: &str) -> (r: Result<ProjectionIR, CompilerError>)
    requires
        class_ok(*class),
    ensures
        converted_projection(*class, source_path@, r),
{
    let i = match find_state_prop(class) {
        Some(i) => i,
        None => {
            return Err(CompilerError::InvalidProjection {
                name: class.name.clone(),
                reason: crate::text::to_owned_string("Missing state property with type annotation"),
            });
        },
    };
    let prop = &class.properties[i];
    let state_type = match &prop.type_node {
        Some(t) => t,
        None => {
            return Err(CompilerError::InvalidProjection {
                name: class.name.clone(),
                reason: crate::text::to_owned_string("Missing state property with type annotation"),
            });
        },
    };
    proof {
        assert(match class.properties@[i as int].type_node {
            Some(t) => type_ok(t),
            None => true,
        });
    }
    let shape = analyze_state_shape(state_type);
    let signals = detect_time_series_signals(class, &shape);
    let kind = determine_projection_kind(&shape, &signals);
    let subscribed_events = extract_subscribed_events(class);
    let schema = match extract_projection_schema(prop.name.as_str(), state_type, class) {
        Ok(s) => s,
        Err(e) => {
            return Err(e);
        },
    };
    let queries = extract_query_methods(class);
    let raw_build_body = find_raw_body(class, "build");
    proof {
        assert(shape_of(*state_type, shape) && kind == spec_projection_kind(shape, spec_signals(*class, shape)));
    }
    Ok(ProjectionIR {
        name: class.name.clone(),
        source_path: crate::text::to_owned_string(source_path),
        kind,
        subscribed_events,
        schema,
        queries,
        raw_build_body,
        access: AccessLevel::Internal,
        roles: Vec::new(),
    })
}

} // verus!
