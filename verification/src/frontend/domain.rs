//! Conversion of parsed domain files to the domain IR: aggregates (with their
//! event and state types, initial state and commands) and projections, and
//! the application of the access configuration to the commands.

use vstd::prelude::*;

use crate::diagnostic::CompilerError;
use crate::frontend::ast::{ClassDecl, MethodDecl, ParsedFile, PropertyDecl, TypeAlias, TypeNode, Visibility};
use crate::frontend::projection::{
    is_state_shape, lemma_first_state_prop_exists, class_ok, class_methods_ok, convert_projection, converted_projection, find_raw_body, raw_body_of, spec_is_projection,
    is_projection,
};
use crate::frontend::to_ir::{
    alias_ok, convert_command, convert_event_type, convert_state_type, converted_command, converted_event_type,
    converted_state_type, first_member_error, member_error, parse_initial_state_object, parsed_initial_state, variant_error,
};
use crate::ir::access::{spec_resolve_method, AccessLevel, AppConfig, EntityAccessConfig};
use crate::ir::aggregate::{AggregateIR, CommandIR};
use crate::ir::assoc::{find_key, lookup};
use crate::ir::DomainIR;
use crate::text::{ends_with, seq_ends_with, seq_starts_with, starts_with, str_eq};

verus! {

/// `s` without all trailing repetitions of `sfx` (`str::trim_end_matches`).
pub open spec fn spec_trim_suffix_all(s: Seq<char>, sfx: Seq<char>) -> Seq<char>
    decreases s.len(),
{
    if sfx.len() > 0 && seq_ends_with(s, sfx) {
        spec_trim_suffix_all(s.subrange(0, s.len() - sfx.len()), sfx)
    } else {
        s
    }
}

/// Removes all trailing repetitions of `sfx`.
pub fn trim_suffix_all(s: &str, sfx: &str) -> (r: String)
    ensures
        r@ == spec_trim_suffix_all(s@, sfx@),
{
    let mut cur = crate::text::to_owned_string(s);
    let m = sfx.unicode_len();
    if m == 0 {
        return cur;
    }
    while ends_with(cur.as_str(), sfx)
        invariant
            m == sfx@.len(),
            m > 0,
            spec_trim_suffix_all(cur@, sfx@) == spec_trim_suffix_all(s@, sfx@),
        decreases cur@.len(),
    {
        let n = cur.unicode_len();
        let shorter = crate::text::to_owned_string(cur.as_str().substring_char(0, n - m));
        cur = shorter;
    }
    cur
}

/// The type aliases of all files, in order.
pub open spec fn all_aliases(files: Seq<ParsedFile>) -> Seq<TypeAlias> {
    Seq::new(files.len(), |f: int| files[f].type_aliases@).flatten()
}

/// The index of the first alias at or after `i` named `name`, or -1.
pub open spec fn first_alias_named(als: Seq<TypeAlias>, name: Seq<char>, i: int) -> int
    decreases als.len() - i,
{
    if i < 0 || i >= als.len() {
        -1
    } else if als[i].name@ == name {
        i
    } else {
        first_alias_named(als, name, i + 1)
    }
}

/// Every alias of every file is free of empty unions.
pub open spec fn files_aliases_ok(files: Seq<ParsedFile>) -> bool {
    forall|f: int, k: int|
        0 <= f < files.len() && 0 <= k < files[f].type_aliases@.len() ==> alias_ok(#[trigger] files[f].type_aliases@[k])
}

/// Whether converting an event type alias fails.
pub open spec fn event_type_fails(a: TypeAlias) -> bool {
    match a.type_node {
        TypeNode::Union(ms) => first_member_error(ms@, 0) >= 0,
        TypeNode::ObjectLiteral(ps) => variant_error(ps@) is Some,
        _ => true,
    }
}

/// The index of the first property named `initialState` that is static, or -1.
pub open spec fn first_initial_state_prop(ps: Seq<PropertyDecl>, i: int) -> int
    decreases ps.len() - i,
{
    if i < 0 || i >= ps.len() {
        -1
    } else if ps[i].name@ == "initialState"@ && ps[i].is_static {
        i
    } else {
        first_initial_state_prop(ps, i + 1)
    }
}

/// `vals` are the initial values declared by the static `initialState`
/// property's initializer (none without one).
pub open spec fn initial_state_of(c: ClassDecl, vals: Seq<(String, crate::ir::InitialValue)>) -> bool {
    let p = first_initial_state_prop(c.properties@, 0);
    if p >= 0 && c.properties@[p].initializer is Some {
        parsed_initial_state(c.properties@[p].initializer->Some_0@, vals)
    } else {
        vals.len() == 0
    }
}

/// Whether a method is a command: public, not `emit`, `apply` or the
/// constructor, not a getter or setter.
pub open spec fn is_command_method(m: MethodDecl) -> bool {
    &&& m.visibility == Visibility::Public
    &&& m.name@ != "emit"@
    &&& m.name@ != "apply"@
    &&& m.name@ != "constructor"@
    &&& !seq_starts_with(m.name@, "get_"@)
    &&& !seq_starts_with(m.name@, "set_"@)
}

/// The indices of the first `n` command methods.
pub open spec fn command_indices(ms: Seq<MethodDecl>, n: int) -> Seq<int>
    decreases n,
{
    if n <= 0 || n > ms.len() {
        Seq::empty()
    } else if is_command_method(ms[n - 1]) {
        command_indices(ms, n - 1).push(n - 1)
    } else {
        command_indices(ms, n - 1)
    }
}

/// `r` is the conversion of an aggregate class: its name without the
/// `Aggregate` suffix names its `<Name>Event` and `<Name>State` types (the
/// first alias of each name across the files); a missing type or a failing
/// conversion is the error.
pub open spec fn converted_aggregate(
    c: ClassDecl,
    files: Seq<ParsedFile>,
    path: Seq<char>,
    r: Result<AggregateIR, CompilerError>,
) -> bool {
    let n = spec_trim_suffix_all(c.name@, "Aggregate"@);
    let als = all_aliases(files);
    let ei = first_alias_named(als, n + "Event"@, 0);
    let si = first_alias_named(als, n + "State"@, 0);
    if ei < 0 {
        r matches Err(CompilerError::MissingMember { member, aggregate }) && member@ == n + "Event"@ && aggregate@
            == c.name@
    } else if si < 0 {
        r matches Err(CompilerError::MissingMember { member, aggregate }) && member@ == n + "State"@ && aggregate@
            == c.name@
    } else if event_type_fails(als[ei]) {
        r matches Err(e) && converted_event_type(als[ei], Err(e))
    } else if !(als[si].type_node is ObjectLiteral) {
        r matches Err(e) && converted_state_type(als[si], Err(e))
    } else {
        let idx = command_indices(c.methods@, c.methods@.len() as int);
        &&& r matches Ok(a)
        &&& a.name@ == n
        &&& a.source_path@ == path
        &&& converted_event_type(als[ei], Ok(a.events))
        &&& converted_state_type(als[si], Ok(a.state))
        &&& initial_state_of(c, a.initial_state@)
        &&& a.commands@.len() == idx.len()
        &&& forall|k: int| 0 <= k < idx.len() ==> converted_command(c.methods@[idx[k]], #[trigger] a.commands@[k])
        &&& a.raw_apply_body == raw_body_of(c, "apply"@)
    }
}

/// Whether converting an aggregate class fails.
pub open spec fn aggregate_fails(c: ClassDecl, files: Seq<ParsedFile>) -> bool {
    let n = spec_trim_suffix_all(c.name@, "Aggregate"@);
    let als = all_aliases(files);
    let ei = first_alias_named(als, n + "Event"@, 0);
    let si = first_alias_named(als, n + "State"@, 0);
    ei < 0 || si < 0 || event_type_fails(als[ei]) || !(als[si].type_node is ObjectLiteral)
}

/// Finds the first alias named `name` across the files.
fn find_alias<'a>(files: &'a [ParsedFile], name: &str) -> (r: Option<&'a TypeAlias>)
    ensures
        match r {
            Some(a) => {
                let i = first_alias_named(all_aliases(files@), name@, 0);
                0 <= i < all_aliases(files@).len() && *a == all_aliases(files@)[i]
            },
            None => first_alias_named(all_aliases(files@), name@, 0) == -1,
        },
{
    let ghost fa = |f: int| files@[f].type_aliases@;
    let mut f: usize = 0;
    while f < files.len()
        invariant
            f <= files@.len(),
            fa == (|f: int| files@[f].type_aliases@),
            forall|m: int| 0 <= m < Seq::new(f as nat, fa).flatten().len() ==> Seq::new(f as nat, fa).flatten()[m].name@
                != name@,
        decreases files.len() - f,
    {
        let ghost prev = Seq::new(f as nat, fa).flatten();
        proof {
            let s = Seq::new(f as nat, fa);
            s.lemma_flatten_push(fa(f as int));
            assert(Seq::new((f + 1) as nat, fa) =~= s.push(fa(f as int)));
        }
        let als = &files[f].type_aliases;
        let mut k: usize = 0;
        while k < als.len()
            invariant
                k <= als@.len(),
                f < files@.len(),
                fa == (|f: int| files@[f].type_aliases@),
                prev == Seq::new(f as nat, fa).flatten(),
                forall|m: int| 0 <= m < prev.len() ==> prev[m].name@ != name@,
                *als == files@[f as int].type_aliases,
                forall|m: int| 0 <= m < k ==> als@[m].name@ != name@,
            decreases als.len() - k,
        {
            if str_eq(als[k].name.as_str(), name) {
                proof {
                    lemma_all_aliases_prefix(files@, f as int, k as int);
                    assert(Seq::new(f as nat, fa) =~= Seq::new(f as nat, |g: int| files@[g].type_aliases@));
                    let all = all_aliases(files@);
                    let pos = prev.len() + k;
                    assert(all[pos] == als@[k as int]);
                    assert forall|m: int| 0 <= m < pos implies all[m].name@ != name@ by {
                        if m < prev.len() {
                            assert(all[m] == prev[m]);
                        } else {
                            assert(all[m] == als@[m - prev.len()]);
                        }
                    }
                    lemma_first_alias_named(all, name@, 0, pos);
                }
                return Some(&als[k]);
            }
            k = k + 1;
        }
        proof {
            let next = Seq::new((f + 1) as nat, fa).flatten();
            assert(next =~= prev + als@);
        }
        f = f + 1;
    }
    proof {
        let all = all_aliases(files@);
        assert(Seq::new(files@.len(), fa) =~= Seq::new(files@.len(), |f: int| files@[f].type_aliases@));
        lemma_first_alias_named(all, name@, 0, all.len() as int);
    }
    None
}

proof fn lemma_first_alias_named(als: Seq<TypeAlias>, name: Seq<char>, i: int, j: int)
    requires
        0 <= i <= j <= als.len(),
        forall|m: int| i <= m < j ==> als[m].name@ != name,
        j == als.len() || als[j].name@ == name,
    ensures
        first_alias_named(als, name, i) == if j == als.len() { -1 } else { j },
    decreases j - i,
{
    if i < j {
        lemma_first_alias_named(als, name, i + 1, j);
    }
}

/// The aliases of the first `f` files followed by the `f`-th file's aliases
/// are a prefix of all aliases.
proof fn lemma_all_aliases_prefix(files: Seq<ParsedFile>, f: int, k: int)
    requires
        0 <= f < files.len(),
        0 <= k < files[f].type_aliases@.len(),
    ensures
        ({
            let prev = Seq::new(f as nat, |g: int| files[g].type_aliases@).flatten();
            let all = all_aliases(files);
            &&& prev.len() + k < all.len()
            &&& all[prev.len() + k] == files[f].type_aliases@[k]
            &&& forall|m: int| 0 <= m < prev.len() ==> all[m] == prev[m]
            &&& forall|m: int|
                prev.len() <= m < prev.len() + files[f].type_aliases@.len() ==> all[m] == files[f].type_aliases@[m
                    - prev.len()]
        }),
{
    let fa = |g: int| files[g].type_aliases@;
    let pre = Seq::new(f as nat, fa);
    let mid = seq![fa(f)];
    let post = Seq::new((files.len() - f - 1) as nat, |g: int| fa(f + 1 + g));
    assert(Seq::new(files.len(), fa) =~= pre + mid + post);
    vstd::seq_lib::lemma_flatten_concat(pre + mid, post);
    vstd::seq_lib::lemma_flatten_concat(pre, mid);
    mid.lemma_flatten_one_element();
}

/// Extracts the initial state values of an aggregate class.
pub fn extract_initial_state(class: &ClassDecl) -> (r: Vec<(String, crate::ir::InitialValue)>)
    ensures
        initial_state_of(*class, r@),
{
    let mut i: usize = 0;
    while i < class.properties.len() && !(str_eq(class.properties[i].name.as_str(), "initialState")
        && class.properties[i].is_static)
        invariant
            i <= class.properties@.len(),
            first_initial_state_prop(class.properties@, 0) == first_initial_state_prop(class.properties@, i as int),
        decreases class.properties.len() - i,
    {
        i = i + 1;
    }
    if i == class.properties.len() {
        return Vec::new();
    }
    match &class.properties[i].initializer {
        Some(init) => parse_initial_state_object(init.as_str()),
        None => Vec::new(),
    }
}

fn is_command_method_exec(m: &MethodDecl) -> (r: bool)
    ensures
        r == is_command_method(*m),
{
    m.visibility == Visibility::Public && !str_eq(m.name.as_str(), "emit") && !str_eq(m.name.as_str(), "apply")
        && !str_eq(m.name.as_str(), "constructor") && !starts_with(m.name.as_str(), "get_") && !starts_with(
        m.name.as_str(),
        "set_",
    )
}

/// Converts the commands of an aggregate class.
fn convert_commands(class: &ClassDecl) -> (r: Vec<CommandIR>)
    requires
        class_methods_ok(*class),
    ensures
        ({
            let idx = command_indices(class.methods@, class.methods@.len() as int);
            r@.len() == idx.len() && forall|k: int|
                0 <= k < idx.len() ==> converted_command(class.methods@[idx[k]], #[trigger] r@[k])
        }),
{
    let mut out: Vec<CommandIR> = Vec::new();
    let ghost mut idx: Seq<int> = Seq::empty();
    let mut i: usize = 0;
    while i < class.methods.len()
        invariant
            i <= class.methods@.len(),
            class_methods_ok(*class),
            idx == command_indices(class.methods@, i as int),
            out@.len() == idx.len(),
            forall|k: int| 0 <= k < idx.len() ==> converted_command(class.methods@[idx[k]], #[trigger] out@[k]),
        decreases class.methods.len() - i,
    {
        let m = &class.methods[i];
        if is_command_method_exec(m) {
            proof {
                assert(crate::frontend::to_ir::method_ok(class.methods@[i as int]));
            }
            let c = convert_command(m);
            let ghost before = out@;
            out.push(c);
            proof {
                assert forall|k: int| 0 <= k < idx.len() + 1 implies converted_command(
                    class.methods@[idx.push(i as int)[k]],
                    #[trigger] out@[k],
                ) by {
                    if k < idx.len() {
                        assert(out@[k] == before[k]);
                        assert(converted_command(class.methods@[idx[k]], before[k]));
                    }
                }
                idx = idx.push(i as int);
            }
        }
        i = i + 1;
    }
    out
}

/// Converts an aggregate class to the IR.
pub fn convert_aggregate(class: &ClassDecl, files: &[ParsedFile], source_path: &str) -> (r: Result<
    AggregateIR,
    CompilerError,
>)
    requires
        class_ok(*class),
        files_aliases_ok(files@),
    ensures
        converted_aggregate(*class, files@, source_path@, r),
{
    let name = trim_suffix_all(class.name.as_str(), "Aggregate");
    let mut event_name = name.clone();
    event_name.append("Event");
    let mut state_name = name.clone();
    state_name.append("State");
    let event_alias = match find_alias(files, event_name.as_str()) {
        Some(a) => a,
        None => {
            return Err(CompilerError::MissingMember { member: event_name, aggregate: class.name.clone() });
        },
    };
    let state_alias = match find_alias(files, state_name.as_str()) {
        Some(a) => a,
        None => {
            return Err(CompilerError::MissingMember { member: state_name, aggregate: class.name.clone() });
        },
    };
    proof {
        lemma_alias_ok(files@, first_alias_named(all_aliases(files@), event_name@, 0));
        lemma_alias_ok(files@, first_alias_named(all_aliases(files@), state_name@, 0));
    }
    let events = match convert_event_type(event_alias) {
        Ok(e) => e,
        Err(e) => {
            return Err(e);
        },
    };
    let state = match convert_state_type(state_alias) {
        Ok(s) => s,
        Err(e) => {
            return Err(e);
        },
    };
    let initial_state = extract_initial_state(class);
    let commands = convert_commands(class);
    let raw_apply_body = find_raw_body(class, "apply");
    Ok(AggregateIR {
        name,
        source_path: crate::text::to_owned_string(source_path),
        state,
        initial_state,
        events,
        commands,
        raw_apply_body,
    })
}

/// Every alias in the flattened list is free of empty unions.
proof fn lemma_alias_ok(files: Seq<ParsedFile>, i: int)
    requires
        files_aliases_ok(files),
        0 <= i < all_aliases(files).len(),
    ensures
        alias_ok(all_aliases(files)[i]),
{
    lemma_flatten_index(files, i);
}

proof fn lemma_flatten_index(files: Seq<ParsedFile>, i: int)
    requires
        0 <= i < all_aliases(files).len(),
    ensures
        exists|f: int, k: int|
            0 <= f < files.len() && 0 <= k < files[f].type_aliases@.len() && all_aliases(files)[i]
                == #[trigger] files[f].type_aliases@[k],
    decreases files.len(),
{
    let fa = |g: int| files[g].type_aliases@;
    let n = files.len();
    let init = Seq::new((n - 1) as nat, fa);
    let whole = Seq::new(n, fa);
    assert(whole =~= init.push(fa(n - 1)));
    init.lemma_flatten_push(fa(n - 1));
    let before = files.drop_last();
    assert(Seq::new(before.len(), |g: int| before[g].type_aliases@) =~= init);
    if i < init.flatten().len() {
        lemma_flatten_index(before, i);
        let (f, k) = choose|f: int, k: int|
            0 <= f < before.len() && 0 <= k < before[f].type_aliases@.len() && all_aliases(before)[i]
                == #[trigger] before[f].type_aliases@[k];
        assert(files[f] == before[f]);
    } else {
        let k = i - init.flatten().len();
        assert(all_aliases(files)[i] == files[n - 1].type_aliases@[k]);
    }
}

/// Whether a class is an aggregate: it has a static `initialState`, an
/// `events` property, and `emit` and `apply` methods.
pub open spec fn spec_is_aggregate(c: ClassDecl) -> bool {
    &&& exists|k: int|
        0 <= k < c.properties@.len() && #[trigger] c.properties@[k].name@ == "initialState"@
            && c.properties@[k].is_static
    &&& exists|k: int| 0 <= k < c.properties@.len() && #[trigger] c.properties@[k].name@ == "events"@
    &&& exists|k: int| 0 <= k < c.methods@.len() && #[trigger] c.methods@[k].name@ == "emit"@
    &&& exists|k: int| 0 <= k < c.methods@.len() && #[trigger] c.methods@[k].name@ == "apply"@
}

fn has_property(c: &ClassDecl, name: &str, must_be_static: bool) -> (r: bool)
    ensures
        r == exists|k: int|
            0 <= k < c.properties@.len() && #[trigger] c.properties@[k].name@ == name@ && (!must_be_static
                || c.properties@[k].is_static),
{
    let mut i: usize = 0;
    while i < c.properties.len()
        invariant
            i <= c.properties@.len(),
            forall|k: int|
                0 <= k < i ==> !(#[trigger] c.properties@[k].name@ == name@ && (!must_be_static
                    || c.properties@[k].is_static)),
        decreases c.properties.len() - i,
    {
        if str_eq(c.properties[i].name.as_str(), name) && (!must_be_static || c.properties[i].is_static) {
            return true;
        }
        i = i + 1;
    }
    false
}

fn has_method(c: &ClassDecl, name: &str) -> (r: bool)
    ensures
        r == exists|k: int| 0 <= k < c.methods@.len() && #[trigger] c.methods@[k].name@ == name@,
{
    let mut i: usize = 0;
    while i < c.methods.len()
        invariant
            i <= c.methods@.len(),
            forall|k: int| 0 <= k < i ==> #[trigger] c.methods@[k].name@ != name@,
        decreases c.methods.len() - i,
    {
        if str_eq(c.methods[i].name.as_str(), name) {
            return true;
        }
        i = i + 1;
    }
    false
}

/// Decides whether a class is an aggregate.
pub fn is_aggregate(class: &ClassDecl) -> (r: bool)
    ensures
        r == spec_is_aggregate(*class),
{
    let a = has_property(class, "initialState", true);
    let b = has_property(class, "events", false);
    let c = has_method(class, "emit");
    let d = has_method(class, "apply");
    a && b && c && d
}

/// The classes of all files with the path of their file, in order.
pub open spec fn all_classes(files: Seq<ParsedFile>) -> Seq<(ClassDecl, Seq<char>)> {
    Seq::new(files.len(), |f: int| file_classes(files[f])).flatten()
}

/// The classes of a file with its path.
pub open spec fn file_classes(file: ParsedFile) -> Seq<(ClassDecl, Seq<char>)> {
    file.classes@.map_values(|c: ClassDecl| (c, file.path@))
}

/// The indices of the first `n` classes that are aggregates.
pub open spec fn aggregate_indices(cs: Seq<(ClassDecl, Seq<char>)>, n: int) -> Seq<int>
    decreases n,
{
    if n <= 0 || n > cs.len() {
        Seq::empty()
    } else if spec_is_aggregate(cs[n - 1].0) {
        aggregate_indices(cs, n - 1).push(n - 1)
    } else {
        aggregate_indices(cs, n - 1)
    }
}

/// The indices of the first `n` classes that are projections and not aggregates.
pub open spec fn projection_indices(cs: Seq<(ClassDecl, Seq<char>)>, n: int) -> Seq<int>
    decreases n,
{
    if n <= 0 || n > cs.len() {
        Seq::empty()
    } else if !spec_is_aggregate(cs[n - 1].0) && spec_is_projection(cs[n - 1].0) {
        projection_indices(cs, n - 1).push(n - 1)
    } else {
        projection_indices(cs, n - 1)
    }
}

/// Whether the class at `k` is an aggregate whose conversion fails.
pub open spec fn fails_at(cs: Seq<(ClassDecl, Seq<char>)>, files: Seq<ParsedFile>, k: int) -> bool {
    spec_is_aggregate(cs[k].0) && aggregate_fails(cs[k].0, files)
}

/// Every class and alias of every file is free of empty unions.
pub open spec fn files_ok(files: Seq<ParsedFile>) -> bool {
    &&& files_aliases_ok(files)
    &&& forall|f: int, k: int|
        0 <= f < files.len() && 0 <= k < files[f].classes@.len() ==> class_ok(#[trigger] files[f].classes@[k])
}

/// `r` is the domain IR of the files: every aggregate class converted in
/// order, every other projection class converted in order; the first
/// aggregate that fails to convert is the error, and a domain without any
/// aggregate or projection is an error too.
pub open spec fn converted_domain(files: Seq<ParsedFile>, source_dir: Seq<char>, r: Result<DomainIR, CompilerError>) -> bool {
    let cs = all_classes(files);
    let ai = aggregate_indices(cs, cs.len() as int);
    let pi = projection_indices(cs, cs.len() as int);
    if exists|k: int| 0 <= k < cs.len() && fails_at(cs, files, k) {
        let kf = choose|k: int| 0 <= k < cs.len() && fails_at(cs, files, k) && forall|m: int| 0 <= m < k ==> !fails_at(cs, files, m);
        r matches Err(e) && converted_aggregate(cs[kf].0, files, cs[kf].1, Err(e))
    } else if ai.len() == 0 && pi.len() == 0 {
        r matches Err(CompilerError::NoAggregates)
    } else {
        &&& r matches Ok(d)
        &&& d.source_dir@ == source_dir
        &&& d.orchestrators@.len() == 0
        &&& d.app_config is None
        &&& d.aggregates@.len() == ai.len()
        &&& forall|j: int|
            0 <= j < ai.len() ==> converted_aggregate(cs[ai[j]].0, files, cs[ai[j]].1, Ok(#[trigger] d.aggregates@[j]))
        &&& d.projections@.len() == pi.len()
        &&& forall|j: int|
            0 <= j < pi.len() ==> converted_projection(cs[pi[j]].0, cs[pi[j]].1, Ok(#[trigger] d.projections@[j]))
    }
}

proof fn lemma_indices_range(cs: Seq<(ClassDecl, Seq<char>)>, n: int)
    requires
        0 <= n <= cs.len(),
    ensures
        forall|j: int| 0 <= j < aggregate_indices(cs, n).len() ==> 0 <= #[trigger] aggregate_indices(cs, n)[j] < n,
        forall|j: int| 0 <= j < projection_indices(cs, n).len() ==> 0 <= #[trigger] projection_indices(cs, n)[j] < n,
    decreases n,
{
    if n > 0 {
        lemma_indices_range(cs, n - 1);
        let pa = aggregate_indices(cs, n - 1);
        let pp = projection_indices(cs, n - 1);
        assert forall|j: int| 0 <= j < aggregate_indices(cs, n).len() implies 0 <= #[trigger] aggregate_indices(
            cs,
            n,
        )[j] < n by {
            if j < pa.len() {
                assert(aggregate_indices(cs, n)[j] == pa[j]);
            }
        }
        assert forall|j: int| 0 <= j < projection_indices(cs, n).len() implies 0 <= #[trigger] projection_indices(
            cs,
            n,
        )[j] < n by {
            if j < pp.len() {
                assert(projection_indices(cs, n)[j] == pp[j]);
            }
        }
    }
}

proof fn lemma_indices_push(cs: Seq<(ClassDecl, Seq<char>)>, x: (ClassDecl, Seq<char>), k: int)
    requires
        0 <= k <= cs.len(),
    ensures
        aggregate_indices(cs.push(x), k) == aggregate_indices(cs, k),
        projection_indices(cs.push(x), k) == projection_indices(cs, k),
    decreases k,
{
    if k > 0 {
        lemma_indices_push(cs, x, k - 1);
        assert(cs.push(x)[k - 1] == cs[k - 1]);
    }
}

/// Converts parsed TypeScript files to the domain IR.
#[verifier::rlimit(50)]
pub fn to_ir(files: &[ParsedFile], source_dir: String) -> (r: Result<DomainIR, CompilerError>)
    requires
        files_ok(files@),
    ensures
        converted_domain(files@, source_dir@, r),
{
    let ghost cs = all_classes(files@);
    let ghost ff = |f: int| file_classes(files@[f]);
    let mut domain = DomainIR::new(source_dir);
    let ghost mut done: Seq<(ClassDecl, Seq<char>)> = Seq::empty();
    let mut f: usize = 0;
    while f < files.len()
        invariant
            f <= files@.len(),
            files_ok(files@),
            ff == (|f: int| file_classes(files@[f])),
            done == Seq::new(f as nat, ff).flatten(),
            forall|k: int| 0 <= k < done.len() ==> !fails_at(done, files@, k),
            domain.source_dir@ == source_dir@,
            domain.orchestrators@.len() == 0,
            domain.app_config is None,
            domain.aggregates@.len() == aggregate_indices(done, done.len() as int).len(),
            forall|j: int|
                0 <= j < aggregate_indices(done, done.len() as int).len() ==> converted_aggregate(
                    done[aggregate_indices(done, done.len() as int)[j]].0,
                    files@,
                    done[aggregate_indices(done, done.len() as int)[j]].1,
                    Ok(#[trigger] domain.aggregates@[j]),
                ),
            domain.projections@.len() == projection_indices(done, done.len() as int).len(),
            forall|j: int|
                0 <= j < projection_indices(done, done.len() as int).len() ==> converted_projection(
                    done[projection_indices(done, done.len() as int)[j]].0,
                    done[projection_indices(done, done.len() as int)[j]].1,
                    Ok(#[trigger] domain.projections@[j]),
                ),
        decreases files.len() - f,
    {
        let file = &files[f];
        let ghost start = done;
        let mut c: usize = 0;
        while c < file.classes.len()
            invariant
                c <= file.classes@.len(),
                f < files@.len(),
                *file == files@[f as int],
                files_ok(files@),
                ff == (|f: int| file_classes(files@[f])),
                start == Seq::new(f as nat, ff).flatten(),
                done == start + file_classes(*file).subrange(0, c as int),
                forall|k: int| 0 <= k < done.len() ==> !fails_at(done, files@, k),
                domain.source_dir@ == source_dir@,
                domain.orchestrators@.len() == 0,
                domain.app_config is None,
                domain.aggregates@.len() == aggregate_indices(done, done.len() as int).len(),
                forall|j: int|
                    0 <= j < aggregate_indices(done, done.len() as int).len() ==> converted_aggregate(
                        done[aggregate_indices(done, done.len() as int)[j]].0,
                        files@,
                        done[aggregate_indices(done, done.len() as int)[j]].1,
                        Ok(#[trigger] domain.aggregates@[j]),
                    ),
                domain.projections@.len() == projection_indices(done, done.len() as int).len(),
                forall|j: int|
                    0 <= j < projection_indices(done, done.len() as int).len() ==> converted_projection(
                        done[projection_indices(done, done.len() as int)[j]].0,
                        done[projection_indices(done, done.len() as int)[j]].1,
                        Ok(#[trigger] domain.projections@[j]),
                    ),
            decreases file.classes.len() - c,
        {
            let class = &file.classes[c];
            let ghost x = (*class, file.path@);
            let ghost old_done = done;
            let ghost n = old_done.len() as int;
            proof {
                assert(file_classes(*file)[c as int] == x);
                assert(file_classes(*file).subrange(0, c + 1) =~= file_classes(*file).subrange(0, c as int).push(x));
                lemma_indices_push(old_done, x, n);
                lemma_indices_range(old_done, n);
                assert(class_ok(files@[f as int].classes@[c as int]));
            }
            if is_aggregate(class) {
                match convert_aggregate(class, files, file.path.as_str()) {
                    Ok(a) => {
                        let ghost old_aggs = domain.aggregates@;
                        domain.aggregates.push(a);
                        proof {
                            done = old_done.push(x);
                            assert(aggregate_indices(done, done.len() as int) == aggregate_indices(old_done, n).push(n));
                            assert(projection_indices(done, done.len() as int) == projection_indices(old_done, n));
                            assert forall|j: int| 0 <= j < aggregate_indices(done, done.len() as int).len() implies converted_aggregate(
                                done[aggregate_indices(done, done.len() as int)[j]].0,
                                files@,
                                done[aggregate_indices(done, done.len() as int)[j]].1,
                                Ok(#[trigger] domain.aggregates@[j]),
                            ) by {
                                if j < old_aggs.len() {
                                    assert(domain.aggregates@[j] == old_aggs[j]);
                                    let q = aggregate_indices(old_done, n)[j];
                                    assert(converted_aggregate(old_done[q].0, files@, old_done[q].1, Ok(old_aggs[j])));
                                    assert(done[q] == old_done[q]);
                                }
                            }
                            assert forall|j: int| 0 <= j < projection_indices(done, done.len() as int).len() implies converted_projection(
                                done[projection_indices(done, done.len() as int)[j]].0,
                                done[projection_indices(done, done.len() as int)[j]].1,
                                Ok(#[trigger] domain.projections@[j]),
                            ) by {
                                let q = projection_indices(old_done, n)[j];
                                assert(converted_projection(old_done[q].0, old_done[q].1, Ok(domain.projections@[j])));
                                assert(done[q] == old_done[q]);
                            }
                            assert forall|k: int| 0 <= k < done.len() implies !fails_at(done, files@, k) by {
                                if k < n {
                                    assert(done[k] == old_done[k]);
                                    assert(!fails_at(old_done, files@, k));
                                }
                            }
                        }
                    },
                    Err(e) => {
                        proof {
                            let cs_all = all_classes(files@);
                            lemma_all_classes_prefix(files@, f as int, c as int);
                            assert(Seq::new(f as nat, ff) =~= Seq::new(f as nat, |g: int| file_classes(files@[g])));
                            let kf = n;
                            assert(cs_all[kf] == x);
                            assert(fails_at(cs_all, files@, kf));
                            assert forall|m: int| 0 <= m < kf implies !fails_at(cs_all, files@, m) by {
                                assert(cs_all[m] == old_done[m]);
                                assert(!fails_at(old_done, files@, m));
                            }
                            let kc = choose|k: int|
                                0 <= k < cs_all.len() && fails_at(cs_all, files@, k) && forall|m: int|
                                    0 <= m < k ==> !fails_at(cs_all, files@, m);
                            assert(kc == kf);
                        }
                        return Err(e);
                    },
                }
            } else if is_projection(class) {
                match convert_projection(class, file.path.as_str()) {
                    Ok(pr) => {
                        let ghost old_projs = domain.projections@;
                        domain.projections.push(pr);
                        proof {
                            done = old_done.push(x);
                            assert(aggregate_indices(done, done.len() as int) == aggregate_indices(old_done, n));
                            assert(projection_indices(done, done.len() as int) == projection_indices(old_done, n).push(n));
                            assert forall|j: int| 0 <= j < aggregate_indices(done, done.len() as int).len() implies converted_aggregate(
                                done[aggregate_indices(done, done.len() as int)[j]].0,
                                files@,
                                done[aggregate_indices(done, done.len() as int)[j]].1,
                                Ok(#[trigger] domain.aggregates@[j]),
                            ) by {
                                let q = aggregate_indices(old_done, n)[j];
                                assert(converted_aggregate(old_done[q].0, files@, old_done[q].1, Ok(domain.aggregates@[j])));
                                assert(done[q] == old_done[q]);
                            }
                            assert forall|j: int| 0 <= j < projection_indices(done, done.len() as int).len() implies converted_projection(
                                done[projection_indices(done, done.len() as int)[j]].0,
                                done[projection_indices(done, done.len() as int)[j]].1,
                                Ok(#[trigger] domain.projections@[j]),
                            ) by {
                                if j < old_projs.len() {
                                    assert(domain.projections@[j] == old_projs[j]);
                                    let q = projection_indices(old_done, n)[j];
                                    assert(converted_projection(old_done[q].0, old_done[q].1, Ok(old_projs[j])));
                                    assert(done[q] == old_done[q]);
                                }
                            }
                            assert forall|k: int| 0 <= k < done.len() implies !fails_at(done, files@, k) by {
                                if k < n {
                                    assert(done[k] == old_done[k]);
                                    assert(!fails_at(old_done, files@, k));
                                }
                            }
                        }
                    },
                    Err(e) => {
                        proof {
                            let k = choose|k: int|
                                0 <= k < class.properties@.len() && is_state_shape(
                                    #[trigger] class.properties@[k].type_node,
                                );
                            lemma_first_state_prop_exists(class.properties@, 0, k);
                        }
                        return Err(e);
                    },
                }
            } else {
                proof {
                    done = old_done.push(x);
                    assert(aggregate_indices(done, done.len() as int) == aggregate_indices(old_done, n));
                    assert(projection_indices(done, done.len() as int) == projection_indices(old_done, n));
                    assert forall|j: int| 0 <= j < aggregate_indices(done, done.len() as int).len() implies converted_aggregate(
                        done[aggregate_indices(done, done.len() as int)[j]].0,
                        files@,
                        done[aggregate_indices(done, done.len() as int)[j]].1,
                        Ok(#[trigger] domain.aggregates@[j]),
                    ) by {
                        let q = aggregate_indices(old_done, n)[j];
                        assert(converted_aggregate(old_done[q].0, files@, old_done[q].1, Ok(domain.aggregates@[j])));
                        assert(done[q] == old_done[q]);
                    }
                    assert forall|j: int| 0 <= j < projection_indices(done, done.len() as int).len() implies converted_projection(
                        done[projection_indices(done, done.len() as int)[j]].0,
                        done[projection_indices(done, done.len() as int)[j]].1,
                        Ok(#[trigger] domain.projections@[j]),
                    ) by {
                        let q = projection_indices(old_done, n)[j];
                        assert(converted_projection(old_done[q].0, old_done[q].1, Ok(domain.projections@[j])));
                        assert(done[q] == old_done[q]);
                    }
                    assert forall|k: int| 0 <= k < done.len() implies !fails_at(done, files@, k) by {
                        if k < n {
                            assert(done[k] == old_done[k]);
                            assert(!fails_at(old_done, files@, k));
                        }
                    }
                }
            }
            c = c + 1;
        }
        proof {
            assert(file_classes(*file).subrange(0, file.classes@.len() as int) =~= file_classes(*file));
            let s0 = Seq::new(f as nat, ff);
            s0.lemma_flatten_push(ff(f as int));
            assert(Seq::new((f + 1) as nat, ff) =~= s0.push(ff(f as int)));
        }
        f = f + 1;
    }
    proof {
        assert(Seq::new(files@.len(), ff) =~= Seq::new(files@.len(), |f: int| file_classes(files@[f])));
        assert(done == cs);
    }
    if domain.aggregates.len() == 0 && domain.projections.len() == 0 {
        return Err(CompilerError::NoAggregates);
    }
    Ok(domain)
}

/// The classes of the first `f` files followed by the `c`-th class of file `f`
/// sit at consecutive positions of all classes.
proof fn lemma_all_classes_prefix(files: Seq<ParsedFile>, f: int, c: int)
    requires
        0 <= f < files.len(),
        0 <= c < files[f].classes@.len(),
    ensures
        ({
            let prev = Seq::new(f as nat, |g: int| file_classes(files[g])).flatten();
            let all = all_classes(files);
            &&& prev.len() + c < all.len()
            &&& all[prev.len() + c] == file_classes(files[f])[c]
            &&& forall|m: int| 0 <= m < prev.len() + c ==> all[m] == (prev + file_classes(files[f]))[m]
        }),
{
    let fc = |g: int| file_classes(files[g]);
    let pre = Seq::new(f as nat, fc);
    let mid = seq![fc(f)];
    let post = Seq::new((files.len() - f - 1) as nat, |g: int| fc(f + 1 + g));
    assert(Seq::new(files.len(), fc) =~= pre + mid + post);
    vstd::seq_lib::lemma_flatten_concat(pre + mid, post);
    vstd::seq_lib::lemma_flatten_concat(pre, mid);
    mid.lemma_flatten_one_element();
}

/// The access of a method of an entity: the entity is configured under its
/// own name or with the `Aggregate` suffix; an unconfigured entity's methods
/// are internal without roles.
pub open spec fn spec_command_access(cfg: AppConfig, entity: Seq<char>, method: Seq<char>) -> (AccessLevel, Seq<String>) {
    match lookup(cfg.entities@, entity) {
        Some(e) => spec_resolve_method(e, method),
        None => match lookup(cfg.entities@, entity + "Aggregate"@) {
            Some(e) => spec_resolve_method(e, method),
            None => (AccessLevel::Internal, Seq::empty()),
        },
    }
}

/// `b` is `a` with the access of its commands set from the configuration.
pub open spec fn access_applied(cfg: AppConfig, a: AggregateIR, b: AggregateIR) -> bool {
    &&& b.name == a.name
    &&& b.source_path == a.source_path
    &&& b.state == a.state
    &&& b.initial_state == a.initial_state
    &&& b.events == a.events
    &&& b.raw_apply_body == a.raw_apply_body
    &&& b.commands@.len() == a.commands@.len()
    &&& forall|j: int| 0 <= j < a.commands@.len() ==> #[trigger] command_applied(cfg, a.name@, a.commands@[j], b.commands@[j])
}

/// `d` is the command `c` of the entity `entity` with its configured access.
pub open spec fn command_applied(cfg: AppConfig, entity: Seq<char>, c: CommandIR, d: CommandIR) -> bool {
    &&& d.name == c.name
    &&& d.parameters == c.parameters
    &&& d.body == c.body
    &&& (d.access, d.roles@) == spec_command_access(cfg, entity, c.name@)
}

fn entity_config_for<'a>(cfg: &'a AppConfig, name: &str) -> (r: Option<&'a EntityAccessConfig>)
    ensures
        match lookup(cfg.entities@, name@) {
            Some(e) => r == Some(&e),
            None => match lookup(cfg.entities@, name@ + "Aggregate"@) {
                Some(e) => r == Some(&e),
                None => r is None,
            },
        },
{
    match find_key(&cfg.entities, name) {
        Some(i) => Some(&cfg.entities[i].1),
        None => {
            let mut alt = crate::text::to_owned_string(name);
            alt.append("Aggregate");
            match find_key(&cfg.entities, alt.as_str()) {
                Some(i) => Some(&cfg.entities[i].1),
                None => None,
            }
        },
    }
}

fn apply_to_aggregate(a: AggregateIR, cfg: &AppConfig) -> (r: AggregateIR)
    ensures
        access_applied(*cfg, a, r),
{
    let entity = entity_config_for(cfg, a.name.as_str());
    let ghost orig = a;
    let mut a = a;
    let mut cmds: Vec<CommandIR> = Vec::new();
    std::mem::swap(&mut cmds, &mut a.commands);
    let ghost all = cmds@;
    let n = cmds.len();
    let mut i: usize = 0;
    while cmds.len() > 0
        invariant
            all == orig.commands@,
            i + cmds@.len() == all.len(),
            cmds@ == all.subrange(i as int, all.len() as int),
            a.name == orig.name,
            a.source_path == orig.source_path,
            a.state == orig.state,
            a.initial_state == orig.initial_state,
            a.events == orig.events,
            a.raw_apply_body == orig.raw_apply_body,
            a.commands@.len() == i,
            match lookup(cfg.entities@, orig.name@) {
                Some(e) => entity == Some(&e),
                None => match lookup(cfg.entities@, orig.name@ + "Aggregate"@) {
                    Some(e) => entity == Some(&e),
                    None => entity is None,
                },
            },
            all.len() == n,
            forall|j: int| 0 <= j < i ==> #[trigger] command_applied(*cfg, orig.name@, all[j], a.commands@[j]),
        decreases cmds@.len(),
    {
        let mut cmd = cmds.remove(0);
        proof {
            assert(cmd == all[i as int]);
        }
        match entity {
            Some(e) => {
                let m = e.resolve_method(cmd.name.as_str());
                cmd.access = m.access;
                cmd.roles = m.roles;
            },
            None => {
                cmd.access = AccessLevel::Internal;
                cmd.roles = Vec::new();
            },
        }
        let ghost before = a.commands@;
        a.commands.push(cmd);
        proof {
            assert(cmds@ =~= all.subrange(i + 1, all.len() as int));
            assert forall|j: int| 0 <= j < i + 1 implies #[trigger] command_applied(
                *cfg,
                orig.name@,
                all[j],
                a.commands@[j],
            ) by {
                if j < i {
                    assert(a.commands@[j] == before[j]);
                    assert(command_applied(*cfg, orig.name@, all[j], before[j]));
                }
            }
        }
        i = i + 1;
    }
    a
}

/// Applies the access configuration of the application to the commands of
/// every aggregate: method-specific configuration, else the entity's
/// defaults, else internal without roles.
pub fn apply_access_config(domain: &mut DomainIR, app_config: &AppConfig)
    ensures
        final(domain).aggregates@.len() == old(domain).aggregates@.len(),
        forall|k: int|
            0 <= k < old(domain).aggregates@.len() ==> access_applied(
                *app_config,
                old(domain).aggregates@[k],
                #[trigger] final(domain).aggregates@[k],
            ),
        final(domain).orchestrators == old(domain).orchestrators,
        final(domain).projections == old(domain).projections,
        final(domain).source_dir == old(domain).source_dir,
        final(domain).app_config == old(domain).app_config,
{
    let mut aggs: Vec<AggregateIR> = Vec::new();
    std::mem::swap(&mut aggs, &mut domain.aggregates);
    let ghost all = aggs@;
    let n = aggs.len();
    let mut i: usize = 0;
    while aggs.len() > 0
        invariant
            all == old(domain).aggregates@,
            i + aggs@.len() == all.len(),
            aggs@ == all.subrange(i as int, all.len() as int),
            domain.aggregates@.len() == i,
            all.len() == n,
            domain.orchestrators == old(domain).orchestrators,
            domain.projections == old(domain).projections,
            domain.source_dir == old(domain).source_dir,
            domain.app_config == old(domain).app_config,
            forall|k: int| 0 <= k < i ==> access_applied(*app_config, all[k], #[trigger] domain.aggregates@[k]),
        decreases aggs@.len(),
    {
        let a = aggs.remove(0);
        proof {
            assert(a == all[i as int]);
        }
        let b = apply_to_aggregate(a, app_config);
        let ghost before = domain.aggregates@;
        domain.aggregates.push(b);
        proof {
            assert(aggs@ =~= all.subrange(i + 1, all.len() as int));
            assert forall|k: int| 0 <= k < i + 1 implies access_applied(*app_config, all[k], #[trigger] domain.aggregates@[k]) by {
                if k < i {
                    assert(domain.aggregates@[k] == before[k]);
                }
            }
        }
        i = i + 1;
    }
}

} // verus!
