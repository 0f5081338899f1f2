//! Upcast generation: TypeScript functions that bring events stored under an
//! older schema version to the current one when the change was non-breaking
//! (optional fields were added), and the registry that applies them.

use vstd::prelude::*;

use crate::codegen::ts_types::{spec_snake_case, to_snake_case as snake_case};
use crate::ir::assoc::{find_key, lookup};
use crate::schema::diff::{changes_view, spec_added_optional, spec_is_breaking, FieldChangeView, SchemaDiff};
use crate::schema::lock::FieldSchemaView;
use crate::text::{lemma_flatten_new_step, lemma_join_new_step, seq_flatten, seq_join, spec_nat_decimal, u64_to_string};

verus! {

/// Strategy for upcasting events from one version to the next.
#[derive(Debug)]
pub enum UpcastStrategy {
    /// Upcast that adds optional fields with their defaults: (name, default JSON).
    Auto { added_fields: Vec<(String, String)> },
    /// Upcast by a function the user provides.
    Custom { function_name: String },
}

/// Generator of upcast TypeScript code.
pub struct UpcastGenerator;

/// Converts a PascalCase name to snake_case.
pub fn to_snake_case(s: &str) -> (r: String)
    ensures
        r@ == spec_snake_case(s@),
{
    snake_case(s)
}

/// `upcast<Aggregate>_<Event>_v<from>_to_v<to>`.
pub open spec fn spec_upcast_fn_name(aggregate: Seq<char>, event: Seq<char>, from: nat, to: nat) -> Seq<char> {
    "upcast"@ + aggregate + "_"@ + event + "_v"@ + spec_nat_decimal(from) + "_to_v"@ + spec_nat_decimal(to)
}

fn upcast_fn_name(aggregate: &str, event: &str, from: u32, to: u32) -> (r: String)
    ensures
        r@ == spec_upcast_fn_name(aggregate@, event@, from as nat, to as nat),
{
    let mut out = crate::text::to_owned_string("upcast");
    out.append(aggregate);
    out.append("_");
    out.append(event);
    out.append("_v");
    let f = u64_to_string(from as u64);
    out.append(f.as_str());
    out.append("_to_v");
    let t = u64_to_string(to as u64);
    out.append(t.as_str());
    out
}

/// The default JSON of an added field, `null` when it has none.
pub open spec fn spec_default_text(s: FieldSchemaView) -> Seq<char> {
    match s.2 {
        Some(d) => d,
        None => "null"@,
    }
}

/// The added optional fields of a diff.
pub open spec fn diff_added(d: SchemaDiff) -> Seq<(Seq<char>, FieldSchemaView)> {
    spec_added_optional(changes_view(d.changes@), d.changes@.len() as int)
}

/// The assignments of the added fields in a module upcast, each noting the
/// version that added it.
pub open spec fn spec_module_field_lines(d: SchemaDiff, cv: u32) -> Seq<char> {
    let added = diff_added(d);
    seq_join(
        Seq::new(
            added.len(),
            |k: int| "    "@ + added[k].0 + ": "@ + spec_default_text(added[k].1) + ",  // Added in v"@ + spec_nat_decimal(
                cv as nat,
            ),
        ),
        "\n"@,
    )
}

/// The assignments of the added fields in a single upcast.
pub open spec fn spec_diff_field_lines(d: SchemaDiff) -> Seq<char> {
    let added = diff_added(d);
    seq_join(Seq::new(added.len(), |k: int| "    "@ + added[k].0 + ": "@ + spec_default_text(added[k].1) + ","@), "\n"@)
}

/// Whether a diff can be upcast automatically.
pub open spec fn spec_can_auto_upcast(d: SchemaDiff) -> bool {
    d.changes@.len() > 0 && forall|k: int| 0 <= k < d.changes@.len() ==> !spec_is_breaking(#[trigger] d.changes@[k]@)
}

/// The current version of an event: its entry in `cvs`, else 1.
pub open spec fn spec_current_version(cvs: Seq<(String, u32)>, event: Seq<char>) -> u32 {
    match lookup(cvs, event) {
        Some(v) => v,
        None => 1,
    }
}

/// The greatest current version, 1 when there is none.
pub open spec fn spec_max_version(cvs: Seq<(String, u32)>) -> u32
    decreases cvs.len(),
{
    if cvs.len() == 0 {
        1
    } else if cvs.len() == 1 {
        cvs[0].1
    } else {
        let m = spec_max_version(cvs.drop_last());
        if cvs.last().1 > m {
            cvs.last().1
        } else {
            m
        }
    }
}

/// The module's current version is the greatest of the current versions: no
/// listed version exceeds it, one of them equals it, and it is 1 when the
/// list is empty.
pub proof fn law_max_version_is_greatest(cvs: Seq<(String, u32)>)
    ensures
        cvs.len() == 0 ==> spec_max_version(cvs) == 1,
        forall|i: int| 0 <= i < cvs.len() ==> #[trigger] cvs[i].1 <= spec_max_version(cvs),
        cvs.len() > 0 ==> exists|i: int| 0 <= i < cvs.len() && #[trigger] cvs[i].1 == spec_max_version(cvs),
    decreases cvs.len(),
{
    if cvs.len() > 1 {
        let p = cvs.drop_last();
        law_max_version_is_greatest(p);
        assert forall|i: int| 0 <= i < cvs.len() implies #[trigger] cvs[i].1 <= spec_max_version(cvs) by {
            if i < cvs.len() - 1 {
                assert(cvs[i] == p[i]);
            }
        }
        if cvs.last().1 > spec_max_version(p) {
            assert(cvs[cvs.len() - 1].1 == spec_max_version(cvs));
        } else {
            let j = choose|j: int| 0 <= j < p.len() && #[trigger] p[j].1 == spec_max_version(p);
            assert(cvs[j] == p[j]);
            assert(cvs[j].1 == spec_max_version(cvs));
        }
    } else if cvs.len() == 1 {
        assert(cvs[0].1 == spec_max_version(cvs));
    }
}

/// Whether the module covers diff `d`: it is of this aggregate and upcasts automatically.
pub open spec fn is_module_diff(n: Seq<char>, d: SchemaDiff) -> bool {
    d.aggregate@ == n && spec_can_auto_upcast(d)
}

pub const UM_HEAD_0: &'static str = r#"/**
 * Auto-generated event upcasters for "#;
pub const UM_HEAD_1: &'static str = r#" aggregate.
 * DO NOT EDIT - regenerate with `spitestack compile`
 */

"#;

pub const UM_FN_0: &'static str = "// Version ";
pub const UM_FN_1: &'static str = " -> Version ";
pub const UM_FN_2: &'static str = " upcast for ";
pub const UM_FN_3: &'static str = r#"
export function "#;
pub const UM_FN_4: &'static str = "(event: Record<string, unknown>): ";
pub const UM_FN_5: &'static str = r#"Event {
  return {
    ...event,
"#;
pub const UM_FN_6: &'static str = r#"
  } as "#;
pub const UM_FN_7: &'static str = r#"Event;
}

"#;

pub const UM_TAIL_0: &'static str = "const CURRENT_VERSION = ";
pub const UM_TAIL_1: &'static str = r#";

/**
 * Apply upcasts to bring an event to the current schema version.
 *
 * @param event - The raw event data from storage
 * @param storedVersion - The schema version the event was stored with
 * @returns The event transformed to current schema version
 */
export function upcast"#;
pub const UM_TAIL_2: &'static str = "Event(event: Record<string, unknown>, storedVersion: number): ";
pub const UM_TAIL_3: &'static str = r#"Event {
  const eventType = event.type as string;
  const upcasters = "#;
pub const UM_TAIL_4: &'static str = r#"UpcastRegistry[eventType];

  if (!upcasters) {
    // No upcasters for this event type, return as-is
    return event as "#;
pub const UM_TAIL_5: &'static str = r#"Event;
  }

  let current = event;
  for (let v = storedVersion; v < CURRENT_VERSION; v++) {
    const upcast = upcasters[v];
    if (upcast) {
      current = upcast(current);
    }
  }

  return current as "#;
pub const UM_TAIL_6: &'static str = r#"Event;
}
"#;

/// The upcast function of one covered diff.
pub open spec fn spec_module_function(n: Seq<char>, d: SchemaDiff, cvs: Seq<(String, u32)>) -> Seq<char> {
    let cv = spec_current_version(cvs, d.event@);
    UM_FN_0@ + spec_nat_decimal((cv - 1) as nat) + UM_FN_1@ + spec_nat_decimal(cv as nat) + UM_FN_2@ + d.event@ + UM_FN_3@ + spec_upcast_fn_name(n, d.event@, (cv - 1) as nat, cv as nat) + UM_FN_4@ + n + UM_FN_5@ + spec_module_field_lines(d, cv) + UM_FN_6@ + n + UM_FN_7@
}

/// A registry entry: event name, version upcast from, function name.
pub type RegistryEntry = (Seq<char>, nat, Seq<char>);

/// The registry entries of the first `k` diffs.
pub open spec fn spec_registry_entries(n: Seq<char>, ds: Seq<SchemaDiff>, cvs: Seq<(String, u32)>, k: int) -> Seq<
    RegistryEntry,
>
    decreases k,
{
    if k <= 0 || k > ds.len() {
        Seq::empty()
    } else {
        let prev = spec_registry_entries(n, ds, cvs, k - 1);
        let d = ds[k - 1];
        if is_module_diff(n, d) {
            let cv = spec_current_version(cvs, d.event@);
            prev.push((d.event@, (cv - 1) as nat, spec_upcast_fn_name(n, d.event@, (cv - 1) as nat, cv as nat)))
        } else {
            prev
        }
    }
}

/// The distinct event names of the first `k` entries, in order of first occurrence.
pub open spec fn spec_registry_events(es: Seq<RegistryEntry>, k: int) -> Seq<Seq<char>>
    decreases k,
{
    if k <= 0 || k > es.len() {
        Seq::empty()
    } else {
        let prev = spec_registry_events(es, k - 1);
        if prev.contains(es[k - 1].0) {
            prev
        } else {
            prev.push(es[k - 1].0)
        }
    }
}

/// The registry lines of the entries of event `e`, in order.
pub open spec fn spec_registry_versions(es: Seq<RegistryEntry>, e: Seq<char>) -> Seq<char> {
    seq_flatten(
        Seq::new(
            es.len(),
            |k: int| if es[k].0 == e {
                "    "@ + spec_nat_decimal(es[k].1) + ": "@ + es[k].2 + ",\n"@
            } else {
                Seq::empty()
            },
        ),
    )
}

/// The registry block of event `e`.
pub open spec fn spec_registry_group(es: Seq<RegistryEntry>, e: Seq<char>) -> Seq<char> {
    "  "@ + e + ": {\n"@ + spec_registry_versions(es, e) + "  },\n"@
}

/// The upcast module of an aggregate: a function per covered diff, the
/// registry of those functions grouped by event, and the function that applies
/// them up to the current version.
pub open spec fn spec_upcast_module(n: Seq<char>, ds: Seq<SchemaDiff>, cvs: Seq<(String, u32)>) -> Seq<char> {
    let es = spec_registry_entries(n, ds, cvs, ds.len() as int);
    let events = spec_registry_events(es, es.len() as int);
    UM_HEAD_0@ + n + UM_HEAD_1@ + "import type { "@ + n + "Event } from '../../../../domain/"@ + n + "/events';\n\n"@
        + seq_flatten(Seq::new(ds.len(), |k: int| if is_module_diff(n, ds[k]) {
            spec_module_function(n, ds[k], cvs)
        } else {
            Seq::empty()
        }))
        + "// Event upcast registry\n"@
        + "export const "@ + spec_snake_case(n) + "UpcastRegistry: Record<string, Record<number, (event: Record<string, unknown>) => "@ + n + "Event>> = {\n"@
        + seq_flatten(Seq::new(events.len(), |k: int| spec_registry_group(es, events[k])))
        + "};\n\n"@
        + UM_TAIL_0@ + spec_nat_decimal(spec_max_version(cvs) as nat) + UM_TAIL_1@ + n + UM_TAIL_2@ + n + UM_TAIL_3@ + spec_snake_case(n) + UM_TAIL_4@ + n + UM_TAIL_5@ + n + UM_TAIL_6@
}

pub const UD_0: &'static str = "export function ";
pub const UD_1: &'static str = r#"(event: Record<string, unknown>): unknown {
  return {
    ...event,
"#;
pub const UD_2: &'static str = r#"
  };
}"#;

/// The single upcast of a diff.
pub open spec fn spec_upcast_from_diff(aggregate: Seq<char>, d: SchemaDiff, from: u32, to: u32) -> Seq<char> {
    UD_0@ + spec_upcast_fn_name(aggregate, d.event@, from as nat, to as nat) + UD_1@ + spec_diff_field_lines(d) + UD_2@
}


fn current_version(cvs: &Vec<(String, u32)>, event: &str) -> (r: u32)
    ensures
        r == spec_current_version(cvs@, event@),
{
    match find_key(cvs, event) {
        Some(i) => cvs[i].1,
        None => 1,
    }
}

fn max_version(cvs: &Vec<(String, u32)>) -> (r: u32)
    ensures
        r == spec_max_version(cvs@),
{
    if cvs.len() == 0 {
        return 1;
    }
    let mut m = cvs[0].1;
    let mut i: usize = 1;
    proof {
        assert(cvs@.subrange(0, 1) =~= seq![cvs@[0]]);
    }
    while i < cvs.len()
        invariant
            1 <= i <= cvs@.len(),
            m == spec_max_version(cvs@.subrange(0, i as int)),
        decreases cvs.len() - i,
    {
        proof {
            assert(cvs@.subrange(0, i + 1).drop_last() =~= cvs@.subrange(0, i as int));
        }
        if cvs[i].1 > m {
            m = cvs[i].1;
        }
        i = i + 1;
    }
    proof {
        assert(cvs@.subrange(0, cvs@.len() as int) =~= cvs@);
    }
    m
}

/// The assignment lines of a diff's added fields: `    name: default,` and,
/// when `note` is given, the version that added the field.
fn field_lines(d: &SchemaDiff, note: Option<u32>) -> (r: String)
    ensures
        match note {
            Some(cv) => r@ == spec_module_field_lines(*d, cv),
            None => r@ == spec_diff_field_lines(*d),
        },
{
    let added = d.added_optional_fields();
    let ghost av = diff_added(*d);
    let ghost f = |k: int| match note {
        Some(cv) => "    "@ + av[k].0 + ": "@ + spec_default_text(av[k].1) + ",  // Added in v"@ + spec_nat_decimal(cv as nat),
        None => "    "@ + av[k].0 + ": "@ + spec_default_text(av[k].1) + ","@,
    };
    let mut out = String::new();
    let mut i: usize = 0;
    while i < added.len()
        invariant
            i <= added@.len(),
            av == added@.map_values(|e: (&str, &crate::schema::lock::FieldSchema)| (e.0@, e.1@)),
            f == (|k: int| match note {
                Some(cv) => "    "@ + av[k].0 + ": "@ + spec_default_text(av[k].1) + ",  // Added in v"@ + spec_nat_decimal(cv as nat),
                None => "    "@ + av[k].0 + ": "@ + spec_default_text(av[k].1) + ","@,
            }),
            out@ == seq_join(Seq::new(i as nat, f), "\n"@),
        decreases added.len() - i,
    {
        if i > 0 {
            out.append("\n");
        }
        let (name, schema) = added[i];
        proof {
            assert(av[i as int] == (name@, schema@));
        }
        out.append("    ");
        out.append(name);
        out.append(": ");
        match &schema.default {
            Some(t) => out.append(t.as_str()),
            None => out.append("null"),
        }
        match note {
            Some(cv) => {
                out.append(",  // Added in v");
                let v = u64_to_string(cv as u64);
                out.append(v.as_str());
            },
            None => out.append(","),
        }
        proof {
            lemma_join_new_step(f, "\n"@, i as int);
        }
        i = i + 1;
    }
    proof {
        match note {
            Some(cv) => {
                assert(Seq::new(av.len(), f) =~= Seq::new(
                    av.len(),
                    |k: int| "    "@ + av[k].0 + ": "@ + spec_default_text(av[k].1) + ",  // Added in v"@ + spec_nat_decimal(cv as nat),
                ));
            },
            None => {
                assert(Seq::new(av.len(), f) =~= Seq::new(
                    av.len(),
                    |k: int| "    "@ + av[k].0 + ": "@ + spec_default_text(av[k].1) + ","@,
                ));
            },
        }
    }
    out
}

fn module_function(aggregate_name: &str, d: &SchemaDiff, cvs: &Vec<(String, u32)>) -> (r: String)
    requires
        spec_current_version(cvs@, d.event@) >= 1,
    ensures
        r@ == spec_module_function(aggregate_name@, *d, cvs@),
{
    let ghost n = aggregate_name@;
    let cv = current_version(cvs, d.event.as_str());
    let from_text = u64_to_string((cv - 1) as u64);
    let cur_text = u64_to_string(cv as u64);
    let func = upcast_fn_name(aggregate_name, d.event.as_str(), cv - 1, cv);
    let fields = field_lines(d, Some(cv));
    let mut out = crate::text::to_owned_string(UM_FN_0);
    out.append(from_text.as_str());
    out.append(UM_FN_1);
    out.append(cur_text.as_str());
    out.append(UM_FN_2);
    out.append(d.event.as_str());
    out.append(UM_FN_3);
    out.append(func.as_str());
    out.append(UM_FN_4);
    out.append(aggregate_name);
    out.append(UM_FN_5);
    out.append(fields.as_str());
    out.append(UM_FN_6);
    out.append(aggregate_name);
    out.append(UM_FN_7);
    out
}

impl UpcastGenerator {
    /// Generates the upcast module of an aggregate. `current_versions` holds
    /// the current schema version of each event (1 when absent).
    pub fn generate_upcast_module(aggregate_name: &str, diffs: &[SchemaDiff], current_versions: &Vec<(String, u32)>) -> (r: String)
        requires
            forall|k: int|
                0 <= k < diffs@.len() && is_module_diff(aggregate_name@, #[trigger] diffs@[k]) ==> spec_current_version(
                    current_versions@,
                    diffs@[k].event@,
                ) >= 1,
        ensures
            r@ == spec_upcast_module(aggregate_name@, diffs@, current_versions@),
    {
        let ghost n = aggregate_name@;
        let ghost ds = diffs@;
        let ghost cvs = current_versions@;
        let lower = snake_case(aggregate_name);
        let mut out = crate::text::to_owned_string(UM_HEAD_0);
        out.append(aggregate_name);
        out.append(UM_HEAD_1);
        out.append("import type { ");
        out.append(aggregate_name);
        out.append("Event } from '../../../../domain/");
        out.append(aggregate_name);
        out.append("/events';\n\n");
        let ghost ff = |k: int| if is_module_diff(n, ds[k]) { spec_module_function(n, ds[k], cvs) } else { Seq::empty() };
        let mut functions = String::new();
        let mut entries: Vec<(String, u32, String)> = Vec::new();
        let mut i: usize = 0;
        while i < diffs.len()
            invariant
                i <= ds.len(),
                ds == diffs@,
                n == aggregate_name@,
                cvs == current_versions@,
                forall|k: int|
                    0 <= k < ds.len() && is_module_diff(n, #[trigger] ds[k]) ==> spec_current_version(cvs, ds[k].event@) >= 1,
                ff == (|k: int| if is_module_diff(n, ds[k]) { spec_module_function(n, ds[k], cvs) } else { Seq::empty() }),
                functions@ == seq_flatten(Seq::new(i as nat, ff)),
                entries@.map_values(|e: (String, u32, String)| (e.0@, e.1 as nat, e.2@)) == spec_registry_entries(n, ds, cvs, i as int),
            decreases diffs.len() - i,
        {
            let d = &diffs[i];
            let covered = crate::text::str_eq(d.aggregate.as_str(), aggregate_name) && d.can_auto_upcast();
            let ghost before = entries@;
            if covered {
                let f = module_function(aggregate_name, d, current_versions);
                functions.append(f.as_str());
                let cv = current_version(current_versions, d.event.as_str());
                let func = upcast_fn_name(aggregate_name, d.event.as_str(), cv - 1, cv);
                entries.push((d.event.clone(), cv - 1, func));
                proof {
                    assert(entries@.map_values(|e: (String, u32, String)| (e.0@, e.1 as nat, e.2@)) =~= before.map_values(
                        |e: (String, u32, String)| (e.0@, e.1 as nat, e.2@),
                    ).push((d.event@, (cv - 1) as nat, spec_upcast_fn_name(n, d.event@, (cv - 1) as nat, cv as nat))));
                }
            }
            proof {
                lemma_flatten_new_step(ff, i as int);
            }
            i = i + 1;
        }
        out.append(functions.as_str());
        out.append("// Event upcast registry\n");
        out.append("export const ");
        out.append(lower.as_str());
        out.append("UpcastRegistry: Record<string, Record<number, (event: Record<string, unknown>) => ");
        out.append(aggregate_name);
        out.append("Event>> = {\n");
        let groups = registry_groups(&entries);
        out.append(groups.as_str());
        out.append("};\n\n");
        let max = max_version(current_versions);
        let max_text = u64_to_string(max as u64);
        out.append(UM_TAIL_0);
        out.append(max_text.as_str());
        out.append(UM_TAIL_1);
        out.append(aggregate_name);
        out.append(UM_TAIL_2);
        out.append(aggregate_name);
        out.append(UM_TAIL_3);
        out.append(lower.as_str());
        out.append(UM_TAIL_4);
        out.append(aggregate_name);
        out.append(UM_TAIL_5);
        out.append(aggregate_name);
        out.append(UM_TAIL_6);
        out
    }

    /// Generates the upcast of a single event from its diff, or nothing when
    /// the diff cannot be upcast automatically or adds no optional field.
    pub fn generate_upcast_from_diff(aggregate: &str, diff: &SchemaDiff, from_version: u32, to_version: u32) -> (r: Option<String>)
        ensures
            match r {
                Some(code) => spec_can_auto_upcast(*diff) && diff_added(*diff).len() > 0
                    && code@ == spec_upcast_from_diff(aggregate@, *diff, from_version, to_version),
                None => !spec_can_auto_upcast(*diff) || diff_added(*diff).len() == 0,
            },
    {
        let d = diff;
        let from = from_version;
        let to = to_version;
        if !diff.can_auto_upcast() {
            return None;
        }
        let added = diff.added_optional_fields();
        if added.len() == 0 {
            return None;
        }
        let func = upcast_fn_name(aggregate, diff.event.as_str(), from_version, to_version);
        let fields = field_lines(diff, None);
        let mut out = crate::text::to_owned_string(UD_0);
        out.append(func.as_str());
        out.append(UD_1);
        out.append(fields.as_str());
        out.append(UD_2);
        Some(out)
    }
}

/// The registry blocks of the entries, one per event in order of first occurrence.
pub open spec fn spec_registry_groups(es: Seq<RegistryEntry>) -> Seq<char> {
    let events = spec_registry_events(es, es.len() as int);
    seq_flatten(Seq::new(events.len(), |k: int| spec_registry_group(es, events[k])))
}

fn registry_group(entries: &Vec<(String, u32, String)>, event: &str) -> (r: String)
    ensures
        r@ == spec_registry_group(entries@.map_values(|e: (String, u32, String)| (e.0@, e.1 as nat, e.2@)), event@),
{
    let ghost es = entries@.map_values(|e: (String, u32, String)| (e.0@, e.1 as nat, e.2@));
    let ghost f = |k: int| if es[k].0 == event@ { "    "@ + spec_nat_decimal(es[k].1) + ": "@ + es[k].2 + ",\n"@ } else { Seq::empty() };
    let mut lines = String::new();
    let mut i: usize = 0;
    while i < entries.len()
        invariant
            i <= entries@.len(),
            es == entries@.map_values(|e: (String, u32, String)| (e.0@, e.1 as nat, e.2@)),
            f == (|k: int| if es[k].0 == event@ { "    "@ + spec_nat_decimal(es[k].1) + ": "@ + es[k].2 + ",\n"@ } else { Seq::empty() }),
            lines@ == seq_flatten(Seq::new(i as nat, f)),
        decreases entries.len() - i,
    {
        let e = &entries[i];
        proof {
            assert(es[i as int] == (e.0@, e.1 as nat, e.2@));
        }
        if crate::text::str_eq(e.0.as_str(), event) {
            lines.append("    ");
            let v = u64_to_string(e.1 as u64);
            lines.append(v.as_str());
            lines.append(": ");
            lines.append(e.2.as_str());
            lines.append(",\n");
        }
        proof {
            lemma_flatten_new_step(f, i as int);
        }
        i = i + 1;
    }
    let mut out = crate::text::to_owned_string("  ");
    out.append(event);
    out.append(": {\n");
    out.append(lines.as_str());
    out.append("  },\n");
    out
}

fn registry_groups(entries: &Vec<(String, u32, String)>) -> (r: String)
    ensures
        r@ == spec_registry_groups(entries@.map_values(|e: (String, u32, String)| (e.0@, e.1 as nat, e.2@))),
{
    let ghost es = entries@.map_values(|e: (String, u32, String)| (e.0@, e.1 as nat, e.2@));
    let mut events: Vec<String> = Vec::new();
    let mut i: usize = 0;
    while i < entries.len()
        invariant
            i <= entries@.len(),
            es == entries@.map_values(|e: (String, u32, String)| (e.0@, e.1 as nat, e.2@)),
            events@.map_values(|s: String| s@) == spec_registry_events(es, i as int),
        decreases entries.len() - i,
    {
        let name = &entries[i].0;
        let ghost acc = spec_registry_events(es, i as int);
        let mut found = false;
        let mut j: usize = 0;
        while j < events.len()
            invariant
                j <= events@.len(),
                acc == events@.map_values(|s: String| s@),
                found <==> exists|m: int| 0 <= m < j && #[trigger] acc[m] == name@,
            decreases events.len() - j,
        {
            proof {
                assert(acc[j as int] == events@[j as int]@);
            }
            if crate::text::str_eq(events[j].as_str(), name.as_str()) {
                found = true;
            }
            j = j + 1;
        }
        proof {
            assert(es[i as int].0 == name@);
            if found {
                assert(acc.contains(name@));
            } else {
                assert(!acc.contains(name@)) by {
                    if acc.contains(name@) {
                        let m = choose|m: int| 0 <= m < acc.len() && acc[m] == name@;
                        assert(acc[m] == name@);
                    }
                }
            }
        }
        if !found {
            let ghost before = events@;
            events.push(name.clone());
            proof {
                assert(events@.map_values(|s: String| s@) =~= before.map_values(|s: String| s@).push(name@));
            }
        }
        i = i + 1;
    }
    let ghost evs = events@.map_values(|s: String| s@);
    let ghost f = |k: int| spec_registry_group(es, evs[k]);
    let mut out = String::new();
    let mut k: usize = 0;
    while k < events.len()
        invariant
            k <= events@.len(),
            es == entries@.map_values(|e: (String, u32, String)| (e.0@, e.1 as nat, e.2@)),
            evs == events@.map_values(|s: String| s@),
            f == (|k: int| spec_registry_group(es, evs[k])),
            out@ == seq_flatten(Seq::new(k as nat, f)),
        decreases events.len() - k,
    {
        let g = registry_group(entries, events[k].as_str());
        proof {
            assert(evs[k as int] == events@[k as int]@);
        }
        out.append(g.as_str());
        proof {
            lemma_flatten_new_step(f, k as int);
        }
        k = k + 1;
    }
    out
}

} // verus!
