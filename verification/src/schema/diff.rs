//! Change detection between the event schemas of the lock file and those of
//! the current code. A change is non-breaking when old events can be upcast
//! automatically (adding an optional field); anything else is breaking.

use vstd::prelude::*;

use crate::ir::aggregate::{AggregateIR, EventVariant};
use crate::ir::assoc::{find_key, has_key};
use crate::ir::DomainIR;
use crate::schema::lock::{
    clone_field_schema, fields_schema, fields_view, first_key_index, is_aggregate_lock, is_lock_file_of,
    lemma_first_key_index, spec_aggregate_slots, spec_event_slots, spec_fields_schema, view_insert, AggregateLock,
    EventSchema, FieldSchema, FieldSchemaView, SchemaLockFile,
};
use crate::text::{lemma_join_new_step, seq_join};

verus! {

/// A change to a single field.
#[derive(Debug)]
pub enum FieldChange {
    /// A new field was added.
    Added { name: String, schema: FieldSchema },
    /// A field was removed.
    Removed { name: String, schema: FieldSchema },
    /// A field's type changed.
    TypeChanged { name: String, old_type: String, new_type: String },
    /// A field's required status changed; `was_optional` tells the direction.
    RequiredChanged { name: String, was_optional: bool },
}

/// The abstract value of a field change.
pub enum FieldChangeView {
    Added(Seq<char>, FieldSchemaView),
    Removed(Seq<char>, FieldSchemaView),
    TypeChanged(Seq<char>, Seq<char>, Seq<char>),
    RequiredChanged(Seq<char>, bool),
}

impl View for FieldChange {
    type V = FieldChangeView;

    open spec fn view(&self) -> FieldChangeView {
        match self {
            FieldChange::Added { name, schema } => FieldChangeView::Added(name@, schema@),
            FieldChange::Removed { name, schema } => FieldChangeView::Removed(name@, schema@),
            FieldChange::TypeChanged { name, old_type, new_type } => FieldChangeView::TypeChanged(
                name@,
                old_type@,
                new_type@,
            ),
            FieldChange::RequiredChanged { name, was_optional } => FieldChangeView::RequiredChanged(
                name@,
                *was_optional,
            ),
        }
    }
}

/// Whether a change breaks old events: adding a required field, removing a
/// field, changing a type, or making an optional field required.
pub open spec fn spec_is_breaking(c: FieldChangeView) -> bool {
    match c {
        FieldChangeView::Added(_, schema) => schema.1,
        FieldChangeView::Removed(..) => true,
        FieldChangeView::TypeChanged(..) => true,
        FieldChangeView::RequiredChanged(_, was_optional) => was_optional,
    }
}

impl FieldChange {
    /// Whether this change is breaking.
    pub fn is_breaking(&self) -> (r: bool)
        ensures
            r == spec_is_breaking(self@),
    {
        match self {
            FieldChange::Added { schema, .. } => schema.required,
            FieldChange::Removed { .. } => true,
            FieldChange::TypeChanged { .. } => true,
            FieldChange::RequiredChanged { was_optional, .. } => *was_optional,
        }
    }
}

/// Type of change, for summaries.
#[derive(Debug, Clone, Copy, PartialEq, Eq, Structural)]
pub enum ChangeType {
    /// Non-breaking change that can be upcast automatically.
    NonBreaking,
    /// Breaking change that requires a new event type.
    Breaking,
}

/// The changes to one event.
#[derive(Debug)]
pub struct SchemaDiff {
    /// Aggregate name.
    pub aggregate: String,
    /// Event name.
    pub event: String,
    /// The field changes.
    pub changes: Vec<FieldChange>,
}

/// The views of a list of changes.
pub open spec fn changes_view(cs: Seq<FieldChange>) -> Seq<FieldChangeView> {
    cs.map_values(|c: FieldChange| c@)
}

/// The added optional fields among the first `n` changes, by name and schema.
pub open spec fn spec_added_optional(cs: Seq<FieldChangeView>, n: int) -> Seq<(Seq<char>, FieldSchemaView)>
    decreases n,
{
    if n <= 0 || n > cs.len() {
        Seq::empty()
    } else {
        let prev = spec_added_optional(cs, n - 1);
        match cs[n - 1] {
            FieldChangeView::Added(name, schema) => if !schema.1 {
                prev.push((name, schema))
            } else {
                prev
            },
            _ => prev,
        }
    }
}

/// The display line of one change, with its breaking marker.
pub open spec fn spec_change_line(c: FieldChangeView) -> Seq<char> {
    let desc = match c {
        FieldChangeView::Added(name, schema) => "+ Field '"@ + name + "': "@ + schema.0 + (if schema.1 {
            Seq::empty()
        } else {
            "?"@
        }) + match schema.2 {
            Some(d) => " = "@ + d,
            None => Seq::empty(),
        },
        FieldChangeView::Removed(name, _) => "- Field '"@ + name + "' removed"@,
        FieldChangeView::TypeChanged(name, old_type, new_type) => "~ Field '"@ + name + "' type changed: "@
            + old_type + " -> "@ + new_type,
        FieldChangeView::RequiredChanged(name, was_optional) => if was_optional {
            "~ Field '"@ + name + "' changed from optional to required"@
        } else {
            "~ Field '"@ + name + "' changed from required to optional"@
        },
    };
    "  "@ + desc + " "@ + (if spec_is_breaking(c) { "(BREAKING)"@ } else { "(OK)"@ })
}

/// The display text of a diff: one line per change.
pub open spec fn spec_format_changes(cs: Seq<FieldChangeView>) -> Seq<char> {
    seq_join(Seq::new(cs.len(), |k: int| spec_change_line(cs[k])), "\n"@)
}

fn change_line(c: &FieldChange) -> (r: String)
    ensures
        r@ == spec_change_line(c@),
{
    let mut out = crate::text::to_owned_string("  ");
    match c {
        FieldChange::Added { name, schema } => {
            out.append("+ Field '");
            out.append(name.as_str());
            out.append("': ");
            out.append(schema.typ.as_str());
            if !schema.required {
                out.append("?");
            }
            match &schema.default {
                Some(d) => {
                    out.append(" = ");
                    out.append(d.as_str());
                },
                None => {},
            }
        },
        FieldChange::Removed { name, .. } => {
            out.append("- Field '");
            out.append(name.as_str());
            out.append("' removed");
        },
        FieldChange::TypeChanged { name, old_type, new_type } => {
            out.append("~ Field '");
            out.append(name.as_str());
            out.append("' type changed: ");
            out.append(old_type.as_str());
            out.append(" -> ");
            out.append(new_type.as_str());
        },
        FieldChange::RequiredChanged { name, was_optional } => {
            out.append("~ Field '");
            out.append(name.as_str());
            if *was_optional {
                out.append("' changed from optional to required");
            } else {
                out.append("' changed from required to optional");
            }
        },
    }
    out.append(" ");
    if c.is_breaking() {
        out.append("(BREAKING)");
    } else {
        out.append("(OK)");
    }
    out
}

impl SchemaDiff {
    /// Whether this diff contains a breaking change.
    pub fn is_breaking(&self) -> (r: bool)
        ensures
            r == exists|k: int| 0 <= k < self.changes@.len() && spec_is_breaking(#[trigger] self.changes@[k]@),
    {
        let mut i: usize = 0;
        while i < self.changes.len()
            invariant
                i <= self.changes@.len(),
                forall|k: int| 0 <= k < i ==> !spec_is_breaking(#[trigger] self.changes@[k]@),
            decreases self.changes.len() - i,
        {
            if self.changes[i].is_breaking() {
                return true;
            }
            i = i + 1;
        }
        false
    }

    /// Whether this diff can be upcast automatically: it has changes and none
    /// of them breaks.
    pub fn can_auto_upcast(&self) -> (r: bool)
        ensures
            r == (self.changes@.len() > 0 && forall|k: int|
                0 <= k < self.changes@.len() ==> !spec_is_breaking(#[trigger] self.changes@[k]@)),
    {
        !self.is_breaking() && self.changes.len() > 0
    }

    /// The added optional fields, by name and schema, in order.
    pub fn added_optional_fields(&self) -> (r: Vec<(&str, &FieldSchema)>)
        ensures
            r@.map_values(|e: (&str, &FieldSchema)| (e.0@, e.1@)) == spec_added_optional(
                changes_view(self.changes@),
                self.changes@.len() as int,
            ),
    {
        let ghost cv = changes_view(self.changes@);
        let mut out: Vec<(&str, &FieldSchema)> = Vec::new();
        let mut i: usize = 0;
        while i < self.changes.len()
            invariant
                cv == changes_view(self.changes@),
                i <= self.changes@.len(),
                out@.map_values(|e: (&str, &FieldSchema)| (e.0@, e.1@)) == spec_added_optional(cv, i as int),
            decreases self.changes.len() - i,
        {
            let ghost before = out@;
            match &self.changes[i] {
                FieldChange::Added { name, schema } => {
                    if !schema.required {
                        out.push((name.as_str(), schema));
                        proof {
                            assert(out@.map_values(|e: (&str, &FieldSchema)| (e.0@, e.1@)) =~= before.map_values(
                                |e: (&str, &FieldSchema)| (e.0@, e.1@),
                            ).push((name@, schema@)));
                        }
                    }
                },
                _ => {},
            }
            i = i + 1;
        }
        out
    }

    /// The changes formatted for display, one line each.
    pub fn format_changes(&self) -> (r: String)
        ensures
            r@ == spec_format_changes(changes_view(self.changes@)),
    {
        let ghost cv = changes_view(self.changes@);
        let ghost f = |k: int| spec_change_line(cv[k]);
        let mut out = String::new();
        let mut i: usize = 0;
        while i < self.changes.len()
            invariant
                cv == changes_view(self.changes@),
                i <= self.changes@.len(),
                f == (|k: int| spec_change_line(cv[k])),
                out@ == seq_join(Seq::new(i as nat, f), "\n"@),
            decreases self.changes.len() - i,
        {
            if i > 0 {
                out.append("\n");
            }
            let line = change_line(&self.changes[i]);
            out.append(line.as_str());
            proof {
                lemma_join_new_step(f, "\n"@, i as int);
            }
            i = i + 1;
        }
        proof {
            assert(Seq::new(cv.len(), f) =~= Seq::new(cv.len(), |k: int| spec_change_line(cv[k])));
        }
        out
    }
}

// ---------------------------------------------------------------------------
// Diffing
// ---------------------------------------------------------------------------

/// The changes found walking the first `n` locked fields: a field missing from
/// the current ones is removed; one present with another type changed type;
/// one with another required flag changed requiredness.
pub open spec fn spec_locked_changes(
    l: Seq<(Seq<char>, FieldSchemaView)>,
    c: Seq<(Seq<char>, FieldSchemaView)>,
    n: int,
) -> Seq<FieldChangeView>
    decreases n,
{
    if n <= 0 || n > l.len() {
        Seq::empty()
    } else {
        let prev = spec_locked_changes(l, c, n - 1);
        let (name, ls) = l[n - 1];
        let i = first_key_index(c, name, 0);
        if i < 0 {
            prev.push(FieldChangeView::Removed(name, ls))
        } else if ls.0 != c[i].1.0 {
            prev.push(FieldChangeView::TypeChanged(name, ls.0, c[i].1.0))
        } else if ls.1 != c[i].1.1 {
            prev.push(FieldChangeView::RequiredChanged(name, !ls.1))
        } else {
            prev
        }
    }
}

/// The first `n` current fields that the locked ones lack, as additions.
pub open spec fn spec_added_changes(
    l: Seq<(Seq<char>, FieldSchemaView)>,
    c: Seq<(Seq<char>, FieldSchemaView)>,
    n: int,
) -> Seq<FieldChangeView>
    decreases n,
{
    if n <= 0 || n > c.len() {
        Seq::empty()
    } else {
        let prev = spec_added_changes(l, c, n - 1);
        if first_key_index(l, c[n - 1].0, 0) >= 0 {
            prev
        } else {
            prev.push(FieldChangeView::Added(c[n - 1].0, c[n - 1].1))
        }
    }
}

/// The changes from the locked fields `l` to the current fields `c`: those of
/// the locked fields in their order, then the additions in theirs.
pub open spec fn spec_diff_event(
    l: Seq<(Seq<char>, FieldSchemaView)>,
    c: Seq<(Seq<char>, FieldSchemaView)>,
) -> Seq<FieldChangeView> {
    spec_locked_changes(l, c, l.len() as int) + spec_added_changes(l, c, c.len() as int)
}

/// Comparing an event's fields with themselves finds no change, their names
/// being unique as a lock keeps them.
pub proof fn law_unchanged_event_has_no_changes(l: Seq<(Seq<char>, FieldSchemaView)>)
    requires
        forall|i: int, j: int| 0 <= i < j < l.len() ==> l[i].0 != l[j].0,
    ensures
        spec_diff_event(l, l).len() == 0,
{
    assert forall|k: int| 0 <= k < l.len() implies first_key_index(l, #[trigger] l[k].0, 0) == k by {
        lemma_first_key_index(l, l[k].0, 0, k);
    }
    lemma_no_locked_changes(l, l.len() as int);
    lemma_no_added_changes(l, l.len() as int);
}

/// Whether some change of `d` breaks old events.
pub open spec fn has_breaking(d: Seq<FieldChangeView>) -> bool {
    exists|k: int| 0 <= k < d.len() && spec_is_breaking(#[trigger] d[k])
}

/// A field kept with its type but not its requiredness yields one change,
/// and that change breaks old events exactly when the field was optional and
/// is now required: making a required field optional never breaks them.
pub proof fn law_requiredness_change_breaks_iff_now_required(
    name: Seq<char>,
    locked: FieldSchemaView,
    current: FieldSchemaView,
)
    requires
        locked.0 == current.0,
    ensures
        has_breaking(spec_diff_event(seq![(name, locked)], seq![(name, current)])) <==> (current.1 && !locked.1),
        spec_diff_event(seq![(name, locked)], seq![(name, current)]).len() == (if locked.1 != current.1 {
            1int
        } else {
            0int
        }),
{
    let l = seq![(name, locked)];
    let c = seq![(name, current)];
    lemma_first_key_index(c, name, 0, 0);
    lemma_first_key_index(l, name, 0, 0);
    assert(spec_locked_changes(l, c, 0) =~= Seq::<FieldChangeView>::empty());
    assert(spec_added_changes(l, c, 0) =~= Seq::<FieldChangeView>::empty());
    assert(spec_added_changes(l, c, 1) =~= Seq::<FieldChangeView>::empty());
    let d = spec_diff_event(l, c);
    if locked.1 != current.1 {
        assert(d =~= seq![FieldChangeView::RequiredChanged(name, !locked.1)]);
        assert(spec_is_breaking(d[0]) == (current.1 && !locked.1));
    } else {
        assert(d =~= Seq::<FieldChangeView>::empty());
    }
}

/// For a single field: adding it breaks old events exactly when it is
/// required, removing it always does, and so does changing its type.
pub proof fn law_single_field_changes_breaking(name: Seq<char>, locked: FieldSchemaView, current: FieldSchemaView)
    ensures
        has_breaking(spec_diff_event(Seq::empty(), seq![(name, current)])) <==> current.1,
        has_breaking(spec_diff_event(seq![(name, locked)], Seq::empty())),
        locked.0 != current.0 ==> has_breaking(spec_diff_event(seq![(name, locked)], seq![(name, current)])),
{
    let e: Seq<(Seq<char>, FieldSchemaView)> = Seq::empty();
    let l = seq![(name, locked)];
    let c = seq![(name, current)];
    lemma_first_key_index(e, name, 0, 0);
    lemma_first_key_index(c, name, 0, 0);
    lemma_first_key_index(l, name, 0, 0);
    assert(spec_locked_changes(e, c, 0) =~= Seq::<FieldChangeView>::empty());
    assert(spec_added_changes(e, c, 0) =~= Seq::<FieldChangeView>::empty());
    let d1 = spec_diff_event(e, c);
    assert(d1 =~= seq![FieldChangeView::Added(name, current)]);
    assert(spec_is_breaking(d1[0]) == current.1);
    assert(spec_locked_changes(l, e, 0) =~= Seq::<FieldChangeView>::empty());
    assert(spec_added_changes(l, e, 0) =~= Seq::<FieldChangeView>::empty());
    let d2 = spec_diff_event(l, e);
    assert(d2 =~= seq![FieldChangeView::Removed(name, locked)]);
    assert(spec_is_breaking(d2[0]));
    assert(spec_locked_changes(l, c, 0) =~= Seq::<FieldChangeView>::empty());
    assert(spec_added_changes(l, c, 0) =~= Seq::<FieldChangeView>::empty());
    assert(spec_added_changes(l, c, 1) =~= Seq::<FieldChangeView>::empty());
    if locked.0 != current.0 {
        let d3 = spec_diff_event(l, c);
        assert(d3 =~= seq![FieldChangeView::TypeChanged(name, locked.0, current.0)]);
        assert(spec_is_breaking(d3[0]));
    }
}

/// Whether the locked field `i` is among the current fields with the same
/// type and requiredness.
pub open spec fn locked_field_kept(
    l: Seq<(Seq<char>, FieldSchemaView)>,
    c: Seq<(Seq<char>, FieldSchemaView)>,
    i: int,
) -> bool {
    exists|j: int| 0 <= j < c.len() && c[j].0 == l[i].0 && c[j].1.0 == l[i].1.0 && c[j].1.1 == l[i].1.1
}

/// Whether the current field `j` is among the locked fields.
pub open spec fn current_field_locked(
    l: Seq<(Seq<char>, FieldSchemaView)>,
    c: Seq<(Seq<char>, FieldSchemaView)>,
    j: int,
) -> bool {
    exists|i: int| 0 <= i < l.len() && l[i].0 == c[j].0
}

/// Whether no two entries share a name.
pub open spec fn names_distinct(e: Seq<(Seq<char>, FieldSchemaView)>) -> bool {
    forall|a: int, b: int| 0 <= a < b < e.len() ==> e[a].0 != e[b].0
}

proof fn lemma_key_found(e: Seq<(Seq<char>, FieldSchemaView)>, k: Seq<char>, j: int)
    requires
        names_distinct(e),
        0 <= j < e.len(),
        e[j].0 == k,
    ensures
        first_key_index(e, k, 0) == j,
{
    assert forall|m: int| 0 <= m < j implies e[m].0 != k by {
        assert(e[m].0 != e[j].0);
    }
    lemma_first_key_index(e, k, 0, j);
}

proof fn lemma_key_missing(e: Seq<(Seq<char>, FieldSchemaView)>, k: Seq<char>)
    requires
        forall|m: int| 0 <= m < e.len() ==> e[m].0 != k,
    ensures
        first_key_index(e, k, 0) == -1,
{
    lemma_first_key_index(e, k, 0, e.len() as int);
}

proof fn lemma_locked_changes_empty(
    l: Seq<(Seq<char>, FieldSchemaView)>,
    c: Seq<(Seq<char>, FieldSchemaView)>,
    n: int,
)
    requires
        0 <= n <= l.len(),
        names_distinct(c),
    ensures
        spec_locked_changes(l, c, n).len() == 0 <==> forall|i: int| 0 <= i < n ==> #[trigger] locked_field_kept(l, c, i),
    decreases n,
{
    if n > 0 {
        lemma_locked_changes_empty(l, c, n - 1);
        let name = l[n - 1].0;
        if exists|j: int| 0 <= j < c.len() && c[j].0 == name {
            let j = choose|j: int| 0 <= j < c.len() && c[j].0 == name;
            lemma_key_found(c, name, j);
            if locked_field_kept(l, c, n - 1) {
                let j2 = choose|j2: int|
                    0 <= j2 < c.len() && c[j2].0 == l[n - 1].0 && c[j2].1.0 == l[n - 1].1.0 && c[j2].1.1 == l[n - 1].1.1;
                if j2 != j {
                    if j2 < j {
                        assert(c[j2].0 != c[j].0);
                    } else {
                        assert(c[j].0 != c[j2].0);
                    }
                }
            }
        } else {
            lemma_key_missing(c, name);
        }
    }
}

proof fn lemma_added_changes_empty(
    l: Seq<(Seq<char>, FieldSchemaView)>,
    c: Seq<(Seq<char>, FieldSchemaView)>,
    n: int,
)
    requires
        0 <= n <= c.len(),
        names_distinct(l),
    ensures
        spec_added_changes(l, c, n).len() == 0 <==> forall|j: int| 0 <= j < n ==> #[trigger] current_field_locked(l, c, j),
    decreases n,
{
    if n > 0 {
        lemma_added_changes_empty(l, c, n - 1);
        let name = c[n - 1].0;
        if exists|i: int| 0 <= i < l.len() && l[i].0 == name {
            let i = choose|i: int| 0 <= i < l.len() && l[i].0 == name;
            lemma_key_found(l, name, i);
            assert(current_field_locked(l, c, n - 1));
        } else {
            lemma_key_missing(l, name);
            assert(!current_field_locked(l, c, n - 1));
        }
    }
}

/// Two events' fields, each name once, differ by no change exactly when they
/// have the same names with the same type and requiredness.
pub proof fn law_event_diff_empty_iff_same_fields(
    l: Seq<(Seq<char>, FieldSchemaView)>,
    c: Seq<(Seq<char>, FieldSchemaView)>,
)
    requires
        names_distinct(l),
        names_distinct(c),
    ensures
        spec_diff_event(l, c).len() == 0 <==> (
            (forall|i: int| 0 <= i < l.len() ==> #[trigger] locked_field_kept(l, c, i))
            && (forall|j: int| 0 <= j < c.len() ==> #[trigger] current_field_locked(l, c, j))),
{
    lemma_locked_changes_empty(l, c, l.len() as int);
    lemma_added_changes_empty(l, c, c.len() as int);
}

proof fn lemma_no_locked_changes(l: Seq<(Seq<char>, FieldSchemaView)>, n: int)
    requires
        0 <= n <= l.len(),
        forall|k: int| 0 <= k < l.len() ==> first_key_index(l, #[trigger] l[k].0, 0) == k,
    ensures
        spec_locked_changes(l, l, n).len() == 0,
    decreases n,
{
    if n > 0 {
        lemma_no_locked_changes(l, n - 1);
        assert(first_key_index(l, l[n - 1].0, 0) == n - 1);
    }
}

proof fn lemma_no_added_changes(l: Seq<(Seq<char>, FieldSchemaView)>, n: int)
    requires
        0 <= n <= l.len(),
        forall|k: int| 0 <= k < l.len() ==> first_key_index(l, #[trigger] l[k].0, 0) == k,
    ensures
        spec_added_changes(l, l, n).len() == 0,
    decreases n,
{
    if n > 0 {
        lemma_no_added_changes(l, n - 1);
        assert(first_key_index(l, l[n - 1].0, 0) == n - 1);
    }
}

proof fn lemma_find_key_view(e: Seq<(String, FieldSchema)>, k: Seq<char>, r: Option<usize>)
    requires
        match r {
            Some(i) => i < e.len() && e[i as int].0@ == k && (forall|m: int| 0 <= m < i ==> e[m].0@ != k),
            None => !has_key(e, k),
        },
    ensures
        first_key_index(fields_view(e), k, 0) == match r {
            Some(i) => i as int,
            None => -1,
        },
{
    let v = fields_view(e);
    match r {
        Some(i) => {
            assert forall|m: int| 0 <= m < i implies v[m].0 != k by {
                assert(e[m].0@ != k);
            }
            lemma_first_key_index(v, k, 0, i as int);
        },
        None => {
            assert forall|m: int| 0 <= m < v.len() implies v[m].0 != k by {
                assert(e[m].0@ != k);
            }
            lemma_first_key_index(v, k, 0, v.len() as int);
        },
    }
}

/// Compares a locked event schema with the current fields of the event.
pub fn diff_event_schemas(locked: &EventSchema, current_fields: &Vec<(String, FieldSchema)>) -> (r: Vec<FieldChange>)
    ensures
        changes_view(r@) == spec_diff_event(fields_view(locked.fields@), fields_view(current_fields@)),
{
    let ghost l = fields_view(locked.fields@);
    let ghost c = fields_view(current_fields@);
    let mut changes: Vec<FieldChange> = Vec::new();
    let mut i: usize = 0;
    while i < locked.fields.len()
        invariant
            l == fields_view(locked.fields@),
            c == fields_view(current_fields@),
            i <= l.len(),
            changes_view(changes@) == spec_locked_changes(l, c, i as int),
        decreases locked.fields.len() - i,
    {
        let entry = &locked.fields[i];
        let found = find_key(current_fields, entry.0.as_str());
        proof {
            lemma_find_key_view(current_fields@, entry.0@, found);
            assert(l[i as int] == (entry.0@, entry.1@));
        }
        let ghost before = changes@;
        match found {
            None => {
                changes.push(FieldChange::Removed { name: entry.0.clone(), schema: clone_field_schema(&entry.1) });
                proof {
                    assert(changes_view(changes@) =~= changes_view(before).push(FieldChangeView::Removed(entry.0@, entry.1@)));
                }
            },
            Some(k) => {
                let cur = &current_fields[k].1;
                proof {
                    assert(c[k as int].1 == cur@);
                }
                if !crate::text::str_eq(entry.1.typ.as_str(), cur.typ.as_str()) {
                    changes.push(
                        FieldChange::TypeChanged {
                            name: entry.0.clone(),
                            old_type: entry.1.typ.clone(),
                            new_type: cur.typ.clone(),
                        },
                    );
                    proof {
                        assert(changes_view(changes@) =~= changes_view(before).push(
                            FieldChangeView::TypeChanged(entry.0@, entry.1.typ@, cur.typ@),
                        ));
                    }
                } else if entry.1.required != cur.required {
                    changes.push(FieldChange::RequiredChanged { name: entry.0.clone(), was_optional: !entry.1.required });
                    proof {
                        assert(changes_view(changes@) =~= changes_view(before).push(
                            FieldChangeView::RequiredChanged(entry.0@, !entry.1.required),
                        ));
                    }
                }
            },
        }
        i = i + 1;
    }
    let ghost base = changes@;
    let mut j: usize = 0;
    while j < current_fields.len()
        invariant
            l == fields_view(locked.fields@),
            c == fields_view(current_fields@),
            j <= c.len(),
            changes_view(changes@) == changes_view(base) + spec_added_changes(l, c, j as int),
        decreases current_fields.len() - j,
    {
        let entry = &current_fields[j];
        let found = find_key(&locked.fields, entry.0.as_str());
        proof {
            lemma_find_key_view(locked.fields@, entry.0@, found);
            assert(c[j as int] == (entry.0@, entry.1@));
        }
        if found.is_none() {
            let ghost before = changes@;
            changes.push(FieldChange::Added { name: entry.0.clone(), schema: clone_field_schema(&entry.1) });
            proof {
                assert(changes_view(changes@) =~= changes_view(before).push(FieldChangeView::Added(entry.0@, entry.1@)));
            }
        }
        proof {
            assert(changes_view(changes@) =~= changes_view(base) + spec_added_changes(l, c, j + 1));
        }
        j = j + 1;
    }
    changes
}

/// The abstract value of a diff: aggregate, event, changes.
pub open spec fn diff_view(d: SchemaDiff) -> (Seq<char>, Seq<char>, Seq<FieldChangeView>) {
    (d.aggregate@, d.event@, changes_view(d.changes@))
}

/// The views of a list of diffs.
pub open spec fn diffs_view(ds: Seq<SchemaDiff>) -> Seq<(Seq<char>, Seq<char>, Seq<FieldChangeView>)> {
    ds.map_values(|d: SchemaDiff| diff_view(d))
}

/// The abstract value of an aggregate's lock entry: per event, its fields.
pub open spec fn aggregate_lock_view(a: AggregateLock) -> Seq<(Seq<char>, Seq<(Seq<char>, FieldSchemaView)>)> {
    a.events@.map_values(|e: (String, EventSchema)| (e.0@, fields_view(e.1.fields@)))
}

/// The abstract value of the locked aggregates.
pub open spec fn locks_view(l: Seq<(String, AggregateLock)>) -> Seq<
    (Seq<char>, Seq<(Seq<char>, Seq<(Seq<char>, FieldSchemaView)>)>),
> {
    l.map_values(|e: (String, AggregateLock)| (e.0@, aggregate_lock_view(e.1)))
}

/// The diff of one current event against the lock, if it is locked and changed.
pub open spec fn spec_variant_diff(
    la: Seq<(Seq<char>, Seq<(Seq<char>, FieldSchemaView)>)>,
    a: AggregateIR,
    v: EventVariant,
) -> Seq<(Seq<char>, Seq<char>, Seq<FieldChangeView>)> {
    let ei = first_key_index(la, v.name@, 0);
    if ei < 0 {
        Seq::empty()
    } else {
        let ch = spec_diff_event(la[ei].1, spec_fields_schema(v.fields@, v.fields@.len() as int));
        if ch.len() == 0 {
            Seq::empty()
        } else {
            seq![(a.name@, v.name@, ch)]
        }
    }
}

/// The diff of one locked event that the aggregate no longer has.
pub open spec fn spec_removed_event_diff(name: Seq<char>, a: AggregateIR) -> Seq<
    (Seq<char>, Seq<char>, Seq<FieldChangeView>),
> {
    if exists|k: int| 0 <= k < a.events.variants@.len() && #[trigger] a.events.variants@[k].name@ == name {
        Seq::empty()
    } else {
        seq![(a.name@, name, seq![FieldChangeView::Removed(name, ("event"@, true, None))])]
    }
}

/// The diffs of one aggregate against its lock entry: its changed events, then
/// its removed ones. An aggregate without a lock entry has none.
pub open spec fn spec_aggregate_diffs(
    lv: Seq<(Seq<char>, Seq<(Seq<char>, Seq<(Seq<char>, FieldSchemaView)>)>)>,
    a: AggregateIR,
) -> Seq<(Seq<char>, Seq<char>, Seq<FieldChangeView>)> {
    let li = first_key_index(lv, a.name@, 0);
    if li < 0 {
        Seq::empty()
    } else {
        let la = lv[li].1;
        Seq::new(a.events.variants@.len(), |k: int| spec_variant_diff(la, a, a.events.variants@[k])).flatten()
            + Seq::new(la.len(), |k: int| spec_removed_event_diff(la[k].0, a)).flatten()
    }
}

/// Whether the domain has an aggregate named `name`.
pub open spec fn aggregate_present(d: DomainIR, name: Seq<char>) -> bool {
    exists|k: int| 0 <= k < d.aggregates@.len() && #[trigger] d.aggregates@[k].name@ == name
}

/// The diffs of a locked aggregate that the domain no longer has: each of
/// its locked events is removed. None where the domain still has it.
pub open spec fn spec_dropped_aggregate_diffs(
    entry: (Seq<char>, Seq<(Seq<char>, Seq<(Seq<char>, FieldSchemaView)>)>),
    d: DomainIR,
) -> Seq<(Seq<char>, Seq<char>, Seq<FieldChangeView>)> {
    if aggregate_present(d, entry.0) {
        Seq::empty()
    } else {
        Seq::new(
            entry.1.len(),
            |j: int| (entry.0, entry.1[j].0, seq![FieldChangeView::Removed(entry.1[j].0, ("event"@, true, None))]),
        )
    }
}

/// All diffs of a domain against the locked aggregates: aggregate by
/// aggregate of the domain, then the removed events of each locked aggregate
/// the domain no longer has.
pub open spec fn spec_diff_schemas(
    lv: Seq<(Seq<char>, Seq<(Seq<char>, Seq<(Seq<char>, FieldSchemaView)>)>)>,
    d: DomainIR,
) -> Seq<(Seq<char>, Seq<char>, Seq<FieldChangeView>)> {
    Seq::new(d.aggregates@.len(), |k: int| spec_aggregate_diffs(lv, d.aggregates@[k])).flatten() + Seq::new(
        lv.len(),
        |k: int| spec_dropped_aggregate_diffs(lv[k], d),
    ).flatten()
}

proof fn lemma_flatten_step<A>(f: spec_fn(int) -> Seq<A>, i: int)
    requires
        0 <= i,
    ensures
        Seq::new((i + 1) as nat, f).flatten() == Seq::new(i as nat, f).flatten() + f(i),
{
    let prev = Seq::new(i as nat, f);
    prev.lemma_flatten_push(f(i));
    assert(Seq::new((i + 1) as nat, f) =~= prev.push(f(i)));
}

fn push_variant_diff(
    diffs: &mut Vec<SchemaDiff>,
    locked_aggregate: &AggregateLock,
    a: &AggregateIR,
    v: &EventVariant,
)
    ensures
        diffs_view(final(diffs)@) == diffs_view(old(diffs)@) + spec_variant_diff(
            aggregate_lock_view(*locked_aggregate),
            *a,
            *v,
        ),
{
    let ghost la = aggregate_lock_view(*locked_aggregate);
    let found = find_key(&locked_aggregate.events, v.name.as_str());
    proof {
        match found {
            Some(i) => {
                assert forall|m: int| 0 <= m < i implies la[m].0 != v.name@ by {
                    assert(locked_aggregate.events@[m].0@ != v.name@);
                }
                lemma_first_key_index(la, v.name@, 0, i as int);
            },
            None => {
                assert forall|m: int| 0 <= m < la.len() implies la[m].0 != v.name@ by {
                    assert(locked_aggregate.events@[m].0@ != v.name@);
                }
                lemma_first_key_index(la, v.name@, 0, la.len() as int);
            },
        }
    }
    match found {
        None => {
            proof {
                assert(diffs_view(diffs@) =~= diffs_view(old(diffs)@) + Seq::empty());
            }
        },
        Some(ei) => {
            let locked_event = &locked_aggregate.events[ei].1;
            let current_fields = fields_schema(&v.fields);
            let changes = diff_event_schemas(locked_event, &current_fields);
            proof {
                assert(la[ei as int].1 == fields_view(locked_event.fields@));
            }
            if changes.len() > 0 {
                let ghost before = diffs@;
                let d = SchemaDiff { aggregate: a.name.clone(), event: v.name.clone(), changes };
                let ghost dv = diff_view(d);
                diffs.push(d);
                proof {
                    assert(diffs_view(diffs@) =~= diffs_view(before) + seq![dv]);
                }
            } else {
                proof {
                    assert(diffs_view(diffs@) =~= diffs_view(old(diffs)@) + Seq::empty());
                }
            }
        },
    }
}

fn push_removed_event_diff(diffs: &mut Vec<SchemaDiff>, name: &String, a: &AggregateIR)
    ensures
        diffs_view(final(diffs)@) == diffs_view(old(diffs)@) + spec_removed_event_diff(name@, *a),
{
    let mut exists_in_current = false;
    let mut k: usize = 0;
    while k < a.events.variants.len()
        invariant
            k <= a.events.variants@.len(),
            exists_in_current <==> exists|m: int| 0 <= m < k && #[trigger] a.events.variants@[m].name@ == name@,
        decreases a.events.variants.len() - k,
    {
        if crate::text::str_eq(a.events.variants[k].name.as_str(), name.as_str()) {
            exists_in_current = true;
        }
        k = k + 1;
    }
    if exists_in_current {
        proof {
            assert(diffs_view(diffs@) =~= diffs_view(old(diffs)@) + Seq::empty());
        }
    } else {
        let removed = FieldChange::Removed {
            name: name.clone(),
            schema: FieldSchema { typ: crate::text::to_owned_string("event"), required: true, default: None },
        };
        let d = SchemaDiff { aggregate: a.name.clone(), event: name.clone(), changes: vec![removed] };
        let ghost dv = diff_view(d);
        proof {
            assert(changes_view(d.changes@) =~= seq![FieldChangeView::Removed(name@, ("event"@, true, None))]);
        }
        diffs.push(d);
        proof {
            assert(diffs_view(diffs@) =~= diffs_view(old(diffs)@) + seq![dv]);
        }
    }
}

fn push_aggregate_diffs(
    diffs: &mut Vec<SchemaDiff>,
    locked: &Vec<(String, AggregateLock)>,
    a: &AggregateIR,
)
    ensures
        diffs_view(final(diffs)@) == diffs_view(old(diffs)@) + spec_aggregate_diffs(locks_view(locked@), *a),
{
    let ghost lv = locks_view(locked@);
    let found = find_key(locked, a.name.as_str());
    proof {
        match found {
            Some(i) => {
                assert forall|m: int| 0 <= m < i implies lv[m].0 != a.name@ by {
                    assert(locked@[m].0@ != a.name@);
                }
                lemma_first_key_index(lv, a.name@, 0, i as int);
            },
            None => {
                assert forall|m: int| 0 <= m < lv.len() implies lv[m].0 != a.name@ by {
                    assert(locked@[m].0@ != a.name@);
                }
                lemma_first_key_index(lv, a.name@, 0, lv.len() as int);
            },
        }
    }
    match found {
        None => {
            proof {
                assert(diffs_view(diffs@) =~= diffs_view(old(diffs)@) + Seq::empty());
            }
        },
        Some(li) => {
            let la = &locked[li].1;
            let ghost lav = aggregate_lock_view(*la);
            proof {
                assert(lv[li as int].1 == lav);
            }
            let ghost base = diffs_view(diffs@);
            let ghost f = |k: int| spec_variant_diff(lav, *a, a.events.variants@[k]);
            let mut i: usize = 0;
            while i < a.events.variants.len()
                invariant
                    i <= a.events.variants@.len(),
                    lav == aggregate_lock_view(*la),
                    f == (|k: int| spec_variant_diff(lav, *a, a.events.variants@[k])),
                    diffs_view(diffs@) == base + Seq::new(i as nat, f).flatten(),
                decreases a.events.variants.len() - i,
            {
                push_variant_diff(diffs, la, a, &a.events.variants[i]);
                proof {
                    lemma_flatten_step(f, i as int);
                    assert(diffs_view(diffs@) =~= base + Seq::new((i + 1) as nat, f).flatten());
                }
                i = i + 1;
            }
            let ghost mid = diffs_view(diffs@);
            let ghost g = |k: int| spec_removed_event_diff(lav[k].0, *a);
            let mut j: usize = 0;
            while j < la.events.len()
                invariant
                    j <= la.events@.len(),
                    lav == aggregate_lock_view(*la),
                    g == (|k: int| spec_removed_event_diff(lav[k].0, *a)),
                    diffs_view(diffs@) == mid + Seq::new(j as nat, g).flatten(),
                decreases la.events.len() - j,
            {
                push_removed_event_diff(diffs, &la.events[j].0, a);
                proof {
                    assert(lav[j as int].0 == la.events@[j as int].0@);
                    lemma_flatten_step(g, j as int);
                    assert(diffs_view(diffs@) =~= mid + Seq::new((j + 1) as nat, g).flatten());
                }
                j = j + 1;
            }
        },
    }
}

/// The removed events of a locked aggregate that the domain no longer has.
fn push_dropped_aggregate_diffs(diffs: &mut Vec<SchemaDiff>, entry: &(String, AggregateLock), current: &DomainIR)
    ensures
        diffs_view(final(diffs)@) == diffs_view(old(diffs)@) + spec_dropped_aggregate_diffs(
            (entry.0@, aggregate_lock_view(entry.1)),
            *current,
        ),
{
    let mut present = false;
    let mut k: usize = 0;
    while k < current.aggregates.len()
        invariant
            k <= current.aggregates@.len(),
            present <==> exists|m: int| 0 <= m < k && #[trigger] current.aggregates@[m].name@ == entry.0@,
        decreases current.aggregates.len() - k,
    {
        if crate::text::str_eq(current.aggregates[k].name.as_str(), entry.0.as_str()) {
            present = true;
        }
        k = k + 1;
    }
    let ghost lav = aggregate_lock_view(entry.1);
    if present {
        proof {
            assert(diffs_view(diffs@) =~= diffs_view(old(diffs)@) + Seq::empty());
        }
        return;
    }
    let ghost base = diffs_view(diffs@);
    let ghost f = |j: int| (entry.0@, lav[j].0, seq![FieldChangeView::Removed(lav[j].0, ("event"@, true, None))]);
    let mut j: usize = 0;
    while j < entry.1.events.len()
        invariant
            j <= entry.1.events@.len(),
            lav == aggregate_lock_view(entry.1),
            f == (|j: int| (entry.0@, lav[j].0, seq![FieldChangeView::Removed(lav[j].0, ("event"@, true, None))])),
            diffs_view(diffs@) == base + Seq::new(j as nat, f),
        decreases entry.1.events.len() - j,
    {
        let name = &entry.1.events[j].0;
        let removed = FieldChange::Removed {
            name: name.clone(),
            schema: FieldSchema { typ: crate::text::to_owned_string("event"), required: true, default: None },
        };
        let d = SchemaDiff { aggregate: entry.0.clone(), event: name.clone(), changes: vec![removed] };
        let ghost dv = diff_view(d);
        proof {
            assert(lav[j as int].0 == name@);
            assert(changes_view(d.changes@) =~= seq![FieldChangeView::Removed(name@, ("event"@, true, None))]);
            assert(dv == f(j as int));
        }
        let ghost before = diffs@;
        diffs.push(d);
        proof {
            assert(diffs@ == before.push(d));
            assert(diffs_view(diffs@) =~= diffs_view(before).push(dv));
            assert(Seq::new((j + 1) as nat, f) =~= Seq::new(j as nat, f).push(f(j as int)));
            assert(diffs_view(diffs@) =~= base + Seq::new((j + 1) as nat, f));
        }
        j = j + 1;
    }
    proof {
        assert(Seq::new(lav.len(), f) =~= spec_dropped_aggregate_diffs((entry.0@, lav), *current));
    }
}

/// Compares the current domain against the locked aggregates. Aggregates and
/// events without a lock entry are new and yield no diff; an event whose
/// fields are unchanged yields none either; every event of a locked
/// aggregate that the domain no longer has is reported removed.
pub fn diff_schemas(locked: &Vec<(String, AggregateLock)>, current: &DomainIR) -> (r: Vec<SchemaDiff>)
    ensures
        diffs_view(r@) == spec_diff_schemas(locks_view(locked@), *current),
{
    let ghost lv = locks_view(locked@);
    let ghost f = |k: int| spec_aggregate_diffs(lv, current.aggregates@[k]);
    let mut diffs: Vec<SchemaDiff> = Vec::new();
    let mut i: usize = 0;
    while i < current.aggregates.len()
        invariant
            i <= current.aggregates@.len(),
            lv == locks_view(locked@),
            f == (|k: int| spec_aggregate_diffs(lv, current.aggregates@[k])),
            diffs_view(diffs@) == Seq::new(i as nat, f).flatten(),
        decreases current.aggregates.len() - i,
    {
        push_aggregate_diffs(&mut diffs, locked, &current.aggregates[i]);
        proof {
            lemma_flatten_step(f, i as int);
        }
        i = i + 1;
    }
    let ghost head = diffs_view(diffs@);
    let ghost g = |k: int| spec_dropped_aggregate_diffs(lv[k], *current);
    let mut k: usize = 0;
    while k < locked.len()
        invariant
            k <= locked@.len(),
            lv == locks_view(locked@),
            g == (|k: int| spec_dropped_aggregate_diffs(lv[k], *current)),
            diffs_view(diffs@) == head + Seq::new(k as nat, g).flatten(),
        decreases locked.len() - k,
    {
        push_dropped_aggregate_diffs(&mut diffs, &locked[k], current);
        proof {
            assert(lv[k as int] == (locked@[k as int].0@, aggregate_lock_view(locked@[k as int].1)));
            lemma_flatten_step(g, k as int);
            assert(diffs_view(diffs@) =~= head + Seq::new((k + 1) as nat, g).flatten());
        }
        k = k + 1;
    }
    diffs
}

// ---------------------------------------------------------------------------
// A domain against its own lock
// ---------------------------------------------------------------------------

/// Whether the names are pairwise distinct.
pub open spec fn aggregate_names_distinct(aggs: Seq<AggregateIR>) -> bool {
    forall|i: int, j: int| 0 <= i < j < aggs.len() ==> aggs[i].name@ != aggs[j].name@
}

/// Whether the event names of the aggregate are pairwise distinct.
pub open spec fn event_names_distinct(a: AggregateIR) -> bool {
    forall|i: int, j: int|
        0 <= i < j < a.events.variants@.len() ==> a.events.variants@[i].name@ != a.events.variants@[j].name@
}

proof fn lemma_event_slots_in_order(vs: Seq<EventVariant>, n: int)
    requires
        0 <= n <= vs.len(),
        forall|i: int, j: int| 0 <= i < j < vs.len() ==> vs[i].name@ != vs[j].name@,
    ensures
        spec_event_slots(vs, n) == Seq::new(n as nat, |k: int| (vs[k].name@, k)),
    decreases n,
{
    if n > 0 {
        lemma_event_slots_in_order(vs, n - 1);
        let prev = Seq::new((n - 1) as nat, |k: int| (vs[k].name@, k));
        lemma_first_key_index(prev, vs[n - 1].name@, 0, prev.len() as int);
        assert(view_insert(prev, vs[n - 1].name@, n - 1) =~= Seq::new(n as nat, |k: int| (vs[k].name@, k)));
    }
}

proof fn lemma_aggregate_slots_in_order(aggs: Seq<AggregateIR>, n: int)
    requires
        0 <= n <= aggs.len(),
        aggregate_names_distinct(aggs),
    ensures
        spec_aggregate_slots(aggs, n) == Seq::new(n as nat, |k: int| (aggs[k].name@, k)),
    decreases n,
{
    if n > 0 {
        lemma_aggregate_slots_in_order(aggs, n - 1);
        let prev = Seq::new((n - 1) as nat, |k: int| (aggs[k].name@, k));
        lemma_first_key_index(prev, aggs[n - 1].name@, 0, prev.len() as int);
        assert(view_insert(prev, aggs[n - 1].name@, n - 1) =~= Seq::new(n as nat, |k: int| (aggs[k].name@, k)));
    }
}

proof fn lemma_flatten_empty<A>(f: spec_fn(int) -> Seq<A>, n: int)
    requires
        0 <= n,
        forall|k: int| 0 <= k < n ==> (#[trigger] f(k)).len() == 0,
    ensures
        Seq::new(n as nat, f).flatten().len() == 0,
    decreases n,
{
    if n == 0 {
        assert(Seq::new(0, f) =~= Seq::<Seq<A>>::empty());
    } else {
        lemma_flatten_empty(f, n - 1);
        lemma_flatten_step(f, n - 1);
    }
}

proof fn lemma_own_aggregate_lock_no_changes(
    lv: Seq<(Seq<char>, Seq<(Seq<char>, Seq<(Seq<char>, FieldSchemaView)>)>)>,
    k: int,
    lock: AggregateLock,
    a: AggregateIR,
)
    requires
        0 <= k < lv.len(),
        first_key_index(lv, a.name@, 0) == k,
        lv[k].1 == aggregate_lock_view(lock),
        is_aggregate_lock(lock, a),
        event_names_distinct(a),
    ensures
        spec_aggregate_diffs(lv, a).len() == 0,
{
    let vs = a.events.variants@;
    let la = lv[k].1;
    lemma_event_slots_in_order(vs, vs.len() as int);
    let slots = spec_event_slots(vs, vs.len() as int);
    assert forall|i: int| 0 <= i < vs.len() implies la[i].0 == vs[i].name@ && la[i].1 == spec_fields_schema(
        vs[i].fields@,
        vs[i].fields@.len() as int,
    ) && (forall|p: int, q: int| 0 <= p < q < la[i].1.len() ==> la[i].1[p].0 != la[i].1[q].0) by {
        assert(slots[i] == (vs[i].name@, i));
        assert(lock.events@[i].0@ == slots[i].0);
        let fs = lock.events@[i].1.fields@;
        assert(la[i].1 == fields_view(fs));
        assert forall|p: int, q: int| 0 <= p < q < la[i].1.len() implies la[i].1[p].0 != la[i].1[q].0 by {
            assert(fs[p].0@ != fs[q].0@);
        }
    }
    let fv = |i: int| spec_variant_diff(la, a, vs[i]);
    assert forall|i: int| 0 <= i < vs.len() implies (#[trigger] fv(i)).len() == 0 by {
        lemma_first_key_index(la, vs[i].name@, 0, i);
        law_unchanged_event_has_no_changes(la[i].1);
    }
    let fr = |i: int| spec_removed_event_diff(la[i].0, a);
    assert forall|i: int| 0 <= i < la.len() implies (#[trigger] fr(i)).len() == 0 by {
        assert(a.events.variants@[i].name@ == la[i].0);
    }
    lemma_flatten_empty(fv, vs.len() as int);
    lemma_flatten_empty(fr, la.len() as int);
    assert(Seq::new(vs.len(), fv) =~= Seq::new(vs.len(), |i: int| spec_variant_diff(la, a, a.events.variants@[i])));
    assert(Seq::new(la.len(), fr) =~= Seq::new(la.len(), |i: int| spec_removed_event_diff(la[i].0, a)));
}

/// Comparing a domain with a lock file made of it finds no change, as long as
/// its aggregates have distinct names and so have the events of each: the
/// lock keeps one entry per name.
pub proof fn law_own_lock_has_no_changes(f: SchemaLockFile, d: DomainIR, compiler_version: Seq<char>)
    requires
        is_lock_file_of(f, d, compiler_version),
        aggregate_names_distinct(d.aggregates@),
        forall|k: int| 0 <= k < d.aggregates@.len() ==> event_names_distinct(#[trigger] d.aggregates@[k]),
    ensures
        spec_diff_schemas(locks_view(f.aggregates@), d).len() == 0,
{
    let aggs = d.aggregates@;
    let lv = locks_view(f.aggregates@);
    lemma_aggregate_slots_in_order(aggs, aggs.len() as int);
    let slots = spec_aggregate_slots(aggs, aggs.len() as int);
    let fa = |k: int| spec_aggregate_diffs(lv, aggs[k]);
    assert forall|k: int| 0 <= k < aggs.len() implies (#[trigger] fa(k)).len() == 0 by {
        assert(slots[k] == (aggs[k].name@, k));
        assert(f.aggregates@[k].0@ == slots[k].0);
        assert forall|m: int| 0 <= m < k implies lv[m].0 != aggs[k].name@ by {
            assert(slots[m] == (aggs[m].name@, m));
            assert(f.aggregates@[m].0@ == slots[m].0);
        }
        lemma_first_key_index(lv, aggs[k].name@, 0, k);
        lemma_own_aggregate_lock_no_changes(lv, k, f.aggregates@[k].1, aggs[k]);
    }
    lemma_flatten_empty(fa, aggs.len() as int);
    assert(Seq::new(aggs.len(), fa) =~= Seq::new(aggs.len(), |k: int| spec_aggregate_diffs(lv, d.aggregates@[k])));
    let fd = |k: int| spec_dropped_aggregate_diffs(lv[k], d);
    assert forall|k: int| 0 <= k < lv.len() implies (#[trigger] fd(k)).len() == 0 by {
        assert(slots[k] == (aggs[k].name@, k));
        assert(f.aggregates@[k].0@ == slots[k].0);
        assert(d.aggregates@[k].name@ == lv[k].0);
    }
    lemma_flatten_empty(fd, lv.len() as int);
    assert(Seq::new(lv.len(), fd) =~= Seq::new(lv.len(), |k: int| spec_dropped_aggregate_diffs(lv[k], d)));
}

// ---------------------------------------------------------------------------
// When a domain has no diff against a lock
// ---------------------------------------------------------------------------

/// The fields of a current event as the lock would record them.
pub open spec fn variant_fields(v: EventVariant) -> Seq<(Seq<char>, FieldSchemaView)> {
    spec_fields_schema(v.fields@, v.fields@.len() as int)
}

/// Whether the domain's aggregate `k` has an event named `name` whose fields
/// differ from `locked` by no change.
pub open spec fn aggregate_keeps_event(
    d: DomainIR,
    k: int,
    name: Seq<char>,
    locked: Seq<(Seq<char>, FieldSchemaView)>,
) -> bool {
    exists|i: int|
        0 <= i < d.aggregates@[k].events.variants@.len() && d.aggregates@[k].events.variants@[i].name@ == name
            && spec_diff_event(locked, variant_fields(#[trigger] d.aggregates@[k].events.variants@[i])).len() == 0
}

/// Whether the locked event `b` of the locked aggregate `a` is still in the
/// domain: in an aggregate of the same name, with fields that differ by no
/// change.
pub open spec fn locked_event_kept(
    lv: Seq<(Seq<char>, Seq<(Seq<char>, Seq<(Seq<char>, FieldSchemaView)>)>)>,
    d: DomainIR,
    a: int,
    b: int,
) -> bool {
    exists|k: int|
        0 <= k < d.aggregates@.len() && (#[trigger] d.aggregates@[k]).name@ == lv[a].0 && aggregate_keeps_event(
            d,
            k,
            lv[a].1[b].0,
            lv[a].1[b].1,
        )
}

/// Whether each aggregate of a lock, and each event of each, is named once.
pub open spec fn lock_names_distinct(lv: Seq<(Seq<char>, Seq<(Seq<char>, Seq<(Seq<char>, FieldSchemaView)>)>)>) -> bool {
    &&& forall|a1: int, a2: int| 0 <= a1 < a2 < lv.len() ==> lv[a1].0 != lv[a2].0
    &&& forall|a: int, b1: int, b2: int| 0 <= a < lv.len() && 0 <= b1 < b2 < lv[a].1.len() ==> lv[a].1[b1].0 != lv[a].1[b2].0
}

proof fn lemma_flatten_len<A>(f: spec_fn(int) -> Seq<A>, n: int)
    requires
        0 <= n,
    ensures
        Seq::new(n as nat, f).flatten().len() == 0 <==> forall|k: int| 0 <= k < n ==> (#[trigger] f(k)).len() == 0,
    decreases n,
{
    if n == 0 {
        assert(Seq::new(0, f) =~= Seq::<Seq<A>>::empty());
    } else {
        lemma_flatten_len(f, n - 1);
        lemma_flatten_step(f, n - 1);
    }
}

proof fn lemma_unique_key<V>(e: Seq<(Seq<char>, V)>, j: int)
    requires
        0 <= j < e.len(),
        forall|a1: int, a2: int| 0 <= a1 < a2 < e.len() ==> e[a1].0 != e[a2].0,
    ensures
        first_key_index(e, e[j].0, 0) == j,
{
    assert forall|m: int| 0 <= m < j implies e[m].0 != e[j].0 by {}
    lemma_first_key_index(e, e[j].0, 0, j);
}

proof fn lemma_absent_key<V>(e: Seq<(Seq<char>, V)>, k: Seq<char>)
    requires
        forall|m: int| 0 <= m < e.len() ==> e[m].0 != k,
    ensures
        first_key_index(e, k, 0) == -1,
{
    lemma_first_key_index(e, k, 0, e.len() as int);
}

/// The diffs of the domain's aggregate `k` are empty when every locked event
/// is kept.
proof fn lemma_kept_aggregate_no_diffs(
    lv: Seq<(Seq<char>, Seq<(Seq<char>, Seq<(Seq<char>, FieldSchemaView)>)>)>,
    d: DomainIR,
    k: int,
)
    requires
        0 <= k < d.aggregates@.len(),
        lock_names_distinct(lv),
        aggregate_names_distinct(d.aggregates@),
        event_names_distinct(d.aggregates@[k]),
        forall|a: int, b: int| 0 <= a < lv.len() && 0 <= b < lv[a].1.len() ==> #[trigger] locked_event_kept(lv, d, a, b),
    ensures
        spec_aggregate_diffs(lv, d.aggregates@[k]).len() == 0,
{
    let ag = d.aggregates@[k];
    let li = first_key_index(lv, ag.name@, 0);
    if li >= 0 {
        lemma_first_key_index_found(lv, ag.name@);
        let la = lv[li].1;
        let vs = ag.events.variants@;
        let fv = |i: int| spec_variant_diff(la, ag, vs[i]);
        assert forall|i: int| 0 <= i < vs.len() implies (#[trigger] fv(i)).len() == 0 by {
            let ei = first_key_index(la, vs[i].name@, 0);
            if ei >= 0 {
                lemma_first_key_index_found(la, vs[i].name@);
                assert(locked_event_kept(lv, d, li, ei));
                let k2 = choose|k2: int|
                    0 <= k2 < d.aggregates@.len() && (#[trigger] d.aggregates@[k2]).name@ == lv[li].0 && aggregate_keeps_event(
                        d,
                        k2,
                        lv[li].1[ei].0,
                        lv[li].1[ei].1,
                    );
                if k2 != k {
                    if k2 < k {
                        assert(d.aggregates@[k2].name@ != d.aggregates@[k].name@);
                    } else {
                        assert(d.aggregates@[k].name@ != d.aggregates@[k2].name@);
                    }
                }
                let i2 = choose|i2: int|
                    0 <= i2 < vs.len() && vs[i2].name@ == la[ei].0 && spec_diff_event(
                        la[ei].1,
                        variant_fields(#[trigger] d.aggregates@[k].events.variants@[i2]),
                    ).len() == 0;
                if i2 != i {
                    if i2 < i {
                        assert(vs[i2].name@ != vs[i].name@);
                    } else {
                        assert(vs[i].name@ != vs[i2].name@);
                    }
                }
            }
        }
        let fr = |b: int| spec_removed_event_diff(la[b].0, ag);
        assert forall|b: int| 0 <= b < la.len() implies (#[trigger] fr(b)).len() == 0 by {
            assert(locked_event_kept(lv, d, li, b));
            let k2 = choose|k2: int|
                0 <= k2 < d.aggregates@.len() && (#[trigger] d.aggregates@[k2]).name@ == lv[li].0 && aggregate_keeps_event(
                    d,
                    k2,
                    lv[li].1[b].0,
                    lv[li].1[b].1,
                );
            if k2 != k {
                if k2 < k {
                    assert(d.aggregates@[k2].name@ != d.aggregates@[k].name@);
                } else {
                    assert(d.aggregates@[k].name@ != d.aggregates@[k2].name@);
                }
            }
            let i2 = choose|i2: int|
                0 <= i2 < vs.len() && vs[i2].name@ == la[b].0 && spec_diff_event(
                    la[b].1,
                    variant_fields(#[trigger] d.aggregates@[k].events.variants@[i2]),
                ).len() == 0;
            assert(ag.events.variants@[i2].name@ == la[b].0);
        }
        lemma_flatten_len(fv, vs.len() as int);
        lemma_flatten_len(fr, la.len() as int);
        assert(Seq::new(vs.len(), fv) =~= Seq::new(vs.len(), |i: int| spec_variant_diff(la, ag, ag.events.variants@[i])));
        assert(Seq::new(la.len(), fr) =~= Seq::new(la.len(), |b: int| spec_removed_event_diff(la[b].0, ag)));
    }
}

proof fn lemma_first_key_index_found<V>(e: Seq<(Seq<char>, V)>, k: Seq<char>)
    requires
        first_key_index(e, k, 0) >= 0,
    ensures
        first_key_index(e, k, 0) < e.len(),
        e[first_key_index(e, k, 0)].0 == k,
{
    lemma_first_key_index_bounds(e, k, 0);
}

proof fn lemma_first_key_index_bounds<V>(e: Seq<(Seq<char>, V)>, k: Seq<char>, i: int)
    requires
        0 <= i,
        first_key_index(e, k, i) >= 0,
    ensures
        first_key_index(e, k, i) < e.len(),
        e[first_key_index(e, k, i)].0 == k,
    decreases e.len() - i,
{
    if i < e.len() && e[i].0 != k {
        lemma_first_key_index_bounds(e, k, i + 1);
    }
}

/// The locked event `b` of locked aggregate `a` is kept when the domain has
/// no diff against the lock.
proof fn lemma_no_diffs_keeps_event(
    lv: Seq<(Seq<char>, Seq<(Seq<char>, Seq<(Seq<char>, FieldSchemaView)>)>)>,
    d: DomainIR,
    a: int,
    b: int,
)
    requires
        0 <= a < lv.len(),
        0 <= b < lv[a].1.len(),
        lock_names_distinct(lv),
        spec_dropped_aggregate_diffs(lv[a], d).len() == 0,
        forall|k: int| 0 <= k < d.aggregates@.len() ==> (#[trigger] spec_aggregate_diffs(lv, d.aggregates@[k])).len() == 0,
    ensures
        locked_event_kept(lv, d, a, b),
{
    assert(aggregate_present(d, lv[a].0));
    let k = choose|k: int| 0 <= k < d.aggregates@.len() && #[trigger] d.aggregates@[k].name@ == lv[a].0;
    let ag = d.aggregates@[k];
    lemma_unique_key(lv, a);
    let la = lv[a].1;
    let vs = ag.events.variants@;
    assert(spec_aggregate_diffs(lv, ag).len() == 0);
    let fv = |i: int| spec_variant_diff(la, ag, vs[i]);
    let fr = |c: int| spec_removed_event_diff(la[c].0, ag);
    assert(Seq::new(vs.len(), fv) =~= Seq::new(vs.len(), |i: int| spec_variant_diff(la, ag, ag.events.variants@[i])));
    assert(Seq::new(la.len(), fr) =~= Seq::new(la.len(), |c: int| spec_removed_event_diff(la[c].0, ag)));
    lemma_flatten_len(fv, vs.len() as int);
    lemma_flatten_len(fr, la.len() as int);
    assert(fr(b).len() == 0);
    let i = choose|i: int| 0 <= i < vs.len() && #[trigger] ag.events.variants@[i].name@ == la[b].0;
    assert(fv(i).len() == 0);
    assert forall|a1: int, a2: int| 0 <= a1 < a2 < la.len() implies la[a1].0 != la[a2].0 by {}
    lemma_unique_key(la, b);
    assert(first_key_index(la, vs[i].name@, 0) == b);
    assert(spec_diff_event(la[b].1, variant_fields(d.aggregates@[k].events.variants@[i])).len() == 0);
    assert(aggregate_keeps_event(d, k, lv[a].1[b].0, lv[a].1[b].1));
}

/// A domain has no diff against a lock exactly when every event of every
/// locked aggregate is still in the domain, in an aggregate of the same
/// name, with fields that differ by no change (new aggregates and events
/// are allowed). Aggregates are named once in the lock and in the domain,
/// and so are the events of each.
pub proof fn law_no_diffs_iff_lock_kept(
    lv: Seq<(Seq<char>, Seq<(Seq<char>, Seq<(Seq<char>, FieldSchemaView)>)>)>,
    d: DomainIR,
)
    requires
        lock_names_distinct(lv),
        aggregate_names_distinct(d.aggregates@),
        forall|k: int| 0 <= k < d.aggregates@.len() ==> event_names_distinct(#[trigger] d.aggregates@[k]),
    ensures
        spec_diff_schemas(lv, d).len() == 0 <==> forall|a: int, b: int|
            0 <= a < lv.len() && 0 <= b < lv[a].1.len() ==> #[trigger] locked_event_kept(lv, d, a, b),
{
    let fa = |k: int| spec_aggregate_diffs(lv, d.aggregates@[k]);
    let fd = |a: int| spec_dropped_aggregate_diffs(lv[a], d);
    lemma_flatten_len(fa, d.aggregates@.len() as int);
    lemma_flatten_len(fd, lv.len() as int);
    assert(Seq::new(d.aggregates@.len(), fa) =~= Seq::new(d.aggregates@.len(), |k: int| spec_aggregate_diffs(lv, d.aggregates@[k])));
    assert(Seq::new(lv.len(), fd) =~= Seq::new(lv.len(), |a: int| spec_dropped_aggregate_diffs(lv[a], d)));
    if spec_diff_schemas(lv, d).len() == 0 {
        assert forall|a: int, b: int| 0 <= a < lv.len() && 0 <= b < lv[a].1.len() implies #[trigger] locked_event_kept(
            lv,
            d,
            a,
            b,
        ) by {
            assert(fd(a).len() == 0);
            assert forall|k: int| 0 <= k < d.aggregates@.len() implies (#[trigger] spec_aggregate_diffs(
                lv,
                d.aggregates@[k],
            )).len() == 0 by {
                assert(fa(k).len() == 0);
            }
            lemma_no_diffs_keeps_event(lv, d, a, b);
        }
    }
    if forall|a: int, b: int| 0 <= a < lv.len() && 0 <= b < lv[a].1.len() ==> #[trigger] locked_event_kept(lv, d, a, b) {
        assert forall|k: int| 0 <= k < d.aggregates@.len() implies (#[trigger] fa(k)).len() == 0 by {
            lemma_kept_aggregate_no_diffs(lv, d, k);
        }
        assert forall|a: int| 0 <= a < lv.len() implies (#[trigger] fd(a)).len() == 0 by {
            if lv[a].1.len() > 0 {
                assert(locked_event_kept(lv, d, a, 0));
                let k = choose|k: int|
                    0 <= k < d.aggregates@.len() && (#[trigger] d.aggregates@[k]).name@ == lv[a].0 && aggregate_keeps_event(
                        d,
                        k,
                        lv[a].1[0].0,
                        lv[a].1[0].1,
                    );
                assert(aggregate_present(d, lv[a].0));
            } else {
                assert(fd(a) =~= Seq::<(Seq<char>, Seq<char>, Seq<FieldChangeView>)>::empty() || aggregate_present(d, lv[a].0));
            }
        }
    }
}

} // verus!
