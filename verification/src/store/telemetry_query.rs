//! Reading telemetry back: the SQL a query runs on a shard, the order in
//! which the records of all shards are returned, and how a tail merges the
//! new records of the shards and advances its cursor.
use vstd::prelude::*;

use crate::store::telemetry::{spec_kind_code, TelemetryCursor, TelemetryOrder, TelemetryQuery};
use crate::text::{join, seq_join, to_owned_string, views};

verus! {

/// The columns a query reads, in the order records are built from.
pub const QUERY_SELECT: &'static str = "SELECT id, ts_ms, kind, tenant_hash, event_global_pos, stream_hash, stream_rev, command_id,\n                trace_id, span_id, parent_span_id, name, service, severity, message,\n                metric_name, metric_value, metric_kind, metric_unit, span_start_ms, span_end_ms,\n                span_duration_ms, span_status, attrs_json\n         FROM telemetry";

/// A value bound to a `?` of a query.
#[derive(Debug)]
pub enum SqlParam {
    Integer(i64),
    Text(String),
}

/// The abstract value of a bound value.
pub enum SqlParamView {
    Integer(i64),
    Text(Seq<char>),
}

pub open spec fn param_view(p: SqlParam) -> SqlParamView {
    match p {
        SqlParam::Integer(v) => SqlParamView::Integer(v),
        SqlParam::Text(s) => SqlParamView::Text(s@),
    }
}

pub open spec fn params_view(ps: Seq<SqlParam>) -> Seq<SqlParamView> {
    ps.map_values(|p: SqlParam| param_view(p))
}

/// `test` where the filter is present.
pub open spec fn test_if(present: bool, test: Seq<char>) -> Seq<Seq<char>> {
    if present {
        seq![test]
    } else {
        Seq::empty()
    }
}

/// The bound value of an integer filter, where present.
pub open spec fn int_param(v: Option<i64>) -> Seq<SqlParamView> {
    match v {
        Some(x) => seq![SqlParamView::Integer(x)],
        None => Seq::empty(),
    }
}

/// The bound value of a text filter, where present.
pub open spec fn text_param(v: Option<String>) -> Seq<SqlParamView> {
    match v {
        Some(s) => seq![SqlParamView::Text(s@)],
        None => Seq::empty(),
    }
}

/// An unsigned value as the signed column stores it.
pub open spec fn signed(v: Option<u64>) -> Option<i64> {
    match v {
        Some(x) => Some(x as i64),
        None => None,
    }
}

/// The tests of a query, one per filter it sets, in a fixed order.
pub open spec fn spec_query_tests(q: TelemetryQuery) -> Seq<Seq<char>> {
    test_if(q.tenant_hash is Some, "tenant_hash = ?"@) + test_if(q.kind is Some, "kind = ?"@) + test_if(
        q.start_ms is Some,
        "ts_ms >= ?"@,
    ) + test_if(q.end_ms is Some, "ts_ms <= ?"@) + test_if(q.severity is Some, "severity = ?"@) + test_if(
        q.metric_name is Some,
        "metric_name = ?"@,
    ) + test_if(q.event_global_pos is Some, "event_global_pos = ?"@) + test_if(
        q.stream_hash is Some,
        "stream_hash = ?"@,
    ) + test_if(q.stream_rev is Some, "stream_rev = ?"@) + test_if(q.command_id is Some, "command_id = ?"@)
        + test_if(q.trace_id is Some, "trace_id = ?"@)
}

/// The values bound to the tests of a query, in the same order.
pub open spec fn spec_query_params(q: TelemetryQuery) -> Seq<SqlParamView> {
    int_param(q.tenant_hash) + int_param(
        match q.kind {
            Some(k) => Some(spec_kind_code(k)),
            None => None,
        },
    ) + int_param(signed(q.start_ms)) + int_param(signed(q.end_ms)) + int_param(q.severity) + text_param(
        q.metric_name,
    ) + int_param(signed(q.event_global_pos)) + int_param(q.stream_hash) + int_param(signed(q.stream_rev))
        + text_param(q.command_id) + text_param(q.trace_id)
}

/// The SQL a query runs on a shard: all columns, its tests joined with `AND`
/// where it has any, by timestamp in its order.
pub open spec fn spec_query_sql(q: TelemetryQuery) -> Seq<char> {
    let tests = spec_query_tests(q);
    QUERY_SELECT@ + (if tests.len() == 0 {
        Seq::empty()
    } else {
        " WHERE "@ + seq_join(tests, " AND "@)
    }) + " ORDER BY ts_ms "@ + (if q.order == TelemetryOrder::Asc {
        "ASC"@
    } else {
        "DESC"@
    })
}

pub open spec fn opt_param_view(p: Option<SqlParam>) -> Seq<SqlParamView> {
    match p {
        Some(v) => seq![param_view(v)],
        None => Seq::empty(),
    }
}

fn add_filter(clauses: &mut Vec<String>, params: &mut Vec<SqlParam>, test: &str, param: Option<SqlParam>)
    ensures
        views(final(clauses)@) == views(old(clauses)@) + test_if(param is Some, test@),
        params_view(final(params)@) == params_view(old(params)@) + opt_param_view(param),
{
    let ghost c0 = views(clauses@);
    let ghost p0 = params_view(params@);
    match param {
        Some(p) => {
            clauses.push(to_owned_string(test));
            params.push(p);
            assert(views(clauses@) =~= c0 + test_if(true, test@));
            assert(params_view(params@) =~= p0 + opt_param_view(Some(p)));
        },
        None => {
            assert(views(clauses@) =~= c0 + test_if(false, test@));
            assert(params_view(params@) =~= p0 + opt_param_view(None::<SqlParam>));
        },
    }
}

fn int_opt(v: Option<i64>) -> (r: Option<SqlParam>)
    ensures
        opt_param_view(r) == int_param(v),
        r is Some <==> v is Some,
{
    match v {
        Some(x) => Some(SqlParam::Integer(x)),
        None => None,
    }
}

fn text_opt(v: &Option<String>) -> (r: Option<SqlParam>)
    ensures
        opt_param_view(r) == text_param(*v),
        r is Some <==> v is Some,
{
    match v {
        Some(s) => Some(SqlParam::Text(s.clone())),
        None => None,
    }
}

fn signed_opt(v: Option<u64>) -> (r: Option<i64>)
    ensures
        r == signed(v),
{
    match v {
        Some(x) => Some(x as i64),
        None => None,
    }
}

/// The SQL a query runs on each shard, with the values bound to its `?`s.
pub fn telemetry_query_sql(query: &TelemetryQuery) -> (r: (String, Vec<SqlParam>))
    ensures
        r.0@ == spec_query_sql(*query),
        params_view(r.1@) == spec_query_params(*query),
{
    let mut clauses: Vec<String> = Vec::new();
    let mut params: Vec<SqlParam> = Vec::new();
    let kind = match query.kind {
        Some(k) => Some(k.as_i64()),
        None => None,
    };
    add_filter(&mut clauses, &mut params, "tenant_hash = ?", int_opt(query.tenant_hash));
    add_filter(&mut clauses, &mut params, "kind = ?", int_opt(kind));
    add_filter(&mut clauses, &mut params, "ts_ms >= ?", int_opt(signed_opt(query.start_ms)));
    add_filter(&mut clauses, &mut params, "ts_ms <= ?", int_opt(signed_opt(query.end_ms)));
    add_filter(&mut clauses, &mut params, "severity = ?", int_opt(query.severity));
    add_filter(&mut clauses, &mut params, "metric_name = ?", text_opt(&query.metric_name));
    add_filter(&mut clauses, &mut params, "event_global_pos = ?", int_opt(signed_opt(query.event_global_pos)));
    add_filter(&mut clauses, &mut params, "stream_hash = ?", int_opt(query.stream_hash));
    add_filter(&mut clauses, &mut params, "stream_rev = ?", int_opt(signed_opt(query.stream_rev)));
    add_filter(&mut clauses, &mut params, "command_id = ?", text_opt(&query.command_id));
    add_filter(&mut clauses, &mut params, "trace_id = ?", text_opt(&query.trace_id));
    proof {
        assert(views(clauses@) =~= spec_query_tests(*query));
        assert(params_view(params@) =~= spec_query_params(*query));
    }
    let mut sql = to_owned_string(QUERY_SELECT);
    if clauses.len() > 0 {
        sql.append(" WHERE ");
        let joined = join(&clauses, " AND ");
        sql.append(joined.as_str());
    }
    sql.append(" ORDER BY ts_ms ");
    let asc = match query.order {
        TelemetryOrder::Asc => true,
        TelemetryOrder::Desc => false,
    };
    if asc {
        sql.append("ASC");
    } else {
        sql.append("DESC");
    }
    proof {
        assert(sql@ =~= spec_query_sql(*query));
    }
    (sql, params)
}

// ---------------------------------------------------------------------------
// Query results
// ---------------------------------------------------------------------------

/// Whether the `i`-th gathered record is returned before the `j`-th: by
/// timestamp, oldest first, the earlier gathered first among equal ones;
/// newest first (and the later gathered first) for a descending query.
pub open spec fn returned_before(ts: Seq<u64>, desc: bool, i: int, j: int) -> bool {
    if desc {
        ts[i] > ts[j] || (ts[i] == ts[j] && i > j)
    } else {
        ts[i] < ts[j] || (ts[i] == ts[j] && i < j)
    }
}

/// How many records a query returns: all, or at most its limit.
pub open spec fn returned_count(n: nat, limit: Option<usize>) -> nat {
    match limit {
        Some(l) => if l < n {
            l as nat
        } else {
            n
        },
        None => n,
    }
}

/// `r` picks, from the records gathered with timestamps `ts`, those a query
/// returns, in the order it returns them: the first `returned_count` records
/// in the query's order.
pub open spec fn is_query_selection(ts: Seq<u64>, desc: bool, limit: Option<usize>, r: Seq<usize>) -> bool {
    &&& r.len() == returned_count(ts.len(), limit)
    &&& forall|p: int| 0 <= p < r.len() ==> #[trigger] r[p] < ts.len()
    &&& forall|p: int, q: int| 0 <= p < q < r.len() ==> returned_before(ts, desc, #[trigger] r[p] as int, #[trigger] r[q] as int)
    &&& forall|p: int, x: int|
        0 <= p < r.len() && 0 <= x < ts.len() && !r.contains(x as usize) ==> #[trigger] returned_before(
            ts,
            desc,
            r[p] as int,
            x,
        )
}

fn comes_before(ts: &Vec<u64>, desc: bool, i: usize, j: usize) -> (r: bool)
    requires
        i < ts@.len(),
        j < ts@.len(),
    ensures
        r == returned_before(ts@, desc, i as int, j as int),
{
    if desc {
        ts[i] > ts[j] || (ts[i] == ts[j] && i > j)
    } else {
        ts[i] < ts[j] || (ts[i] == ts[j] && i < j)
    }
}

/// The gathered records a query returns, as their positions in the order it
/// returns them: sorted by timestamp (stably), newest first for a
/// descending query, cut to its limit.
pub fn select_query_results(ts: &Vec<u64>, order: TelemetryOrder, limit: Option<usize>) -> (r: Vec<usize>)
    ensures
        is_query_selection(ts@, order == TelemetryOrder::Desc, limit, r@),
{
    let desc = match order {
        TelemetryOrder::Asc => false,
        TelemetryOrder::Desc => true,
    };
    let ghost t = ts@;
    let mut out: Vec<usize> = Vec::new();
    let mut i: usize = 0;
    while i < ts.len()
        invariant
            t == ts@,
            i <= t.len(),
            out@.len() == i,
            forall|p: int| 0 <= p < out@.len() ==> #[trigger] out@[p] < i,
            forall|x: int| 0 <= x < i ==> #[trigger] out@.contains(x as usize),
            forall|p: int, q: int| 0 <= p < q < out@.len() ==> returned_before(t, desc, #[trigger] out@[p] as int, #[trigger] out@[q] as int),
        decreases t.len() - i,
    {
        let mut pos: usize = 0;
        while pos < out.len() && comes_before(ts, desc, out[pos], i)
            invariant
                t == ts@,
                i < t.len(),
                pos <= out@.len(),
                forall|p: int| 0 <= p < out@.len() ==> #[trigger] out@[p] < i,
                forall|p: int| 0 <= p < pos ==> returned_before(t, desc, #[trigger] out@[p] as int, i as int),
            decreases out@.len() - pos,
        {
            pos = pos + 1;
        }
        let ghost before = out@;
        out.insert(pos, i);
        proof {
            assert forall|p: int| 0 <= p < out@.len() implies #[trigger] out@[p] < i + 1 by {
                if p < pos {
                    assert(out@[p] == before[p]);
                } else if p > pos {
                    assert(out@[p] == before[p - 1]);
                }
            }
            assert forall|x: int| 0 <= x < i + 1 implies #[trigger] out@.contains(x as usize) by {
                if x == i {
                    assert(out@[pos as int] == i);
                } else {
                    assert(before.contains(x as usize));
                    let k = choose|k: int| 0 <= k < before.len() && before[k] == x as usize;
                    if k < pos {
                        assert(out@[k] == before[k]);
                    } else {
                        assert(out@[k + 1] == before[k]);
                    }
                }
            }
            assert forall|p: int, q: int| 0 <= p < q < out@.len() implies returned_before(
                t,
                desc,
                #[trigger] out@[p] as int,
                #[trigger] out@[q] as int,
            ) by {
                if q < pos {
                    assert(out@[p] == before[p] && out@[q] == before[q]);
                } else if q == pos {
                    assert(out@[p] == before[p]);
                } else if p == pos {
                    assert(out@[q] == before[q - 1]);
                    assert(before[q - 1] < i);
                    if pos < before.len() {
                        assert(before[pos as int] < i);
                        if q - 1 > pos {
                            assert(returned_before(t, desc, before[pos as int] as int, before[q - 1] as int));
                        }
                    }
                } else if p < pos {
                    assert(out@[p] == before[p] && out@[q] == before[q - 1]);
                } else {
                    assert(out@[p] == before[p - 1] && out@[q] == before[q - 1]);
                }
            }
        }
        i = i + 1;
    }
    let ghost full = out@;
    match limit {
        Some(l) => {
            out.truncate(l);
        },
        None => {},
    }
    proof {
        assert forall|p: int, x: int|
            0 <= p < out@.len() && 0 <= x < t.len() && !out@.contains(x as usize) implies #[trigger] returned_before(
            t,
            desc,
            out@[p] as int,
            x,
        ) by {
            assert(full.contains(x as usize));
            let k = choose|k: int| 0 <= k < full.len() && full[k] == x as usize;
            assert(out@[p] == full[p]);
            if k < out@.len() {
                assert(out@[k] == full[k]);
                assert(out@.contains(x as usize));
            }
        }
    }
    out
}

// ---------------------------------------------------------------------------
// Tails
// ---------------------------------------------------------------------------

/// A record a tail read from a shard: the shard, the record's timestamp and
/// id.
#[derive(Debug, Clone, Copy)]
pub struct TailEntry {
    pub shard: usize,
    pub ts_ms: u64,
    pub id: Option<i64>,
}

/// Record ids in order, no id first.
pub open spec fn id_lt(a: Option<i64>, b: Option<i64>) -> bool {
    match (a, b) {
        (None, Some(_)) => true,
        (Some(x), Some(y)) => x < y,
        _ => false,
    }
}

/// Whether the `i`-th record read is returned before the `j`-th: by
/// timestamp, then id, then the order they were read in.
pub open spec fn tailed_before(es: Seq<TailEntry>, i: int, j: int) -> bool {
    ||| es[i].ts_ms < es[j].ts_ms
    ||| (es[i].ts_ms == es[j].ts_ms && id_lt(es[i].id, es[j].id))
    ||| (es[i].ts_ms == es[j].ts_ms && es[i].id == es[j].id && i < j)
}

/// `r` picks the records a tail returns, in order: the first `limit` of
/// those read, in tail order.
pub open spec fn is_tail_selection(es: Seq<TailEntry>, limit: usize, r: Seq<usize>) -> bool {
    &&& r.len() == returned_count(es.len(), Some(limit))
    &&& forall|p: int| 0 <= p < r.len() ==> #[trigger] r[p] < es.len()
    &&& forall|p: int, q: int| 0 <= p < q < r.len() ==> tailed_before(es, #[trigger] r[p] as int, #[trigger] r[q] as int)
    &&& forall|p: int, x: int|
        0 <= p < r.len() && 0 <= x < es.len() && !r.contains(x as usize) ==> #[trigger] tailed_before(
            es,
            r[p] as int,
            x,
        )
}

/// The cursor ids a tail starts from: padded with 0 to one per shard.
pub open spec fn padded_ids(ids: Seq<i64>, partitions: nat) -> Seq<i64> {
    if ids.len() < partitions {
        Seq::new(partitions, |s: int| if s < ids.len() { ids[s] } else { 0i64 })
    } else {
        ids
    }
}

/// `next` is the largest of `start` and the ids of the returned records of
/// shard `s`.
pub open spec fn is_advanced_id(es: Seq<TailEntry>, r: Seq<usize>, s: int, start: i64, next: i64) -> bool {
    &&& start <= next
    &&& forall|p: int|
        0 <= p < r.len() && es[r[p] as int].shard == s && (#[trigger] es[r[p] as int]).id is Some ==> es[r[p] as int].id->0
            <= next
    &&& (next == start || exists|p: int|
        0 <= p < r.len() && es[r[p] as int].shard == s && (#[trigger] es[r[p] as int]).id == Some(next))
}

fn tail_before(es: &Vec<TailEntry>, i: usize, j: usize) -> (r: bool)
    requires
        i < es@.len(),
        j < es@.len(),
    ensures
        r == tailed_before(es@, i as int, j as int),
{
    let a = es[i];
    let b = es[j];
    if a.ts_ms != b.ts_ms {
        return a.ts_ms < b.ts_ms;
    }
    match (a.id, b.id) {
        (None, Some(_)) => true,
        (Some(_), None) => false,
        (Some(x), Some(y)) => x < y || (x == y && i < j),
        (None, None) => i < j,
    }
}

/// The order of the records a tail read, cut to `limit`.
fn select_tail_entries(es: &Vec<TailEntry>, limit: usize) -> (r: Vec<usize>)
    ensures
        is_tail_selection(es@, limit, r@),
{
    let ghost t = es@;
    let mut out: Vec<usize> = Vec::new();
    let mut i: usize = 0;
    while i < es.len()
        invariant
            t == es@,
            i <= t.len(),
            out@.len() == i,
            forall|p: int| 0 <= p < out@.len() ==> #[trigger] out@[p] < i,
            forall|x: int| 0 <= x < i ==> #[trigger] out@.contains(x as usize),
            forall|p: int, q: int| 0 <= p < q < out@.len() ==> tailed_before(t, #[trigger] out@[p] as int, #[trigger] out@[q] as int),
        decreases t.len() - i,
    {
        let mut pos: usize = 0;
        while pos < out.len() && tail_before(es, out[pos], i)
            invariant
                t == es@,
                i < t.len(),
                pos <= out@.len(),
                forall|p: int| 0 <= p < out@.len() ==> #[trigger] out@[p] < i,
                forall|p: int| 0 <= p < pos ==> tailed_before(t, #[trigger] out@[p] as int, i as int),
            decreases out@.len() - pos,
        {
            pos = pos + 1;
        }
        let ghost before = out@;
        out.insert(pos, i);
        proof {
            assert forall|p: int| 0 <= p < out@.len() implies #[trigger] out@[p] < i + 1 by {
                if p < pos {
                    assert(out@[p] == before[p]);
                } else if p > pos {
                    assert(out@[p] == before[p - 1]);
                }
            }
            assert forall|x: int| 0 <= x < i + 1 implies #[trigger] out@.contains(x as usize) by {
                if x == i {
                    assert(out@[pos as int] == i);
                } else {
                    assert(before.contains(x as usize));
                    let k = choose|k: int| 0 <= k < before.len() && before[k] == x as usize;
                    if k < pos {
                        assert(out@[k] == before[k]);
                    } else {
                        assert(out@[k + 1] == before[k]);
                    }
                }
            }
            assert forall|p: int, q: int| 0 <= p < q < out@.len() implies tailed_before(
                t,
                #[trigger] out@[p] as int,
                #[trigger] out@[q] as int,
            ) by {
                if q < pos {
                    assert(out@[p] == before[p] && out@[q] == before[q]);
                } else if q == pos {
                    assert(out@[p] == before[p]);
                } else if p == pos {
                    assert(out@[q] == before[q - 1]);
                    assert(before[q - 1] < i);
                    if pos < before.len() {
                        assert(before[pos as int] < i);
                        if q - 1 > pos {
                            assert(tailed_before(t, before[pos as int] as int, before[q - 1] as int));
                        }
                    }
                } else if p < pos {
                    assert(out@[p] == before[p] && out@[q] == before[q - 1]);
                } else {
                    assert(out@[p] == before[p - 1] && out@[q] == before[q - 1]);
                }
            }
        }
        i = i + 1;
    }
    let ghost full = out@;
    out.truncate(limit);
    proof {
        assert forall|p: int, x: int|
            0 <= p < out@.len() && 0 <= x < t.len() && !out@.contains(x as usize) implies #[trigger] tailed_before(
            t,
            out@[p] as int,
            x,
        ) by {
            assert(full.contains(x as usize));
            let k = choose|k: int| 0 <= k < full.len() && full[k] == x as usize;
            assert(out@[p] == full[p]);
            if k < out@.len() {
                assert(out@[k] == full[k]);
                assert(out@.contains(x as usize));
            }
        }
    }
    out
}

/// The cursor ids padded with 0 to one per shard.
fn pad_ids(ids: &Vec<i64>, partitions: usize) -> (r: Vec<i64>)
    ensures
        r@ == padded_ids(ids@, partitions as nat),
{
    let mut out: Vec<i64> = Vec::new();
    let mut k: usize = 0;
    while k < ids.len()
        invariant
            k <= ids@.len(),
            out@ == ids@.subrange(0, k as int),
        decreases ids@.len() - k,
    {
        out.push(ids[k]);
        k = k + 1;
        assert(out@ =~= ids@.subrange(0, k as int));
    }
    assert(out@ =~= ids@);
    while k < partitions
        invariant
            ids@.len() <= k,
            k <= partitions || k == ids@.len(),
            out@.len() == k,
            forall|s: int| 0 <= s < k ==> #[trigger] out@[s] == (if s < ids@.len() { ids@[s] } else { 0i64 }),
        decreases partitions - k,
    {
        out.push(0);
        k = k + 1;
    }
    proof {
        if ids@.len() < partitions {
            assert(out@ =~= padded_ids(ids@, partitions as nat));
        } else {
            assert(out@ =~= ids@);
        }
    }
    out
}

/// Merges what one round of a tail read from the shards (`entries`, each
/// shard's new records after its cursor id): the records returned, as
/// positions in `entries`, and the cursor after them. With nothing read the
/// cursor stays as it is; otherwise the first `limit` records in order of
/// timestamp, id and reading are returned, and each shard's cursor id moves
/// up to the largest id returned from it.
pub fn merge_tail(entries: &Vec<TailEntry>, cursor: &TelemetryCursor, partitions: usize, limit: usize) -> (r: (
    Vec<usize>,
    TelemetryCursor,
))
    requires
        forall|k: int| 0 <= k < entries@.len() ==> #[trigger] entries@[k].shard < partitions,
    ensures
        r.1.slice@ == cursor.slice@,
        entries@.len() == 0 ==> r.0@.len() == 0 && r.1.last_ids@ == cursor.last_ids@,
        entries@.len() > 0 ==> {
            &&& is_tail_selection(entries@, limit, r.0@)
            &&& r.1.last_ids@.len() == padded_ids(cursor.last_ids@, partitions as nat).len()
            &&& forall|s: int|
                0 <= s < r.1.last_ids@.len() ==> is_advanced_id(
                    entries@,
                    r.0@,
                    s,
                    padded_ids(cursor.last_ids@, partitions as nat)[s],
                    #[trigger] r.1.last_ids@[s],
                )
        },
{
    if entries.len() == 0 {
        let ids = pad_ids(&cursor.last_ids, 0);
        return (Vec::new(), TelemetryCursor { slice: cursor.slice.clone(), last_ids: ids });
    }
    let sel = select_tail_entries(entries, limit);
    let ghost base = padded_ids(cursor.last_ids@, partitions as nat);
    let mut ids = pad_ids(&cursor.last_ids, partitions);
    let mut p: usize = 0;
    while p < sel.len()
        invariant
            is_tail_selection(entries@, limit, sel@),
            forall|k: int| 0 <= k < entries@.len() ==> #[trigger] entries@[k].shard < partitions,
            base.len() >= partitions,
            p <= sel@.len(),
            ids@.len() == base.len(),
            forall|s: int|
                0 <= s < ids@.len() ==> is_advanced_id(entries@, sel@.subrange(0, p as int), s, base[s], #[trigger] ids@[s]),
        decreases sel@.len() - p,
    {
        let e = entries[sel[p]];
        let ghost prev = ids@;
        let ghost r0 = sel@.subrange(0, p as int);
        let ghost r1 = sel@.subrange(0, p + 1);
        assert(sel@[p as int] < entries@.len());
        match e.id {
            Some(id) => {
                if id > ids[e.shard] {
                    ids.set(e.shard, id);
                }
            },
            None => {},
        }
        proof {
            assert forall|s: int| 0 <= s < ids@.len() implies is_advanced_id(entries@, r1, s, base[s], #[trigger] ids@[s]) by {
                assert(is_advanced_id(entries@, r0, s, base[s], prev[s]));
                assert forall|q: int|
                    0 <= q < r1.len() && entries@[r1[q] as int].shard == s && (#[trigger] entries@[r1[q] as int]).id is Some implies entries@[r1[q] as int].id->0
                        <= ids@[s] by {
                    if q < p {
                        assert(r1[q] == r0[q]);
                        assert(entries@[r0[q] as int].id->0 <= prev[s]);
                    }
                }
                if ids@[s] != base[s] {
                    if ids@[s] == prev[s] {
                        let q = choose|q: int|
                            0 <= q < r0.len() && entries@[r0[q] as int].shard == s && (#[trigger] entries@[r0[q] as int]).id == Some(prev[s]);
                        assert(r1[q] == r0[q]);
                        assert(0 <= q < r1.len() && entries@[r1[q] as int].shard == s && entries@[r1[q] as int].id == Some(ids@[s]));
                    } else {
                        assert(r1[p as int] == sel@[p as int]);
                        assert(0 <= p < r1.len() && entries@[r1[p as int] as int].shard == s && entries@[r1[p as int] as int].id == Some(ids@[s]));
                    }
                }
            }
        }
        p = p + 1;
    }
    proof {
        assert(sel@.subrange(0, sel@.len() as int) =~= sel@);
    }
    (sel, TelemetryCursor { slice: cursor.slice.clone(), last_ids: ids })
}

} // verus!
