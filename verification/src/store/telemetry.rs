//! Telemetry types: record kinds and their stored codes, query order and
//! parameters, time slicing, store configuration and tail cursors; which
//! daily slices a timestamp, a time range or a query reads; which shard a
//! record is routed to.

use vstd::prelude::*;

use chrono::Datelike;

use crate::store::error::Error;
use crate::text::{push_char, push_i64_decimal, spec_int_decimal, spec_nat_decimal, to_owned_string, views, bytes_less, bytes_lt, lemma_lt_irrefl, lemma_lt_trans};

verus! {

/// Telemetry record kind.
#[derive(Debug, Clone, Copy, PartialEq, Eq, Structural, Hash)]
pub enum TelemetryKind {
    Log,
    Metric,
    Span,
}

/// The stored code of a record kind.
pub open spec fn spec_kind_code(k: TelemetryKind) -> i64 {
    match k {
        TelemetryKind::Log => 0,
        TelemetryKind::Metric => 1,
        TelemetryKind::Span => 2,
    }
}

impl TelemetryKind {
    /// The stored code: 0 log, 1 metric, 2 span.
    pub fn as_i64(self) -> (r: i64)
        ensures
            r == spec_kind_code(self),
    {
        match self {
            TelemetryKind::Log => 0,
            TelemetryKind::Metric => 1,
            TelemetryKind::Span => 2,
        }
    }

    /// The kind of a stored code; None for any other code.
    pub fn from_i64(value: i64) -> (r: Option<TelemetryKind>)
        ensures
            match r {
                Some(k) => spec_kind_code(k) == value,
                None => value < 0 || value > 2,
            },
    {
        match value {
            0 => Some(TelemetryKind::Log),
            1 => Some(TelemetryKind::Metric),
            2 => Some(TelemetryKind::Span),
            _ => None,
        }
    }
}

/// Metric aggregation semantics.
#[derive(Debug, Clone, Copy, PartialEq, Eq, Structural, Hash)]
pub enum MetricKind {
    Gauge,
    Counter,
    Histogram,
    Summary,
}

/// The stored code of a metric kind.
pub open spec fn spec_metric_code(k: MetricKind) -> i64 {
    match k {
        MetricKind::Gauge => 0,
        MetricKind::Counter => 1,
        MetricKind::Histogram => 2,
        MetricKind::Summary => 3,
    }
}

impl MetricKind {
    /// The stored code: 0 gauge, 1 counter, 2 histogram, 3 summary.
    pub fn as_i64(self) -> (r: i64)
        ensures
            r == spec_metric_code(self),
    {
        match self {
            MetricKind::Gauge => 0,
            MetricKind::Counter => 1,
            MetricKind::Histogram => 2,
            MetricKind::Summary => 3,
        }
    }

    /// The metric kind of a stored code; None for any other code.
    pub fn from_i64(value: i64) -> (r: Option<MetricKind>)
        ensures
            match r {
                Some(k) => spec_metric_code(k) == value,
                None => value < 0 || value > 3,
            },
    {
        match value {
            0 => Some(MetricKind::Gauge),
            1 => Some(MetricKind::Counter),
            2 => Some(MetricKind::Histogram),
            3 => Some(MetricKind::Summary),
            _ => None,
        }
    }
}

/// Span status code.
#[derive(Debug, Clone, Copy, PartialEq, Eq, Structural, Hash)]
pub enum SpanStatus {
    Unset,
    Success,
    Error,
}

/// The stored code of a span status.
pub open spec fn spec_status_code(s: SpanStatus) -> i64 {
    match s {
        SpanStatus::Unset => 0,
        SpanStatus::Success => 1,
        SpanStatus::Error => 2,
    }
}

impl SpanStatus {
    /// The stored code: 0 unset, 1 success, 2 error.
    pub fn as_i64(self) -> (r: i64)
        ensures
            r == spec_status_code(self),
    {
        match self {
            SpanStatus::Unset => 0,
            SpanStatus::Success => 1,
            SpanStatus::Error => 2,
        }
    }

    /// The span status of a stored code; None for any other code.
    pub fn from_i64(value: i64) -> (r: Option<SpanStatus>)
        ensures
            match r {
                Some(s) => spec_status_code(s) == value,
                None => value < 0 || value > 2,
            },
    {
        match value {
            0 => Some(SpanStatus::Unset),
            1 => Some(SpanStatus::Success),
            2 => Some(SpanStatus::Error),
            _ => None,
        }
    }
}

/// Reading back the stored code of a record kind gives the kind again, and
/// distinct kinds have distinct codes.
pub proof fn law_kind_code_roundtrip(k: TelemetryKind, j: TelemetryKind)
    ensures
        0 <= spec_kind_code(k) <= 2,
        spec_kind_code(k) == spec_kind_code(j) ==> k == j,
{
}

/// Reading back the stored code of a metric kind gives the kind again, and
/// distinct kinds have distinct codes.
pub proof fn law_metric_code_roundtrip(k: MetricKind, j: MetricKind)
    ensures
        0 <= spec_metric_code(k) <= 3,
        spec_metric_code(k) == spec_metric_code(j) ==> k == j,
{
}

/// Reading back the stored code of a span status gives the status again, and
/// distinct statuses have distinct codes.
pub proof fn law_status_code_roundtrip(s: SpanStatus, t: SpanStatus)
    ensures
        0 <= spec_status_code(s) <= 2,
        spec_status_code(s) == spec_status_code(t) ==> s == t,
{
}

/// Sort order for queries; newest first by default.
#[derive(Debug, Clone, Copy, PartialEq, Eq, Structural, Hash)]
pub enum TelemetryOrder {
    Asc,
    Desc,
}

impl Default for TelemetryOrder {
    fn default() -> (r: TelemetryOrder)
        ensures
            r == TelemetryOrder::Desc,
    {
        TelemetryOrder::Desc
    }
}

/// Time-slicing strategy for telemetry shards.
#[derive(Debug, Clone, Copy, PartialEq, Eq, Structural, Hash)]
pub enum TimeSlice {
    Daily,
}

impl TimeSlice {
    /// The strategy's name: `daily`.
    pub fn to_string(&self) -> (r: String)
        ensures
            r@ == "daily"@,
    {
        match self {
            TimeSlice::Daily => to_owned_string("daily"),
        }
    }
}

/// Configuration for telemetry storage.
#[derive(Debug, Clone)]
pub struct TelemetryConfig {
    /// App name used for the directory layout under the telemetry root.
    pub app_name: String,
    /// Number of partitions (shards).
    pub partitions: usize,
    /// Max batch latency in milliseconds.
    pub batch_max_ms: u64,
    /// Max batch size in bytes (approximate).
    pub batch_max_bytes: usize,
    /// Max batch size in records.
    pub batch_max_records: usize,
    /// Maximum in-flight records queued per shard.
    pub max_inflight: usize,
    /// Retention in days (older slices are removed).
    pub retention_days: u64,
    /// Time slicing policy.
    pub time_slice: TimeSlice,
    /// Default service name for records that name none.
    pub default_service: Option<String>,
}

impl TelemetryConfig {
    /// The default configuration for `app_name`: 8 partitions, batches of at
    /// most 10 ms, 256 KiB or 2000 records, 50000 records in flight per
    /// shard, 30 days of retention, daily slices, no default service.
    pub fn new(app_name: String) -> (r: TelemetryConfig)
        ensures
            r.app_name == app_name,
            r.partitions == 8,
            r.batch_max_ms == 10,
            r.batch_max_bytes == 256 * 1024,
            r.batch_max_records == 2000,
            r.max_inflight == 50000,
            r.retention_days == 30,
            r.time_slice == TimeSlice::Daily,
            r.default_service is None,
    {
        TelemetryConfig {
            app_name,
            partitions: 8,
            batch_max_ms: 10,
            batch_max_bytes: 256 * 1024,
            batch_max_records: 2000,
            max_inflight: 50000,
            retention_days: 30,
            time_slice: TimeSlice::Daily,
            default_service: None,
        }
    }
}

impl Default for TelemetryConfig {
    fn default() -> (r: TelemetryConfig)
        ensures
            r.app_name@ == "app"@,
            r.partitions == 8,
            r.batch_max_ms == 10,
            r.batch_max_bytes == 256 * 1024,
            r.batch_max_records == 2000,
            r.max_inflight == 50000,
            r.retention_days == 30,
            r.time_slice == TimeSlice::Daily,
            r.default_service is None,
    {
        TelemetryConfig::new(to_owned_string("app"))
    }
}

/// Query parameters for telemetry searches. Positions and revisions are held
/// as their raw `u64` values, tenant and stream hashes as their raw `i64`
/// values, and command ids as text.
#[derive(Debug)]
pub struct TelemetryQuery {
    pub tenant_hash: Option<i64>,
    pub kind: Option<TelemetryKind>,
    pub start_ms: Option<u64>,
    pub end_ms: Option<u64>,
    pub severity: Option<i64>,
    pub metric_name: Option<String>,
    pub event_global_pos: Option<u64>,
    pub stream_hash: Option<i64>,
    pub stream_rev: Option<u64>,
    pub command_id: Option<String>,
    pub trace_id: Option<String>,
    pub limit: Option<usize>,
    pub order: TelemetryOrder,
    pub slice: Option<String>,
    pub shard_id: Option<usize>,
}

/// A query that filters on nothing and returns the newest records first.
pub open spec fn is_open_query(q: TelemetryQuery) -> bool {
    &&& q.tenant_hash is None
    &&& q.kind is None
    &&& q.start_ms is None
    &&& q.end_ms is None
    &&& q.severity is None
    &&& q.metric_name is None
    &&& q.event_global_pos is None
    &&& q.stream_hash is None
    &&& q.stream_rev is None
    &&& q.command_id is None
    &&& q.trace_id is None
    &&& q.limit is None
    &&& q.order == TelemetryOrder::Desc
    &&& q.slice is None
    &&& q.shard_id is None
}

impl TelemetryQuery {
    /// A query with no filter, newest records first.
    pub fn new() -> (r: TelemetryQuery)
        ensures
            is_open_query(r),
    {
        TelemetryQuery {
            tenant_hash: None,
            kind: None,
            start_ms: None,
            end_ms: None,
            severity: None,
            metric_name: None,
            event_global_pos: None,
            stream_hash: None,
            stream_rev: None,
            command_id: None,
            trace_id: None,
            limit: None,
            order: TelemetryOrder::default(),
            slice: None,
            shard_id: None,
        }
    }
}

impl Default for TelemetryQuery {
    fn default() -> (r: TelemetryQuery)
        ensures
            is_open_query(r),
    {
        TelemetryQuery::new()
    }
}

/// The settings a store opens with, as `prepare_store_config` gives them.
pub open spec fn is_store_config(given: TelemetryConfig, c: TelemetryConfig) -> bool {
    &&& c.app_name@ == given.app_name@
    &&& c.partitions == given.partitions
    &&& c.batch_max_ms == given.batch_max_ms
    &&& c.batch_max_bytes == given.batch_max_bytes
    &&& c.batch_max_records == given.batch_max_records
    &&& c.max_inflight == given.max_inflight
    &&& c.retention_days == given.retention_days
    &&& c.time_slice == given.time_slice
    &&& c.default_service matches Some(s) && s@ == (match given.default_service {
        Some(d) => d@,
        None => given.app_name@,
    })
}

/// Checks the settings a store is opened with: at least one partition and a
/// batch of at least one record; records without a service are attributed
/// to the app.
pub fn prepare_store_config(config: TelemetryConfig) -> (r: Result<TelemetryConfig, Error>)
    ensures
        if config.partitions == 0 {
            r matches Err(Error::Schema(m)) && m@ == "telemetry partitions must be >= 1"@
        } else if config.batch_max_records == 0 {
            r matches Err(Error::Schema(m)) && m@ == "telemetry batch_max_records must be >= 1"@
        } else {
            r matches Ok(c) && is_store_config(config, c)
        },
{
    if config.partitions == 0 {
        return Err(Error::Schema(to_owned_string("telemetry partitions must be >= 1")));
    }
    if config.batch_max_records == 0 {
        return Err(Error::Schema(to_owned_string("telemetry batch_max_records must be >= 1")));
    }
    let ghost given = config;
    let mut config = config;
    if config.default_service.is_none() {
        config.default_service = Some(config.app_name.clone());
    }
    Ok(config)
}

/// Correlation reference to a specific event: its global position, stream,
/// revision, tenant hash and command. Positions and revisions are raw `u64`
/// values, the tenant hash its raw `i64` value.
#[derive(Debug, Clone)]
pub struct EventRef {
    pub global_pos: u64,
    pub stream_id: String,
    pub stream_rev: u64,
    pub tenant_hash: i64,
    pub command_id: String,
}

impl EventRef {
    pub fn new(global_pos: u64, stream_id: String, stream_rev: u64, tenant_hash: i64, command_id: String) -> (r: Self)
        ensures
            r.global_pos == global_pos,
            r.stream_id == stream_id,
            r.stream_rev == stream_rev,
            r.tenant_hash == tenant_hash,
            r.command_id == command_id,
    {
        EventRef { global_pos, stream_id, stream_rev, tenant_hash, command_id }
    }

    /// The references of the `event_count` events one append wrote to a
    /// stream: consecutive global positions from `first_pos` and revisions
    /// from `first_rev`, all with the append's stream, tenant and command.
    pub fn from_append(
        stream_id: &str,
        tenant_hash: i64,
        command_id: &str,
        first_pos: u64,
        first_rev: u64,
        event_count: u64,
    ) -> (r: Vec<EventRef>)
        requires
            first_pos + event_count <= u64::MAX,
            first_rev + event_count <= u64::MAX,
        ensures
            r@.len() == event_count,
            forall|k: int|
                0 <= k < r@.len() ==> {
                    &&& (#[trigger] r@[k]).global_pos == first_pos + k
                    &&& r@[k].stream_rev == first_rev + k
                    &&& r@[k].stream_id@ == stream_id@
                    &&& r@[k].tenant_hash == tenant_hash
                    &&& r@[k].command_id@ == command_id@
                },
    {
        let mut refs: Vec<EventRef> = Vec::new();
        let mut offset: u64 = 0;
        while offset < event_count
            invariant
                offset <= event_count,
                first_pos + event_count <= u64::MAX,
                first_rev + event_count <= u64::MAX,
                refs@.len() == offset,
                forall|k: int|
                    0 <= k < refs@.len() ==> {
                        &&& (#[trigger] refs@[k]).global_pos == first_pos + k
                        &&& refs@[k].stream_rev == first_rev + k
                        &&& refs@[k].stream_id@ == stream_id@
                        &&& refs@[k].tenant_hash == tenant_hash
                        &&& refs@[k].command_id@ == command_id@
                    },
            decreases event_count - offset,
        {
            refs.push(
                EventRef::new(
                    first_pos + offset,
                    to_owned_string(stream_id),
                    first_rev + offset,
                    tenant_hash,
                    to_owned_string(command_id),
                ),
            );
            offset = offset + 1;
        }
        refs
    }
}

/// Cursor for tailing the shards of a slice: the last record id read from
/// each shard.
#[derive(Debug, Clone)]
pub struct TelemetryCursor {
    pub slice: String,
    pub last_ids: Vec<i64>,
}

impl TelemetryCursor {
    /// A cursor at the start of `slice` for `partitions` shards.
    pub fn new(slice: String, partitions: usize) -> (r: TelemetryCursor)
        ensures
            r.slice == slice,
            r.last_ids@ == Seq::new(partitions as nat, |i: int| 0i64),
    {
        let mut last_ids: Vec<i64> = Vec::new();
        let mut i: usize = 0;
        while i < partitions
            invariant
                i <= partitions,
                last_ids@ == Seq::new(i as nat, |k: int| 0i64),
            decreases partitions - i,
        {
            last_ids.push(0);
            i = i + 1;
            assert(last_ids@ =~= Seq::new(i as nat, |k: int| 0i64));
        }
        TelemetryCursor { slice, last_ids }
    }
}

// ---------------------------------------------------------------------------
// Daily slices
// ---------------------------------------------------------------------------

/// The UTC calendar date (year, month, day) of a time given in milliseconds
/// since the Unix epoch, as chrono computes it; none outside chrono's range.
pub uninterp spec fn spec_utc_date_of_millis(ms: i64) -> Option<(i32, u32, u32)>;

/// `chrono::DateTime::<Utc>::from_timestamp_millis(ms)` and its
/// `date_naive()`, read as year, month and day: chrono's UTC date of the
/// instant, none where the instant is outside chrono's range.
#[verifier::external_body]
fn utc_date_of_millis(ms: i64) -> (r: Option<(i32, u32, u32)>)
    ensures
        r == spec_utc_date_of_millis(ms),
{
    match chrono::DateTime::<chrono::Utc>::from_timestamp_millis(ms) {
        Some(dt) => {
            let date = dt.date_naive();
            Some((date.year(), date.month(), date.day()))
        },
        None => None,
    }
}

/// `s` padded on the left with `0` to at least `width` characters.
pub open spec fn spec_zero_pad(s: Seq<char>, width: nat) -> Seq<char> {
    if s.len() >= width {
        s
    } else {
        Seq::new((width - s.len()) as nat, |i: int| '0') + s
    }
}

/// The decimal text of `n` zero-padded to `width`, a minus sign first and
/// counted in the width for a negative `n` (as `{:0width}` formats).
pub open spec fn spec_padded_decimal(n: int, width: nat) -> Seq<char> {
    if n < 0 {
        seq!['-'] + spec_zero_pad(spec_nat_decimal((-n) as nat), if width >= 1 { (width - 1) as nat } else { 0 })
    } else {
        spec_zero_pad(spec_nat_decimal(n as nat), width)
    }
}

/// The name of the daily slice of a date: `YYYY-MM-DD`.
pub open spec fn spec_slice_name(y: i32, m: u32, d: u32) -> Seq<char> {
    spec_padded_decimal(y as int, 4) + "-"@ + spec_padded_decimal(m as int, 2) + "-"@ + spec_padded_decimal(
        d as int,
        2,
    )
}

/// Appends the decimal text of `n`, zero-padded to `width`.
pub(crate) fn push_padded(out: &mut String, n: i64, width: usize)
    requires
        n > i64::MIN,
        width < 100,
    ensures
        final(out)@ == old(out)@ + spec_padded_decimal(n as int, width as nat),
{
    let mut digits = String::new();
    let mag: u64 = if n < 0 {
        (-n) as u64
    } else {
        n as u64
    };
    crate::text::push_u64_decimal(&mut digits, mag);
    let ghost dv = digits@;
    let w: usize = if n < 0 {
        if width >= 1 {
            width - 1
        } else {
            0
        }
    } else {
        width
    };
    if n < 0 {
        push_char(out, '-');
    }
    let len = digits.unicode_len();
    let pad_needed: usize = if len < w {
        w - len
    } else {
        0
    };
    let mut pad: usize = 0;
    let ghost before = out@;
    while pad < pad_needed
        invariant
            pad <= pad_needed,
            out@ == before + Seq::new(pad as nat, |i: int| '0'),
        decreases pad_needed - pad,
    {
        push_char(out, '0');
        pad = pad + 1;
        assert(out@ =~= before + Seq::new(pad as nat, |i: int| '0'));
    }
    out.append(digits.as_str());
    proof {
        if len >= w {
            assert(out@ =~= before + dv);
        } else {
            assert(out@ =~= before + (Seq::new((w - len) as nat, |i: int| '0') + dv));
        }
    }
}

/// Appends the slice name of a date.
fn push_slice_name(out: &mut String, y: i32, m: u32, d: u32)
    ensures
        final(out)@ == old(out)@ + spec_slice_name(y, m, d),
{
    let ghost start = out@;
    push_padded(out, y as i64, 4);
    push_char(out, '-');
    push_padded(out, m as i64, 2);
    push_char(out, '-');
    push_padded(out, d as i64, 2);
    proof {
        reveal_strlit("-");
        assert(out@ =~= start + spec_slice_name(y, m, d));
    }
}

/// The daily slice a timestamp (milliseconds since the Unix epoch, read as a
/// signed number) falls in: its UTC date as `YYYY-MM-DD`; a schema error
/// where the time is outside chrono's range.
pub fn slice_from_ts_ms(ts_ms: u64) -> (r: Result<String, Error>)
    ensures
        match spec_utc_date_of_millis(ts_ms as i64) {
            Some((y, m, d)) => r matches Ok(s) && s@ == spec_slice_name(y, m, d),
            None => r matches Err(Error::Schema(msg)) && msg@ == "telemetry timestamp is out of range"@,
        },
{
    let ts = ts_ms as i64;
    match utc_date_of_millis(ts) {
        Some((y, m, d)) => {
            let mut s = String::new();
            push_slice_name(&mut s, y, m, d);
            assert(s@ =~= spec_slice_name(y, m, d));
            Ok(s)
        },
        None => Err(Error::Schema(to_owned_string("telemetry timestamp is out of range"))),
    }
}

/// The day number (January 1 of year 1 being day 1) of the UTC date of a
/// time given in milliseconds since the Unix epoch, as chrono computes it;
/// none outside chrono's range.
pub uninterp spec fn spec_utc_day_of_millis(ms: i64) -> Option<i32>;

/// `chrono::DateTime::<Utc>::from_timestamp_millis(ms)`, its `date_naive()`
/// and that date's `num_days_from_ce()`: the day number of the instant's UTC
/// date, none where the instant is outside chrono's range.
#[verifier::external_body]
fn utc_day_of_millis(ms: i64) -> (r: Option<i32>)
    ensures
        r == spec_utc_day_of_millis(ms),
{
    match chrono::DateTime::<chrono::Utc>::from_timestamp_millis(ms) {
        Some(dt) => Some(dt.date_naive().num_days_from_ce()),
        None => None,
    }
}

/// The calendar date (year, month, day) of a day number (January 1 of year 1
/// being day 1), as chrono computes it; none outside chrono's range.
pub uninterp spec fn spec_date_of_day(day: i32) -> Option<(i32, u32, u32)>;

/// `chrono::NaiveDate::from_num_days_from_ce_opt(day)`, read as year, month
/// and day: the date of a day number, none outside chrono's range.
#[verifier::external_body]
fn date_of_day(day: i32) -> (r: Option<(i32, u32, u32)>)
    ensures
        r == spec_date_of_day(day),
{
    match chrono::NaiveDate::from_num_days_from_ce_opt(day) {
        Some(date) => Some((date.year(), date.month(), date.day())),
        None => None,
    }
}

/// The time (milliseconds since the Unix epoch) of midnight UTC at the start
/// of the date that `name` reads as under chrono's `%Y-%m-%d`; none where the
/// text does not read as a date.
pub uninterp spec fn spec_slice_start_millis(name: Seq<char>) -> Option<i64>;

/// `chrono::NaiveDate::parse_from_str(name, "%Y-%m-%d")`, then
/// `and_hms_opt(0, 0, 0)`, `and_utc()` and `timestamp_millis()`: the start of
/// the named day in milliseconds, none where the name is not such a date.
#[verifier::external_body]
fn slice_start_millis(name: &str) -> (r: Option<i64>)
    ensures
        r == spec_slice_start_millis(name@),
{
    match chrono::NaiveDate::parse_from_str(name, "%Y-%m-%d") {
        Ok(date) => match date.and_hms_opt(0, 0, 0) {
            Some(midnight) => Some(midnight.and_utc().timestamp_millis()),
            None => None,
        },
        Err(_) => None,
    }
}

/// The slice names of the `count` days from day number `first` on, as long
/// as each of those days has a date.
pub open spec fn spec_day_slices(first: int, count: nat) -> Option<Seq<Seq<char>>>
    decreases count,
{
    if count == 0 {
        Some(Seq::empty())
    } else {
        match spec_day_slices(first, (count - 1) as nat) {
            Some(prev) => match spec_date_of_day((first + count - 1) as i32) {
                Some((y, m, d)) => Some(prev.push(spec_slice_name(y, m, d))),
                None => None,
            },
            None => None,
        }
    }
}

/// What `slices_for_range(start_ms, end_ms)` gives: a schema error where
/// either end is outside chrono's range, nothing where the end's date comes
/// before the start's, else the slice of every date from the start's to the
/// end's. A day between without a date (which chrono never gives between two
/// of its dates) reads as an end out of range.
pub open spec fn is_range_slices(start_ms: u64, end_ms: u64, r: Result<Vec<String>, Error>) -> bool {
    match spec_utc_day_of_millis(start_ms as i64) {
        None => r matches Err(Error::Schema(msg)) && msg@ == "telemetry start time is out of range"@,
        Some(s) => match spec_utc_day_of_millis(end_ms as i64) {
            None => r matches Err(Error::Schema(msg)) && msg@ == "telemetry end time is out of range"@,
            Some(e) => if e < s {
                r matches Ok(v) && v@.len() == 0
            } else {
                match spec_day_slices(s as int, (e - s + 1) as nat) {
                    Some(names) => r matches Ok(v) && views(v@) == names,
                    None => r matches Err(Error::Schema(msg)) && msg@ == "telemetry end time is out of range"@,
                }
            },
        },
    }
}

/// The daily slices a time range covers: one per UTC date from the start's
/// to the end's, both included.
pub fn slices_for_range(start_ms: u64, end_ms: u64) -> (r: Result<Vec<String>, Error>)
    ensures
        is_range_slices(start_ms, end_ms, r),
{
    let s = match utc_day_of_millis(start_ms as i64) {
        Some(s) => s,
        None => return Err(Error::Schema(to_owned_string("telemetry start time is out of range"))),
    };
    let e = match utc_day_of_millis(end_ms as i64) {
        Some(e) => e,
        None => return Err(Error::Schema(to_owned_string("telemetry end time is out of range"))),
    };
    let mut slices: Vec<String> = Vec::new();
    if e < s {
        return Ok(slices);
    }
    let mut day: i64 = s as i64;
    let mut complete = true;
    while complete && day <= e as i64
        invariant
            s <= day <= e + 1,
            complete ==> (spec_day_slices(s as int, (day - s) as nat) matches Some(names) && views(slices@) == names),
            !complete ==> spec_day_slices(s as int, (e - s + 1) as nat) is None,
        decreases e + 1 - day,
    {
        let ghost prev = slices@;
        match date_of_day(day as i32) {
            Some((y, m, d)) => {
                let mut name = String::new();
                push_slice_name(&mut name, y, m, d);
                slices.push(name);
                proof {
                    assert(views(slices@) =~= views(prev).push(spec_slice_name(y, m, d)));
                }
            },
            None => {
                proof {
                    lemma_day_slices_none(s as int, (day - s + 1) as nat, (e - s + 1) as nat);
                }
                complete = false;
            },
        }
        day = day + 1;
    }
    if !complete {
        return Err(Error::Schema(to_owned_string("telemetry end time is out of range")));
    }
    Ok(slices)
}

proof fn lemma_day_slices_none(first: int, k: nat, n: nat)
    requires
        k <= n,
        spec_day_slices(first, k) is None,
    ensures
        spec_day_slices(first, n) is None,
    decreases n - k,
{
    if k < n {
        lemma_day_slices_none(first, k, (n - 1) as nat);
    }
}

/// The UTF-8 bytes of each string.
pub open spec fn name_keys(v: Seq<String>) -> Seq<Seq<u8>> {
    v.map_values(|s: String| vstd::utf8::encode_utf8(s@))
}

/// Byte strings in ascending order (equal ones side by side).
pub open spec fn keys_sorted(s: Seq<Seq<u8>>) -> bool {
    forall|p: int, q: int| 0 <= p < q < s.len() ==> !#[trigger] bytes_lt(s[q], s[p])
}

/// The names that read as dates (`%Y-%m-%d`), in their order.
pub open spec fn spec_dated_names(names: Seq<Seq<char>>) -> Seq<Seq<char>>
    decreases names.len(),
{
    if names.len() == 0 {
        names
    } else {
        let prev = spec_dated_names(names.drop_last());
        if spec_slice_start_millis(names.last()) is Some {
            prev.push(names.last())
        } else {
            prev
        }
    }
}

proof fn lemma_insert_keeps_sorted(s: Seq<Seq<u8>>, pos: int, x: Seq<u8>)
    requires
        keys_sorted(s),
        0 <= pos <= s.len(),
        forall|i: int| 0 <= i < pos ==> !#[trigger] bytes_lt(x, s[i]),
        pos < s.len() ==> bytes_lt(x, s[pos]),
    ensures
        keys_sorted(s.insert(pos, x)),
{
    let t = s.insert(pos, x);
    assert forall|p: int, q: int| 0 <= p < q < t.len() implies !#[trigger] bytes_lt(t[q], t[p]) by {
        if q < pos {
            assert(!bytes_lt(s[q], s[p]));
        } else if q == pos {
            assert(!bytes_lt(x, s[p]));
        } else if p == pos {
            if bytes_lt(s[q - 1], x) {
                lemma_lt_trans(s[q - 1], x, s[pos]);
                if q - 1 == pos {
                    lemma_lt_irrefl(s[pos]);
                } else {
                    assert(!bytes_lt(s[q - 1], s[pos]));
                }
            }
        } else if p < pos {
            assert(!bytes_lt(s[q - 1], s[p]));
        } else {
            assert(!bytes_lt(s[q - 1], s[p - 1]));
        }
    }
}

/// The slice directories among listed names: those that read as dates, in
/// ascending order.
pub fn select_slice_names(names: Vec<String>) -> (r: Vec<String>)
    ensures
        forall|k: int| 0 <= k < r@.len() ==> #[trigger] spec_slice_start_millis(r@[k]@) is Some,
        views(r@).to_multiset() == spec_dated_names(views(names@)).to_multiset(),
        keys_sorted(name_keys(r@)),
{
    let mut out: Vec<String> = Vec::new();
    let mut i: usize = 0;
    proof {
        assert(views(out@) =~= spec_dated_names(views(names@).take(0)));
    }
    while i < names.len()
        invariant
            i <= names@.len(),
            forall|k: int| 0 <= k < out@.len() ==> #[trigger] spec_slice_start_millis(out@[k]@) is Some,
            views(out@).to_multiset() == spec_dated_names(views(names@).take(i as int)).to_multiset(),
            keys_sorted(name_keys(out@)),
        decreases names@.len() - i,
    {
        proof {
            assert(views(names@).take(i + 1).drop_last() =~= views(names@).take(i as int));
            assert(views(names@).take(i + 1).last() == names@[i as int]@);
        }
        let name = &names[i];
        let ghost prefix = views(names@).take(i as int);
        let ghost grown = views(names@).take(i + 1);
        if slice_start_millis(name.as_str()).is_some() {
            assert(spec_dated_names(grown) == spec_dated_names(prefix).push(name@));
            let x = name.as_str().as_bytes();
            let mut pos: usize = 0;
            while pos < out.len() && !bytes_less(x, out[pos].as_str().as_bytes())
                invariant
                    pos <= out@.len(),
                    x@ == vstd::utf8::encode_utf8(name@),
                    forall|k: int| 0 <= k < pos ==> !#[trigger] bytes_lt(x@, name_keys(out@)[k]),
                decreases out@.len() - pos,
            {
                pos = pos + 1;
            }
            let ghost before = out@;
            proof {
                lemma_insert_keeps_sorted(name_keys(before), pos as int, x@);
            }
            out.insert(pos, name.clone());
            proof {
                assert(name_keys(out@) =~= name_keys(before).insert(pos as int, x@));
                assert(views(out@) =~= views(before).insert(pos as int, name@));
                vstd::seq_lib::to_multiset_insert(views(before), pos as int, name@);
                vstd::seq_lib::to_multiset_build(spec_dated_names(prefix), name@);
                assert forall|k: int| 0 <= k < out@.len() implies #[trigger] spec_slice_start_millis(out@[k]@) is Some by {
                    if k < pos {
                        assert(out@[k] == before[k]);
                    } else if k > pos {
                        assert(out@[k] == before[k - 1]);
                    }
                }
            }
        } else {
            assert(spec_dated_names(grown) == spec_dated_names(prefix));
        }
        i = i + 1;
    }
    proof {
        assert(views(names@).take(names@.len() as int) =~= views(names@));
    }
    out
}

/// The slice that holds the current time: a one-element list, or the error
/// `slice_from_ts_ms` gives.
pub open spec fn is_current_slices(now_ms: u64, r: Result<Vec<String>, Error>) -> bool {
    match spec_utc_date_of_millis(now_ms as i64) {
        Some((y, m, d)) => r matches Ok(v) && views(v@) == seq![spec_slice_name(y, m, d)],
        None => r matches Err(Error::Schema(msg)) && msg@ == "telemetry timestamp is out of range"@,
    }
}

/// Where a time-bounded query starts: its own start, else the start of the
/// earliest listed slice, else now.
pub open spec fn spec_range_start(start_ms: Option<u64>, listed: Seq<Seq<char>>, now_ms: u64) -> u64 {
    match start_ms {
        Some(t) => t,
        None => if listed.len() > 0 && spec_slice_start_millis(listed[0]) is Some {
            spec_slice_start_millis(listed[0])->0 as u64
        } else {
            now_ms
        },
    }
}

/// The slices a query reads, given the slices on disk (`listed`, in
/// ascending order) and the current time: the one it names; for a time
/// bound, every slice from its start (or the earliest listed, or now) to its
/// end (or now), or just the current slice where nothing is listed and no
/// start is given; otherwise the current slice.
pub fn resolve_slices(query: &TelemetryQuery, listed: &Vec<String>, now_ms: u64) -> (r: Result<Vec<String>, Error>)
    ensures
        match query.slice {
            Some(slice) => r matches Ok(v) && views(v@) == seq![slice@],
            None => if query.start_ms is Some || query.end_ms is Some {
                if listed@.len() == 0 && query.start_ms is None {
                    is_current_slices(now_ms, r)
                } else {
                    is_range_slices(
                        spec_range_start(query.start_ms, views(listed@), now_ms),
                        match query.end_ms {
                            Some(t) => t,
                            None => now_ms,
                        },
                        r,
                    )
                }
            } else {
                is_current_slices(now_ms, r)
            },
        },
{
    if let Some(slice) = &query.slice {
        let mut v: Vec<String> = Vec::new();
        v.push(slice.clone());
        assert(views(v@) =~= seq![slice@]);
        return Ok(v);
    }
    if query.start_ms.is_some() || query.end_ms.is_some() {
        if listed.len() == 0 && query.start_ms.is_none() {
            return current_slices(now_ms);
        }
        let start = match query.start_ms {
            Some(t) => t,
            None => {
                let earliest = if listed.len() > 0 {
                    slice_start_millis(listed[0].as_str())
                } else {
                    None
                };
                match earliest {
                    Some(ms) => ms as u64,
                    None => now_ms,
                }
            },
        };
        let end = match query.end_ms {
            Some(t) => t,
            None => now_ms,
        };
        return slices_for_range(start, end);
    }
    current_slices(now_ms)
}

/// The current slice as a one-element list.
fn current_slices(now_ms: u64) -> (r: Result<Vec<String>, Error>)
    ensures
        is_current_slices(now_ms, r),
{
    match slice_from_ts_ms(now_ms) {
        Ok(s) => {
            let mut v: Vec<String> = Vec::new();
            v.push(s);
            assert(views(v@) =~= seq![v@[0]@]);
            Ok(v)
        },
        Err(e) => Err(e),
    }
}

// ---------------------------------------------------------------------------
// Retention
// ---------------------------------------------------------------------------

/// The day number (January 1 of year 1 being day 1) of the date a slice name
/// reads as under chrono's `%Y-%m-%d`; none where it is not such a date.
pub uninterp spec fn spec_slice_day(name: Seq<char>) -> Option<i32>;

/// `chrono::NaiveDate::parse_from_str(name, "%Y-%m-%d")` and the date's
/// `num_days_from_ce()`: the day number of a slice name, none where the name
/// is not a date.
#[verifier::external_body]
fn slice_day(name: &str) -> (r: Option<i32>)
    ensures
        r == spec_slice_day(name@),
{
    match chrono::NaiveDate::parse_from_str(name, "%Y-%m-%d") {
        Ok(date) => Some(date.num_days_from_ce()),
        Err(_) => None,
    }
}

/// The day number of the UTC date `days` days before the date of the instant
/// `now_ms`, as chrono computes it; none where the instant, the span of days
/// or the resulting date is outside chrono's range.
pub uninterp spec fn spec_retention_cutoff(now_ms: i64, days: i64) -> Option<i32>;

/// `chrono::DateTime::<Utc>::from_timestamp_millis(now_ms)`, its
/// `date_naive()`, `checked_sub_signed(TimeDelta::try_days(days))` and the
/// result's `num_days_from_ce()`: the day number of the date `days` days
/// before today, none where chrono cannot represent a step of it.
#[verifier::external_body]
fn retention_cutoff(now_ms: i64, days: i64) -> (r: Option<i32>)
    ensures
        r == spec_retention_cutoff(now_ms, days),
{
    let today = chrono::DateTime::<chrono::Utc>::from_timestamp_millis(now_ms)?.date_naive();
    let span = chrono::TimeDelta::try_days(days)?;
    Some(today.checked_sub_signed(span)?.num_days_from_ce())
}

/// The names that are dates before day `cutoff`, in their order.
pub open spec fn spec_expired(names: Seq<Seq<char>>, cutoff: int) -> Seq<Seq<char>>
    decreases names.len(),
{
    if names.len() == 0 {
        names
    } else {
        let prev = spec_expired(names.drop_last(), cutoff);
        match spec_slice_day(names.last()) {
            Some(d) => if d < cutoff {
                prev.push(names.last())
            } else {
                prev
            },
            None => prev,
        }
    }
}

/// The slice directories among `names` whose dates come before day `cutoff`.
pub fn slices_before(names: &Vec<String>, cutoff: i32) -> (r: Vec<String>)
    ensures
        views(r@) == spec_expired(views(names@), cutoff as int),
{
    let mut out: Vec<String> = Vec::new();
    let mut i: usize = 0;
    while i < names.len()
        invariant
            i <= names@.len(),
            views(out@) == spec_expired(views(names@).take(i as int), cutoff as int),
        decreases names@.len() - i,
    {
        proof {
            assert(views(names@).take(i + 1).drop_last() =~= views(names@).take(i as int));
            assert(views(names@).take(i + 1).last() == names@[i as int]@);
        }
        let ghost prev = out@;
        match slice_day(names[i].as_str()) {
            Some(d) => {
                if d < cutoff {
                    out.push(names[i].clone());
                    assert(views(out@) =~= views(prev).push(names@[i as int]@));
                }
            },
            None => {},
        }
        i = i + 1;
    }
    assert(views(names@).take(names@.len() as int) =~= views(names@));
    out
}

/// The slice directories that retention removes at time `now_ms`: those
/// dated before the day `retention_days` before today; none when retention
/// is off (0 days). `None` where chrono cannot compute that day (an instant
/// or a span of days beyond its range), where no slice can be judged.
pub fn expired_slices(names: &Vec<String>, now_ms: u64, retention_days: u64) -> (r: Option<Vec<String>>)
    ensures
        if retention_days == 0 {
            r matches Some(v) && v@.len() == 0
        } else {
            match spec_retention_cutoff(now_ms as i64, retention_days as i64) {
                Some(cutoff) => r matches Some(v) && views(v@) == spec_expired(views(names@), cutoff as int),
                None => r is None,
            }
        },
{
    if retention_days == 0 {
        return Some(Vec::new());
    }
    match retention_cutoff(now_ms as i64, retention_days as i64) {
        Some(cutoff) => Some(slices_before(names, cutoff)),
        None => None,
    }
}

// ---------------------------------------------------------------------------
// Shard routing
// ---------------------------------------------------------------------------

/// The 64-bit XXH3 hash (default secret, no seed) of a byte string.
pub uninterp spec fn spec_xxh3_64(data: Seq<u8>) -> u64;

/// `xxhash_rust::xxh3::xxh3_64`: the XXH3 hash of the bytes.
#[verifier::external_body]
fn xxh3_64(data: &[u8]) -> (r: u64)
    ensures
        r == spec_xxh3_64(data@),
{
    xxhash_rust::xxh3::xxh3_64(data)
}

/// What the shard of a record is chosen by: its trace id, stream hash,
/// command id, tenant hash (raw values) and timestamp.
#[derive(Debug)]
pub struct PartitionKey {
    pub trace_id: Option<String>,
    pub stream_hash: Option<i64>,
    pub command_id: Option<String>,
    pub tenant_hash: i64,
    pub ts_ms: u64,
}

/// The first `count` bytes of `n` in little-endian order.
pub open spec fn spec_le_bytes(n: nat, count: nat) -> Seq<u8>
    decreases count,
{
    if count == 0 {
        Seq::empty()
    } else {
        seq![(n % 256) as u8] + spec_le_bytes(n / 256, (count - 1) as nat)
    }
}

/// The shard of a record among `partitions`: by the hash of its trace id,
/// else by its stream hash, else by the hash of its command id, else by its
/// tenant hash where that is not 0, else by the hash of its timestamp mixed
/// (xor) with a counter.
pub open spec fn spec_partition(key: PartitionKey, counter: u64, partitions: nat) -> nat {
    match key.trace_id {
        Some(t) => (spec_xxh3_64(vstd::utf8::encode_utf8(t@)) as nat) % partitions,
        None => match key.stream_hash {
            Some(h) => ((h as u64) as nat) % partitions,
            None => match key.command_id {
                Some(c) => (spec_xxh3_64(vstd::utf8::encode_utf8(c@)) as nat) % partitions,
                None => if key.tenant_hash as u64 != 0 {
                    ((key.tenant_hash as u64) as nat) % partitions
                } else {
                    (spec_xxh3_64(spec_le_bytes((key.ts_ms ^ counter) as nat, 8)) as nat) % partitions
                },
            },
        },
    }
}

/// Whether routing a record falls back to the store's counter: it has no
/// trace id, stream hash, command id or non-zero tenant hash.
pub open spec fn spec_uses_fallback(key: PartitionKey) -> bool {
    key.trace_id is None && key.stream_hash is None && key.command_id is None && key.tenant_hash as u64 == 0
}

/// Whether routing a record consumes a value of the store's counter.
pub fn uses_fallback(key: &PartitionKey) -> (r: bool)
    ensures
        r == spec_uses_fallback(*key),
{
    key.trace_id.is_none() && key.stream_hash.is_none() && key.command_id.is_none() && key.tenant_hash as u64 == 0
}

/// The 8 bytes of `n`, least significant first.
fn le_bytes(n: u64) -> (r: Vec<u8>)
    ensures
        r@ == spec_le_bytes(n as nat, 8),
{
    let mut out: Vec<u8> = Vec::new();
    let mut rest: u64 = n;
    let mut k: usize = 0;
    while k < 8
        invariant
            k <= 8,
            out@ + spec_le_bytes(rest as nat, (8 - k) as nat) == spec_le_bytes(n as nat, 8),
        decreases 8 - k,
    {
        let ghost before = out@;
        out.push((rest % 256) as u8);
        proof {
            assert(spec_le_bytes(rest as nat, (8 - k) as nat) =~= seq![(rest % 256) as u8] + spec_le_bytes(
                (rest / 256) as nat,
                (8 - k - 1) as nat,
            ));
            assert(out@ + spec_le_bytes((rest / 256) as nat, (8 - k - 1) as nat) =~= before + spec_le_bytes(
                rest as nat,
                (8 - k) as nat,
            ));
        }
        rest = rest / 256;
        k = k + 1;
    }
    assert(out@ =~= out@ + spec_le_bytes(rest as nat, 0));
    out
}

/// The shard a record is written to. `counter` is the value the store's
/// fallback counter held (it advances on each call that reaches it).
pub fn partition_for_record(key: &PartitionKey, counter: u64, partitions: usize) -> (r: usize)
    requires
        partitions > 0,
    ensures
        r as nat == spec_partition(*key, counter, partitions as nat),
        r < partitions,
{
    let p = partitions as u64;
    if let Some(trace_id) = &key.trace_id {
        return (xxh3_64(trace_id.as_str().as_bytes()) % p) as usize;
    }
    if let Some(stream_hash) = key.stream_hash {
        return ((stream_hash as u64) % p) as usize;
    }
    if let Some(command_id) = &key.command_id {
        return (xxh3_64(command_id.as_str().as_bytes()) % p) as usize;
    }
    let tenant_hash = key.tenant_hash as u64;
    if tenant_hash != 0 {
        return (tenant_hash % p) as usize;
    }
    let seed = key.ts_ms ^ counter;
    let bytes = le_bytes(seed);
    (xxh3_64(bytes.as_slice()) % p) as usize
}

/// The duration stored for a span: its own, or else end minus start
/// (0 where the end comes first) when both are known.
pub fn stored_span_duration(duration: Option<u64>, start: Option<u64>, end: Option<u64>) -> (r: Option<u64>)
    ensures
        r == match duration {
            Some(d) => Some(d),
            None => match (start, end) {
                (Some(s), Some(e)) => Some(if e >= s { (e - s) as u64 } else { 0u64 }),
                _ => None,
            },
        },
{
    match duration {
        Some(d) => Some(d),
        None => match (start, end) {
            (Some(s), Some(e)) => Some(e.saturating_sub(s)),
            _ => None,
        },
    }
}

// ---------------------------------------------------------------------------
// Shard files and batching
// ---------------------------------------------------------------------------

/// The file name of a shard's database: `shard-` and its number with at
/// least three digits, then `.db`.
pub open spec fn spec_shard_file_name(shard_id: nat) -> Seq<char> {
    "shard-"@ + spec_padded_decimal(shard_id as int, 3) + ".db"@
}

/// The file name of a shard's database within its slice directory.
pub fn shard_file_name(shard_id: usize) -> (r: String)
    ensures
        r@ == spec_shard_file_name(shard_id as nat),
{
    let mut name = to_owned_string("shard-");
    let ghost head = name@;
    if shard_id as u64 <= i64::MAX as u64 {
        push_padded(&mut name, shard_id as i64, 3);
    } else {
        let digits = crate::text::u64_to_string(shard_id as u64);
        proof {
            let n = shard_id as nat;
            assert(spec_nat_decimal(n / 100).len() >= 1);
            assert(spec_nat_decimal(n / 10 / 10).len() >= 1);
            assert(spec_nat_decimal(n / 10).len() >= 2);
            assert(spec_nat_decimal(n).len() >= 3);
            assert(spec_padded_decimal(shard_id as int, 3) == spec_nat_decimal(n));
        }
        name.append(digits.as_str());
    }
    name.append(".db");
    proof {
        assert(name@ =~= head + spec_padded_decimal(shard_id as int, 3) + ".db"@);
    }
    name
}

/// Whether a writer's pending batch is due: its size or its record count
/// has reached the configured limit.
pub fn should_flush(batch_bytes: usize, batch_records: usize, config: &TelemetryConfig) -> (r: bool)
    ensures
        r == (batch_bytes >= config.batch_max_bytes || batch_records >= config.batch_max_records),
{
    batch_bytes >= config.batch_max_bytes || batch_records >= config.batch_max_records
}

// ---------------------------------------------------------------------------
// Cursors and shards
// ---------------------------------------------------------------------------

/// A cursor fitted to `partitions` shards: the last ids of the first
/// `partitions` shards, missing ones read as 0.
pub open spec fn spec_normalized_ids(ids: Seq<i64>, partitions: nat) -> Seq<i64> {
    Seq::new(partitions, |i: int| if i < ids.len() { ids[i] } else { 0i64 })
}

/// Fits a cursor to `partitions` shards: longer lists are cut, shorter ones
/// padded with 0.
pub fn normalize_cursor(cursor: &TelemetryCursor, partitions: usize) -> (r: TelemetryCursor)
    ensures
        r.slice@ == cursor.slice@,
        r.last_ids@ == spec_normalized_ids(cursor.last_ids@, partitions as nat),
{
    let mut last_ids: Vec<i64> = Vec::new();
    let mut i: usize = 0;
    while i < partitions
        invariant
            i <= partitions,
            last_ids@ == spec_normalized_ids(cursor.last_ids@, i as nat),
        decreases partitions - i,
    {
        let v = if i < cursor.last_ids.len() {
            cursor.last_ids[i]
        } else {
            0
        };
        last_ids.push(v);
        i = i + 1;
        assert(last_ids@ =~= spec_normalized_ids(cursor.last_ids@, i as nat));
    }
    TelemetryCursor { slice: cursor.slice.clone(), last_ids }
}

/// The shards a query reads: the one it names, or all of them; a schema
/// error where the named shard does not exist.
pub fn resolve_shards(shard_id: Option<usize>, partitions: usize) -> (r: Result<Vec<usize>, Error>)
    ensures
        match shard_id {
            Some(id) => if id >= partitions {
                r matches Err(Error::Schema(msg)) && msg@ == "telemetry shard "@ + spec_nat_decimal(id as nat)
                    + " out of range"@
            } else {
                r matches Ok(v) && v@ == seq![id]
            },
            None => r matches Ok(v) && v@ == Seq::new(partitions as nat, |i: int| i as usize),
        },
{
    match shard_id {
        Some(id) => {
            if id >= partitions {
                let mut msg = to_owned_string("telemetry shard ");
                crate::text::push_u64_decimal(&mut msg, id as u64);
                msg.append(" out of range");
                return Err(Error::Schema(msg));
            }
            let mut v: Vec<usize> = Vec::new();
            v.push(id);
            Ok(v)
        },
        None => {
            let mut v: Vec<usize> = Vec::new();
            let mut i: usize = 0;
            while i < partitions
                invariant
                    i <= partitions,
                    v@ == Seq::new(i as nat, |k: int| k as usize),
                decreases partitions - i,
            {
                v.push(i);
                i = i + 1;
                assert(v@ =~= Seq::new(i as nat, |k: int| k as usize));
            }
            Ok(v)
        },
    }
}

// ---------------------------------------------------------------------------
// Schema version
// ---------------------------------------------------------------------------

/// The version of the telemetry schema this code writes.
pub const TELEMETRY_SCHEMA_VERSION: i32 = 1;

/// Whether `s` is a run of decimal digits.
pub open spec fn all_digits(s: Seq<char>) -> bool {
    s.len() > 0 && forall|i: int| 0 <= i < s.len() ==> '0' <= #[trigger] s[i] <= '9'
}

/// The number a run of decimal digits denotes.
pub open spec fn digits_value(s: Seq<char>) -> int
    decreases s.len(),
{
    if s.len() == 0 {
        0
    } else {
        digits_value(s.drop_last()) * 10 + (s.last() as int - '0' as int)
    }
}

/// What `str::parse::<i32>` gives: an optional `+` or `-` followed by decimal
/// digits, within the range of `i32`; none for anything else.
pub open spec fn spec_parse_i32(s: Seq<char>) -> Option<i32> {
    let (neg, digits) = if s.len() > 0 && s[0] == '-' {
        (true, s.drop_first())
    } else if s.len() > 0 && s[0] == '+' {
        (false, s.drop_first())
    } else {
        (false, s)
    };
    let v = if neg { -digits_value(digits) } else { digits_value(digits) };
    if all_digits(digits) && i32::MIN <= v <= i32::MAX {
        Some(v as i32)
    } else {
        None
    }
}

proof fn lemma_digits_nonneg(t: Seq<char>)
    requires
        forall|i: int| 0 <= i < t.len() ==> '0' <= #[trigger] t[i] <= '9',
    ensures
        digits_value(t) >= 0,
    decreases t.len(),
{
    if t.len() > 0 {
        lemma_digits_nonneg(t.drop_last());
    }
}

proof fn lemma_digits_prefix(t: Seq<char>, k: int)
    requires
        0 <= k <= t.len(),
        forall|i: int| 0 <= i < t.len() ==> '0' <= #[trigger] t[i] <= '9',
    ensures
        digits_value(t) >= digits_value(t.subrange(0, k)),
    decreases t.len(),
{
    if k == t.len() {
        assert(t.subrange(0, k) =~= t);
    } else {
        let u = t.drop_last();
        assert(u.subrange(0, k) =~= t.subrange(0, k));
        lemma_digits_prefix(u, k);
        lemma_digits_nonneg(u);
    }
}

/// Reads an `i32` as `str::parse::<i32>` does: an optional `+` or `-`
/// followed by decimal digits, within the range of `i32`.
fn parse_i32(s: &str) -> (r: Option<i32>)
    ensures
        r == spec_parse_i32(s@),
{
    let n = s.unicode_len();
    let mut start: usize = 0;
    let mut neg = false;
    if n > 0 {
        let c = s.get_char(0);
        if c == '-' {
            neg = true;
            start = 1;
        } else if c == '+' {
            start = 1;
        }
    }
    let ghost digits = s@.subrange(start as int, n as int);
    assert(n > 0 && s@[0] == '-' ==> digits =~= s@.drop_first());
    assert(n > 0 && s@[0] == '+' ==> digits =~= s@.drop_first());
    assert(!(n > 0 && (s@[0] == '-' || s@[0] == '+')) ==> digits =~= s@);
    assert(neg <==> (n > 0 && s@[0] == '-'));
    if start == n {
        return None;
    }
    let mut acc: i64 = 0;
    let mut i: usize = start;
    while i < n
        invariant
            n == s@.len(),
            start < n,
            n > 0 && s@[0] == '-' ==> digits == s@.drop_first(),
            n > 0 && s@[0] == '+' ==> digits == s@.drop_first(),
            !(n > 0 && (s@[0] == '-' || s@[0] == '+')) ==> digits == s@,
            neg <==> (n > 0 && s@[0] == '-'),
            start <= i <= n,
            digits == s@.subrange(start as int, n as int),
            forall|k: int| start <= k < i ==> '0' <= #[trigger] s@[k] <= '9',
            acc == digits_value(s@.subrange(start as int, i as int)),
            0 <= acc <= 2147483648,
        decreases n - i,
    {
        let c = s.get_char(i);
        if c < '0' || c > '9' {
            proof {
                assert(digits[i - start] == c);
                assert(!all_digits(digits));
                assert(spec_parse_i32(s@) is None);
            }
            return None;
        }
        let d = (c as u32 - '0' as u32) as i64;
        proof {
            assert(s@.subrange(start as int, i + 1).drop_last() =~= s@.subrange(start as int, i as int));
        }
        acc = acc * 10 + d;
        if acc > 2147483648 {
            proof {
                if all_digits(digits) {
                    assert(digits.subrange(0, i + 1 - start) =~= s@.subrange(start as int, i + 1));
                    lemma_digits_prefix(digits, i + 1 - start);
                    assert(digits_value(digits) > 2147483648);
                }
                assert(spec_parse_i32(s@) is None);
            }
            return None;
        }
        i = i + 1;
    }
    proof {
        assert(s@.subrange(start as int, n as int) =~= digits);
        assert forall|k: int| 0 <= k < digits.len() implies '0' <= #[trigger] digits[k] <= '9' by {
            assert(digits[k] == s@[start + k]);
        }
    }
    let v: i64 = if neg {
        -acc
    } else {
        acc
    };
    if v < -2147483648 || v > 2147483647 {
        None
    } else {
        Some(v as i32)
    }
}

/// What the stored schema version of a shard means: `Ok(true)` where none is
/// stored yet (it must be recorded), `Ok(false)` where it is this code's
/// version; a schema error where it is not a number or another version.
pub fn check_schema_version(stored: Option<&str>) -> (r: Result<bool, Error>)
    ensures
        match stored {
            None => r == Ok::<bool, Error>(true),
            Some(v) => match spec_parse_i32(v@) {
                None => r matches Err(Error::Schema(msg)) && msg@ == "telemetry schema version is invalid"@,
                Some(p) => if p == TELEMETRY_SCHEMA_VERSION {
                    r == Ok::<bool, Error>(false)
                } else {
                    r matches Err(Error::Schema(msg)) && msg@ == "telemetry schema version mismatch: database has version "@
                        + spec_int_decimal(p as int) + ", but this SpiteDB version requires "@ + spec_int_decimal(
                        TELEMETRY_SCHEMA_VERSION as int,
                    )
                },
            },
        },
{
    match stored {
        None => Ok(true),
        Some(value) => match parse_i32(value) {
            None => Err(Error::Schema(to_owned_string("telemetry schema version is invalid"))),
            Some(parsed) => {
                if parsed != TELEMETRY_SCHEMA_VERSION {
                    let mut msg = to_owned_string("telemetry schema version mismatch: database has version ");
                    push_i64_decimal(&mut msg, parsed as i64);
                    msg.append(", but this SpiteDB version requires ");
                    push_i64_decimal(&mut msg, TELEMETRY_SCHEMA_VERSION as i64);
                    Err(Error::Schema(msg))
                } else {
                    Ok(false)
                }
            },
        },
    }
}

} // verus!
