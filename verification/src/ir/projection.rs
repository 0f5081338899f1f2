//! Projection intermediate representation. Projections are read models that
//! subscribe to events and build queryable state; they are detected by the
//! shape of their state and exposed through HTTP GET endpoints.

use vstd::prelude::*;

use crate::ir::{DomainType, ParameterIR};
use crate::ir::access::AccessLevel;
use crate::text::{contains, seq_contains, spec_str_lowercase, str_to_lowercase};

verus! {

/// The projection kind, which decides storage and query patterns.
#[derive(Debug, Clone, Copy, PartialEq, Eq, Structural)]
pub enum ProjectionKind {
    /// SQLite-backed rows: state shaped `{ [key: string]: ObjectType }`.
    DenormalizedView,
    /// Memory-resident with checkpointing: state with named fields.
    Aggregator,
    /// Time-bucketed data with range queries: `{ [key: string]: number }` with time signals.
    TimeSeries,
}

pub open spec fn spec_projection_kind_str(k: ProjectionKind) -> Seq<char> {
    match k {
        ProjectionKind::DenormalizedView => "denormalized_view"@,
        ProjectionKind::Aggregator => "aggregator"@,
        ProjectionKind::TimeSeries => "time_series"@,
    }
}

/// The variant name of a kind, as `{:?}` prints it.
pub open spec fn spec_projection_kind_debug(k: ProjectionKind) -> Seq<char> {
    match k {
        ProjectionKind::DenormalizedView => "DenormalizedView"@,
        ProjectionKind::Aggregator => "Aggregator"@,
        ProjectionKind::TimeSeries => "TimeSeries"@,
    }
}

impl ProjectionKind {
    /// The snake-case name of the kind.
    pub fn as_str(&self) -> (r: &'static str)
        ensures
            r@ == spec_projection_kind_str(*self),
    {
        match self {
            ProjectionKind::DenormalizedView => "denormalized_view",
            ProjectionKind::Aggregator => "aggregator",
            ProjectionKind::TimeSeries => "time_series",
        }
    }

    /// The variant name of the kind.
    pub fn debug_name(&self) -> (r: &'static str)
        ensures
            r@ == spec_projection_kind_debug(*self),
    {
        match self {
            ProjectionKind::DenormalizedView => "DenormalizedView",
            ProjectionKind::Aggregator => "Aggregator",
            ProjectionKind::TimeSeries => "TimeSeries",
        }
    }
}

/// IR representation of a projection.
#[derive(Debug)]
pub struct ProjectionIR {
    /// Name of the projection (e.g. "UserProfiles").
    pub name: String,
    /// Source file path.
    pub source_path: String,
    /// The projection kind.
    pub kind: ProjectionKind,
    /// Events this projection subscribes to.
    pub subscribed_events: Vec<SubscribedEvent>,
    /// The state/row schema.
    pub schema: ProjectionSchema,
    /// Query methods that become HTTP GET endpoints.
    pub queries: Vec<QueryMethodIR>,
    /// Raw build method body for pass-through.
    pub raw_build_body: Option<String>,
    /// Access level of the projection's endpoints.
    pub access: AccessLevel,
    /// Roles required to query the projection.
    pub roles: Vec<String>,
}

/// An event the projection subscribes to.
#[derive(Debug, Clone)]
pub struct SubscribedEvent {
    /// Event type name (e.g. "UserCreated").
    pub event_name: String,
    /// Aggregate the event belongs to, by naming convention.
    pub aggregate: Option<String>,
}

/// Schema of projection state/rows.
#[derive(Debug, Clone)]
pub struct ProjectionSchema {
    /// Name of the state property in the source class.
    pub state_property_name: String,
    /// Primary key column(s).
    pub primary_keys: Vec<ColumnDef>,
    /// Non-key columns.
    pub columns: Vec<ColumnDef>,
    /// Indexes derived from query method parameters.
    pub indexes: Vec<IndexDef>,
}

/// Column definition of a SQLite table.
#[derive(Debug, Clone)]
pub struct ColumnDef {
    /// Column name (snake_case).
    pub name: String,
    /// SQLite type.
    pub sql_type: SqlType,
    /// Whether the column can be NULL.
    pub nullable: bool,
    /// Default value (SQL expression).
    pub default: Option<String>,
}

/// SQLite column types.
#[derive(Debug, Clone, Copy, PartialEq, Eq, Structural)]
pub enum SqlType {
    Text,
    Integer,
    Real,
    Blob,
}

/// The SQLite type that stores a domain type: numbers as REAL, booleans as
/// INTEGER, an optional type as its inner type, everything else as TEXT.
pub open spec fn spec_sql_type_of(dt: DomainType) -> SqlType
    decreases dt,
{
    match dt {
        DomainType::String => SqlType::Text,
        DomainType::Number => SqlType::Real,
        DomainType::Boolean => SqlType::Integer,
        DomainType::Array(_) => SqlType::Text,
        DomainType::Option(inner) => spec_sql_type_of(*inner),
        DomainType::Object(_) => SqlType::Text,
        DomainType::Reference(_) => SqlType::Text,
    }
}

pub open spec fn spec_sql_type_str(t: SqlType) -> Seq<char> {
    match t {
        SqlType::Text => "TEXT"@,
        SqlType::Integer => "INTEGER"@,
        SqlType::Real => "REAL"@,
        SqlType::Blob => "BLOB"@,
    }
}

impl SqlType {
    /// The SQLite type that stores a domain type.
    pub fn from_domain_type(dt: &DomainType) -> (r: Self)
        ensures
            r == spec_sql_type_of(*dt),
        decreases dt,
    {
        match dt {
            DomainType::String => SqlType::Text,
            DomainType::Number => SqlType::Real,
            DomainType::Boolean => SqlType::Integer,
            DomainType::Array(_) => SqlType::Text,
            DomainType::Option(inner) => Self::from_domain_type(inner),
            DomainType::Object(_) => SqlType::Text,
            DomainType::Reference(_) => SqlType::Text,
        }
    }

    /// The SQL name of the type.
    pub fn to_sql(&self) -> (r: &'static str)
        ensures
            r@ == spec_sql_type_str(*self),
    {
        match self {
            SqlType::Text => "TEXT",
            SqlType::Integer => "INTEGER",
            SqlType::Real => "REAL",
            SqlType::Blob => "BLOB",
        }
    }
}

/// Index definition.
#[derive(Debug, Clone)]
pub struct IndexDef {
    /// Index name.
    pub name: String,
    /// Columns of the index.
    pub columns: Vec<String>,
    /// Whether the index enforces uniqueness.
    pub unique: bool,
}

/// IR representation of a query method.
#[derive(Debug)]
pub struct QueryMethodIR {
    /// Method name (e.g. "getById").
    pub name: String,
    /// Parameters of the query.
    pub parameters: Vec<ParameterIR>,
    /// Return type of the query.
    pub return_type: Option<DomainType>,
    /// Columns that need indexes (from parameter names).
    pub indexed_columns: Vec<String>,
    /// Whether this is a range query (has start/end parameters).
    pub is_range_query: bool,
    /// Raw method body for pass-through.
    pub raw_body: Option<String>,
}

/// Analyzed state shape, used to detect the projection kind.
#[derive(Debug)]
pub enum StateShape {
    /// `{ [key: string]: ObjectType }`
    IndexedObject { key_name: String, value_type: DomainType },
    /// `{ [key: string]: number }`
    IndexedNumber { key_name: String },
    /// `{ field: T, ... }`
    NamedFields { fields: Vec<(String, DomainType)> },
}

/// Time-series detection signals.
#[derive(Debug, Clone)]
pub struct TimeSeriesSignals {
    /// The key is derived from a timestamp field in build().
    pub has_timestamp_derivation: bool,
    /// The key name contains a time-related word.
    pub has_time_related_key_name: bool,
    /// Some query method has range parameters.
    pub has_range_query_methods: bool,
}

impl Default for TimeSeriesSignals {
    fn default() -> (r: Self)
        ensures
            !r.has_timestamp_derivation,
            !r.has_time_related_key_name,
            !r.has_range_query_methods,
    {
        TimeSeriesSignals {
            has_timestamp_derivation: false,
            has_time_related_key_name: false,
            has_range_query_methods: false,
        }
    }
}

impl TimeSeriesSignals {
    /// Whether any time-series signal is present.
    pub fn any(&self) -> (r: bool)
        ensures
            r == (self.has_timestamp_derivation || self.has_time_related_key_name
                || self.has_range_query_methods),
    {
        self.has_timestamp_derivation || self.has_time_related_key_name || self.has_range_query_methods
    }
}

/// Time-related words that mark a time-series key.
pub open spec fn spec_time_keywords() -> Seq<Seq<char>> {
    seq!["date"@, "day"@, "month"@, "year"@, "week"@, "hour"@, "minute"@, "time"@, "timestamp"@, "period"@]
}

/// Field names that hold timestamps.
pub open spec fn spec_timestamp_fields() -> Seq<Seq<char>> {
    seq!["timestamp"@, "date"@, "time"@, "createdAt"@, "updatedAt"@, "occurredAt"@, "eventTime"@, "eventDate"@]
}

/// String methods that derive a time key from a timestamp.
pub open spec fn spec_time_string_methods() -> Seq<Seq<char>> {
    seq!["slice"@, "substring"@, "substr"@, "toISOString"@, "toDateString"@, "toLocaleDateString"@, "toTimeString"@]
}

/// Parameter names that mark a range query.
pub open spec fn spec_range_params() -> Seq<Seq<char>> {
    seq!["start"@, "end"@, "from"@, "to"@, "startdate"@, "enddate"@, "fromdate"@, "todate"@, "starttime"@, "endtime"@]
}

/// Time-related words that mark a time-series key.
pub fn time_keywords() -> (r: Vec<&'static str>)
    ensures
        r@.map_values(|s: &str| s@) == spec_time_keywords(),
{
    let r = vec!["date", "day", "month", "year", "week", "hour", "minute", "time", "timestamp", "period"];
    assert(r@.map_values(|s: &str| s@) =~= spec_time_keywords());
    r
}

/// Field names that hold timestamps.
pub fn timestamp_fields() -> (r: Vec<&'static str>)
    ensures
        r@.map_values(|s: &str| s@) == spec_timestamp_fields(),
{
    let r = vec!["timestamp", "date", "time", "createdAt", "updatedAt", "occurredAt", "eventTime", "eventDate"];
    assert(r@.map_values(|s: &str| s@) =~= spec_timestamp_fields());
    r
}

/// String methods that derive a time key from a timestamp.
pub fn time_string_methods() -> (r: Vec<&'static str>)
    ensures
        r@.map_values(|s: &str| s@) == spec_time_string_methods(),
{
    let r = vec!["slice", "substring", "substr", "toISOString", "toDateString", "toLocaleDateString", "toTimeString"];
    assert(r@.map_values(|s: &str| s@) =~= spec_time_string_methods());
    r
}

/// Parameter names that mark a range query.
pub fn range_params() -> (r: Vec<&'static str>)
    ensures
        r@.map_values(|s: &str| s@) == spec_range_params(),
{
    let r = vec!["start", "end", "from", "to", "startdate", "enddate", "fromdate", "todate", "starttime", "endtime"];
    assert(r@.map_values(|s: &str| s@) =~= spec_range_params());
    r
}

/// Some word of `words` occurs in `s`.
pub open spec fn contains_any(s: Seq<char>, words: Seq<Seq<char>>) -> bool {
    exists|k: int| 0 <= k < words.len() && seq_contains(s, #[trigger] words[k])
}

/// Whether some word of `words` occurs in `s`.
pub fn contains_any_word(s: &str, words: &Vec<&'static str>) -> (r: bool)
    ensures
        r == contains_any(s@, words@.map_values(|w: &str| w@)),
{
    let ghost ws = words@.map_values(|w: &str| w@);
    let mut i: usize = 0;
    while i < words.len()
        invariant
            ws == words@.map_values(|w: &str| w@),
            i <= words@.len(),
            forall|k: int| 0 <= k < i ==> !seq_contains(s@, #[trigger] ws[k]),
        decreases words.len() - i,
    {
        if contains(s, words[i]) {
            assert(seq_contains(s@, ws[i as int]));
            return true;
        }
        i = i + 1;
    }
    false
}

/// Whether a name contains a time-related word, ignoring case.
pub fn is_time_related_name(name: &str) -> (r: bool)
    ensures
        r == contains_any(spec_str_lowercase(name@), spec_time_keywords()),
{
    let lower = str_to_lowercase(name);
    let words = time_keywords();
    contains_any_word(lower.as_str(), &words)
}

/// Whether a parameter name suggests a range query, ignoring case.
pub fn is_range_param(name: &str) -> (r: bool)
    ensures
        r == contains_any(spec_str_lowercase(name@), spec_range_params()),
{
    let lower = str_to_lowercase(name);
    let words = range_params();
    contains_any_word(lower.as_str(), &words)
}

} // verus!
