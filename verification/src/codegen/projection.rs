//! Projection code generation: the SQLite schema of a projection, the worker
//! that builds it from the event log, the HTTP handlers of its queries and the
//! manager that starts all workers.

use vstd::prelude::*;

use crate::codegen::ts_types::{spec_pascal_case, spec_snake_case, to_pascal_case, to_snake_case};
use crate::ir::projection::{
    spec_projection_kind_debug, spec_sql_type_str, ColumnDef, IndexDef, ProjectionIR, ProjectionKind,
    QueryMethodIR, SubscribedEvent,
};
use crate::ir::{DomainIR, DomainType, ParameterIR};
use crate::text::{join, lemma_flatten_new_step, seq_flatten, seq_join, views};

verus! {

// ---------------------------------------------------------------------------
// Pieces shared by the schema, the worker and the handlers
// ---------------------------------------------------------------------------

/// The TypeScript type of a query parameter: primitives by name, anything else `any`.
pub open spec fn spec_param_ts(t: DomainType) -> Seq<char> {
    match t {
        DomainType::String => "string"@,
        DomainType::Number => "number"@,
        DomainType::Boolean => "boolean"@,
        _ => "any"@,
    }
}

/// Converts a domain type to the TypeScript type of a query parameter.
pub fn domain_type_to_ts(typ: &DomainType) -> (r: &'static str)
    ensures
        r@ == spec_param_ts(*typ),
{
    match typ {
        DomainType::String => "string",
        DomainType::Number => "number",
        DomainType::Boolean => "boolean",
        _ => "any",
    }
}

/// The column list of an index, joined by `", "`.
pub open spec fn spec_index_columns(idx: IndexDef) -> Seq<char> {
    seq_join(views(idx.columns@), ", "@)
}

// ---------------------------------------------------------------------------
// SQL schema
// ---------------------------------------------------------------------------

/// `    <name> <type> NOT NULL,` of a primary key column.
pub open spec fn spec_schema_pk_line(c: ColumnDef) -> Seq<char> {
    "    "@ + c.name@ + " "@ + spec_sql_type_str(c.sql_type) + " NOT NULL,\n"@
}

/// `    <name> <type>[ NOT NULL][ DEFAULT <d>],` of a data column.
pub open spec fn spec_schema_col_line(c: ColumnDef) -> Seq<char> {
    "    "@ + c.name@ + " "@ + spec_sql_type_str(c.sql_type) + (if c.nullable { Seq::empty() } else {
        " NOT NULL"@
    }) + match c.default {
        Some(d) => " DEFAULT "@ + d@,
        None => Seq::empty(),
    } + ",\n"@
}

/// The `CREATE INDEX` statement of an index of the table `table`.
pub open spec fn spec_schema_index_line(table: Seq<char>, idx: IndexDef) -> Seq<char> {
    "CREATE "@ + (if idx.unique { "UNIQUE "@ } else { Seq::empty() }) + "INDEX IF NOT EXISTS "@ + table + "_"@
        + idx.name@ + " ON "@ + table + " (tenant_id, "@ + spec_index_columns(idx) + ");\n"@
}

/// The SQL schema of a projection: its table, keyed by tenant and primary
/// keys, its indexes, and the table that tracks its position in the event log.
pub open spec fn spec_projection_schema(p: ProjectionIR) -> Seq<char> {
    let table = spec_snake_case(p.name@);
    let pks = p.schema.primary_keys@;
    let cols = p.schema.columns@;
    let idxs = p.schema.indexes@;
    "-- Schema for "@ + p.name@ + " projection\n"@ + "-- Kind: "@ + spec_projection_kind_debug(p.kind) + "\n\n"@
        + "CREATE TABLE IF NOT EXISTS "@ + table + " (\n"@ + "    tenant_id TEXT NOT NULL,\n"@
        + seq_flatten(Seq::new(pks.len(), |k: int| spec_schema_pk_line(pks[k])))
        + seq_flatten(Seq::new(cols.len(), |k: int| spec_schema_col_line(cols[k])))
        + "    created_at TEXT NOT NULL DEFAULT (datetime('now')),\n"@
        + "    updated_at TEXT NOT NULL DEFAULT (datetime('now')),\n"@
        + "    PRIMARY KEY (tenant_id"@ + seq_flatten(Seq::new(pks.len(), |k: int| ", "@ + pks[k].name@)) + ")\n"@
        + ");\n\n"@
        + seq_flatten(Seq::new(idxs.len(), |k: int| spec_schema_index_line(table, idxs[k])))
        + "\n-- Position tracking for "@ + p.name@ + "\n"@
        + "CREATE TABLE IF NOT EXISTS "@ + table + "_position (\n"@
        + "    tenant_id TEXT PRIMARY KEY,\n"@
        + "    last_event_id INTEGER NOT NULL DEFAULT 0,\n"@
        + "    updated_at TEXT NOT NULL DEFAULT (datetime('now'))\n"@
        + ");\n"@
}

fn schema_col_line(c: &ColumnDef) -> (r: String)
    ensures
        r@ == spec_schema_col_line(*c),
{
    let mut s = crate::text::to_owned_string("    ");
    s.append(c.name.as_str());
    s.append(" ");
    s.append(c.sql_type.to_sql());
    if !c.nullable {
        s.append(" NOT NULL");
    }
    match &c.default {
        Some(d) => {
            s.append(" DEFAULT ");
            s.append(d.as_str());
        },
        None => {},
    }
    s.append(",\n");
    s
}

fn schema_index_line(table: &str, idx: &IndexDef) -> (r: String)
    ensures
        r@ == spec_schema_index_line(table@, *idx),
{
    let mut s = crate::text::to_owned_string("CREATE ");
    if idx.unique {
        s.append("UNIQUE ");
    }
    s.append("INDEX IF NOT EXISTS ");
    s.append(table);
    s.append("_");
    s.append(idx.name.as_str());
    s.append(" ON ");
    s.append(table);
    s.append(" (tenant_id, ");
    let cols = join(&idx.columns, ", ");
    s.append(cols.as_str());
    s.append(");\n");
    s
}

/// Generates the SQL `CREATE TABLE` statements of a projection.
pub fn generate_projection_schema(projection: &ProjectionIR) -> (r: String)
    ensures
        r@ == spec_projection_schema(*projection),
{
    let p = projection;
    let table = to_snake_case(p.name.as_str());
    let ghost pks = p.schema.primary_keys@;
    let ghost cols = p.schema.columns@;
    let ghost idxs = p.schema.indexes@;
    let ghost fpk = |k: int| spec_schema_pk_line(pks[k]);
    let ghost fcol = |k: int| spec_schema_col_line(cols[k]);
    let ghost fkey = |k: int| ", "@ + pks[k].name@;
    let ghost fidx = |k: int| spec_schema_index_line(table@, idxs[k]);
    let mut pk_lines = String::new();
    let mut key_list = String::new();
    let mut i: usize = 0;
    while i < p.schema.primary_keys.len()
        invariant
            pks == p.schema.primary_keys@,
            i <= pks.len(),
            fpk == (|k: int| spec_schema_pk_line(pks[k])),
            fkey == (|k: int| ", "@ + pks[k].name@),
            pk_lines@ == seq_flatten(Seq::new(i as nat, fpk)),
            key_list@ == seq_flatten(Seq::new(i as nat, fkey)),
        decreases p.schema.primary_keys.len() - i,
    {
        let pk = &p.schema.primary_keys[i];
        pk_lines.append("    ");
        pk_lines.append(pk.name.as_str());
        pk_lines.append(" ");
        pk_lines.append(pk.sql_type.to_sql());
        pk_lines.append(" NOT NULL,\n");
        key_list.append(", ");
        key_list.append(pk.name.as_str());
        proof {
            lemma_flatten_new_step(fpk, i as int);
            lemma_flatten_new_step(fkey, i as int);
        }
        i = i + 1;
    }
    let mut col_lines = String::new();
    let mut i: usize = 0;
    while i < p.schema.columns.len()
        invariant
            cols == p.schema.columns@,
            i <= cols.len(),
            fcol == (|k: int| spec_schema_col_line(cols[k])),
            col_lines@ == seq_flatten(Seq::new(i as nat, fcol)),
        decreases p.schema.columns.len() - i,
    {
        let line = schema_col_line(&p.schema.columns[i]);
        col_lines.append(line.as_str());
        proof {
            lemma_flatten_new_step(fcol, i as int);
        }
        i = i + 1;
    }
    let mut idx_lines = String::new();
    let mut i: usize = 0;
    while i < p.schema.indexes.len()
        invariant
            idxs == p.schema.indexes@,
            i <= idxs.len(),
            fidx == (|k: int| spec_schema_index_line(table@, idxs[k])),
            idx_lines@ == seq_flatten(Seq::new(i as nat, fidx)),
        decreases p.schema.indexes.len() - i,
    {
        let line = schema_index_line(table.as_str(), &p.schema.indexes[i]);
        idx_lines.append(line.as_str());
        proof {
            lemma_flatten_new_step(fidx, i as int);
        }
        i = i + 1;
    }
    let mut out = crate::text::to_owned_string("-- Schema for ");
    out.append(p.name.as_str());
    out.append(" projection\n");
    out.append("-- Kind: ");
    out.append(p.kind.debug_name());
    out.append("\n\n");
    out.append("CREATE TABLE IF NOT EXISTS ");
    out.append(table.as_str());
    out.append(" (\n");
    out.append("    tenant_id TEXT NOT NULL,\n");
    out.append(pk_lines.as_str());
    out.append(col_lines.as_str());
    out.append("    created_at TEXT NOT NULL DEFAULT (datetime('now')),\n");
    out.append("    updated_at TEXT NOT NULL DEFAULT (datetime('now')),\n");
    out.append("    PRIMARY KEY (tenant_id");
    out.append(key_list.as_str());
    out.append(")\n");
    out.append(");\n\n");
    out.append(idx_lines.as_str());
    out.append("\n-- Position tracking for ");
    out.append(p.name.as_str());
    out.append("\n");
    out.append("CREATE TABLE IF NOT EXISTS ");
    out.append(table.as_str());
    out.append("_position (\n");
    out.append("    tenant_id TEXT PRIMARY KEY,\n");
    out.append("    last_event_id INTEGER NOT NULL DEFAULT 0,\n");
    out.append("    updated_at TEXT NOT NULL DEFAULT (datetime('now'))\n");
    out.append(");\n");
    out
}

// ---------------------------------------------------------------------------
// Worker
// ---------------------------------------------------------------------------

pub const PW_0: &'static str = r#"/**
 * Projection Worker: "#;
pub const PW_1: &'static str = r#"
 * Kind: "#;
pub const PW_2: &'static str = r#"
 *
 * This worker runs in a separate Bun process and polls the event log
 * to build and maintain the projection state.
 *
 * @generated by spitestack compiler
 */

import { Database } from 'bun:sqlite';
import { SpiteDbNapi } from '@spitestack/db';
"#;
pub const PW_3: &'static str = r#"

// Import the projection class from domain
import { "#;
pub const PW_4: &'static str = " } from '";
pub const PW_5: &'static str = "/";
pub const PW_6: &'static str = r#"/projection';

// Configuration (can be overridden via environment)
const POLL_INTERVAL_MS = parseInt(process.env.PROJECTION_POLL_INTERVAL ?? '50');
const BATCH_SIZE = parseInt(process.env.PROJECTION_BATCH_SIZE ?? '100');
const DATA_DIR = process.env.PROJECTION_DATA_DIR ?? './data/projections';

// Event types this projection subscribes to
const SUBSCRIBED_EVENTS = ["#;
pub const PW_7: &'static str = r#"];

class "#;
pub const PW_8: &'static str = r#"Worker {
    private db: Database;
    private eventDb: SpiteDbNapi;
    private projection: "#;
pub const PW_9: &'static str = r#";
    private running = false;
    private tenant: string;

    constructor(tenant: string, eventDbPath: string) {
        this.tenant = tenant;
        this.projection = new "#;
pub const PW_10: &'static str = r#"();

        // Open projection SQLite database
        const projectionDbPath = `${DATA_DIR}/"#;
pub const PW_11: &'static str = r#"_${tenant}.db`;
        this.db = new Database(projectionDbPath);
        this.db.run('PRAGMA journal_mode = WAL');

        // Initialize schema
        this.initSchema();

        // Connect to event store
        this.eventDb = new SpiteDbNapi(eventDbPath);
    }

    private initSchema(): void {
        // Create projection table if not exists
        this.db.run(`
            CREATE TABLE IF NOT EXISTS "#;
pub const PW_12: &'static str = r#" (
                tenant_id TEXT NOT NULL,
                "#;
pub const PW_13: &'static str = r#"
                "#;
pub const PW_14: &'static str = r#"
                created_at TEXT NOT NULL DEFAULT (datetime('now')),
                updated_at TEXT NOT NULL DEFAULT (datetime('now')),
                PRIMARY KEY (tenant_id, "#;
pub const PW_15: &'static str = r#")
            )
        `);

        // Create indexes
        "#;
pub const PW_16: &'static str = r#"

        // Create position tracking table
        this.db.run(`
            CREATE TABLE IF NOT EXISTS "#;
pub const PW_17: &'static str = r#"_position (
                tenant_id TEXT PRIMARY KEY,
                last_event_id INTEGER NOT NULL DEFAULT 0,
                updated_at TEXT NOT NULL DEFAULT (datetime('now'))
            )
        `);
    }

    private getLastPosition(): number {
        const row = this.db.query(
            'SELECT last_event_id FROM "#;
pub const PW_18: &'static str = r#"_position WHERE tenant_id = ?'
        ).get(this.tenant) as { last_event_id: number } | null;
        return row?.last_event_id ?? 0;
    }

    private updatePosition(eventId: number): void {
        this.db.run(`
            INSERT INTO "#;
pub const PW_19: &'static str = r#"_position (tenant_id, last_event_id, updated_at)
            VALUES (?, ?, datetime('now'))
            ON CONFLICT(tenant_id) DO UPDATE SET
                last_event_id = excluded.last_event_id,
                updated_at = excluded.updated_at
        `, [this.tenant, eventId]);
    }

    async start(): Promise<void> {
        this.running = true;
        console.log(`["#;
pub const PW_20: &'static str = r#"] Starting projection worker for tenant: ${this.tenant}`);

        while (this.running) {
            try {
                await this.processBatch();
            } catch (err) {
                console.error(`["#;
pub const PW_21: &'static str = r#"] Error processing batch:`, err);
            }
            await Bun.sleep(POLL_INTERVAL_MS);
        }
    }

    stop(): void {
        this.running = false;
        console.log(`["#;
pub const PW_22: &'static str = r#"] Stopping projection worker`);
    }

    private async processBatch(): Promise<void> {
        const lastPosition = this.getLastPosition();

        // Read events from all subscribed streams
        const events = await this.eventDb.readGlobalEvents(
            lastPosition,
            BATCH_SIZE,
            this.tenant
        );

        if (events.length === 0) {
            return;
        }

        // Filter to subscribed events and process
        let maxEventId = lastPosition;
        const transaction = this.db.transaction(() => {
            for (const event of events) {
                const eventData = JSON.parse(event.data.toString());

                // Check if we're subscribed to this event type
                if (SUBSCRIBED_EVENTS.length === 0 || SUBSCRIBED_EVENTS.includes(eventData.type)) {
                    // Apply event to projection
                    this.projection.build(eventData);

                    // Persist state changes
                    this.persistState();
                }

                maxEventId = Math.max(maxEventId, event.id);
            }

            // Update position
            this.updatePosition(maxEventId);
        });

        transaction();

        if (events.length > 0) {
            console.log(`["#;
pub const PW_23: &'static str = r#"] Processed ${events.length} events, position: ${maxEventId}`);
        }
    }

    private persistState(): void {
        // Persist the projection state to SQLite
        const state = this.projection."#;
pub const PW_24: &'static str = r#";

        "#;
pub const PW_25: &'static str = r#"
    }

    // Query methods (called by handlers)
    "#;
pub const PW_26: &'static str = r#"
}

// Worker entry point
const tenant = process.env.TENANT ?? 'default';
const eventDbPath = process.env.EVENT_DB_PATH ?? './data/events.db';

const worker = new "#;
pub const PW_27: &'static str = r#"Worker(tenant, eventDbPath);

// Handle graceful shutdown
process.on('SIGTERM', () => worker.stop());
process.on('SIGINT', () => worker.stop());

// Start the worker
worker.start();

// Export for testing
export { "#;
pub const PW_28: &'static str = r#"Worker };
"#;

pub const PD_0: &'static str = r#"for (const [key, row] of Object.entries(state)) {
            const stmt = this.db.prepare(`
                INSERT INTO "#;
pub const PD_1: &'static str = " (tenant_id, ";
pub const PD_2: &'static str = ", ";
pub const PD_3: &'static str = r#", updated_at)
                VALUES (?, ?, "#;
pub const PD_4: &'static str = r#", datetime('now'))
                ON CONFLICT(tenant_id, "#;
pub const PD_5: &'static str = r#") DO UPDATE SET
                    "#;
pub const PD_6: &'static str = r#",
                    updated_at = datetime('now')
            `);
            stmt.run(this.tenant, key, "#;
pub const PD_7: &'static str = r#");
        }"#;

pub const PA_0: &'static str = r#"// Aggregator: persist as JSON checkpoint
        const stmt = this.db.prepare(`
            INSERT INTO "#;
pub const PA_1: &'static str = r#" (tenant_id, id, state_json, updated_at)
            VALUES (?, 'singleton', ?, datetime('now'))
            ON CONFLICT(tenant_id, id) DO UPDATE SET
                state_json = excluded.state_json,
                updated_at = datetime('now')
        `);
        stmt.run(this.tenant, JSON.stringify(state));"#;

pub const PT_0: &'static str = r#"// Time-Series: persist each bucket
        for (const [timeKey, value] of Object.entries(state)) {
            const stmt = this.db.prepare(`
                INSERT INTO "#;
pub const PT_1: &'static str = r#" (tenant_id, time_key, value, updated_at)
                VALUES (?, ?, ?, datetime('now'))
                ON CONFLICT(tenant_id, time_key) DO UPDATE SET
                    value = excluded.value,
                    updated_at = datetime('now')
            `);
            stmt.run(this.tenant, timeKey, value);
        }"#;

pub const QR_0: &'static str = r#"
    "#;
pub const QR_1: &'static str = "(";
pub const QR_2: &'static str = r#"): any[] {
        const stmt = this.db.prepare(
            'SELECT * FROM "#;
pub const QR_3: &'static str = r#" WHERE tenant_id = ? AND time_key >= ? AND time_key <= ? ORDER BY time_key'
        );
        return stmt.all(this.tenant, start, end);
    }"#;

pub const QP_0: &'static str = r#"
    "#;
pub const QP_1: &'static str = "(";
pub const QP_2: &'static str = r#"): any | null {
        const stmt = this.db.prepare(
            'SELECT * FROM "#;
pub const QP_3: &'static str = " WHERE tenant_id = ?";
pub const QP_4: &'static str = r#"'
        );
        return stmt.get(this.tenant"#;
pub const QP_5: &'static str = r#");
    }"#;

/// The storage note of a projection kind.
pub open spec fn spec_kind_comment(k: ProjectionKind) -> Seq<char> {
    match k {
        ProjectionKind::DenormalizedView => "SQLite-backed row storage"@,
        ProjectionKind::Aggregator => "Memory-resident with checkpointing"@,
        ProjectionKind::TimeSeries => "Time-bucketed data with range queries"@,
    }
}

fn kind_comment(k: ProjectionKind) -> (r: &'static str)
    ensures
        r@ == spec_kind_comment(k),
{
    match k {
        ProjectionKind::DenormalizedView => "SQLite-backed row storage",
        ProjectionKind::Aggregator => "Memory-resident with checkpointing",
        ProjectionKind::TimeSeries => "Time-bucketed data with range queries",
    }
}

/// The aggregates of the first `n` subscribed events, each once, in the order
/// of their first occurrence.
pub open spec fn spec_import_aggregates(evs: Seq<SubscribedEvent>, n: int) -> Seq<Seq<char>>
    decreases n,
{
    if n <= 0 || n > evs.len() {
        Seq::empty()
    } else {
        let acc = spec_import_aggregates(evs, n - 1);
        match evs[n - 1].aggregate {
            Some(a) => if acc.contains(a@) {
                acc
            } else {
                acc.push(a@)
            },
            None => acc,
        }
    }
}

/// One type import of the event union of each aggregate that the projection
/// subscribes to.
pub open spec fn spec_event_imports(p: ProjectionIR, dip: Seq<char>) -> Seq<char> {
    let aggs = spec_import_aggregates(p.subscribed_events@, p.subscribed_events@.len() as int);
    seq_join(
        Seq::new(aggs.len(), |k: int| "import type { "@ + aggs[k] + "Event } from '"@ + dip + "/"@ + aggs[k] + "/events';"@),
        "\n"@,
    )
}

/// The quoted names of the subscribed events, joined by `", "`.
pub open spec fn spec_subscribed_list(p: ProjectionIR) -> Seq<char> {
    let evs = p.subscribed_events@;
    seq_join(Seq::new(evs.len(), |k: int| "'"@ + evs[k].event_name@ + "'"@), ", "@)
}

/// The separator between column lines of the worker's `CREATE TABLE`.
pub open spec fn worker_column_sep() -> Seq<char> {
    "\n                "@
}

/// The primary key column lines of the worker's `CREATE TABLE`.
pub open spec fn spec_pk_columns(p: ProjectionIR) -> Seq<char> {
    let pks = p.schema.primary_keys@;
    seq_join(
        Seq::new(pks.len(), |k: int| pks[k].name@ + " "@ + spec_sql_type_str(pks[k].sql_type) + " NOT NULL,"@),
        worker_column_sep(),
    )
}

/// The data column lines of the worker's `CREATE TABLE`.
pub open spec fn spec_data_columns(p: ProjectionIR) -> Seq<char> {
    let cols = p.schema.columns@;
    seq_join(
        Seq::new(
            cols.len(),
            |k: int| cols[k].name@ + " "@ + spec_sql_type_str(cols[k].sql_type) + (if cols[k].nullable {
                Seq::empty()
            } else {
                " NOT NULL"@
            }) + ","@,
        ),
        worker_column_sep(),
    )
}

/// The primary key names, joined by `", "`.
pub open spec fn spec_pk_names(p: ProjectionIR) -> Seq<char> {
    let pks = p.schema.primary_keys@;
    seq_join(Seq::new(pks.len(), |k: int| pks[k].name@), ", "@)
}

/// The statement that creates one index, as the worker runs it.
pub open spec fn spec_worker_index(snake: Seq<char>, idx: IndexDef) -> Seq<char> {
    "this.db.run('CREATE INDEX IF NOT EXISTS "@ + snake + "_"@ + idx.name@ + " ON "@ + snake + " (tenant_id, "@
        + spec_index_columns(idx) + ")');"@
}

/// The worker's index creation statements.
pub open spec fn spec_index_creation(p: ProjectionIR) -> Seq<char> {
    let idxs = p.schema.indexes@;
    let snake = spec_snake_case(p.name@);
    seq_join(Seq::new(idxs.len(), |k: int| spec_worker_index(snake, idxs[k])), "\n        "@)
}

/// The first primary key of a projection, or `id` when it has none.
pub open spec fn spec_pk_or_id(p: ProjectionIR) -> Seq<char> {
    if p.schema.primary_keys@.len() > 0 {
        p.schema.primary_keys@[0].name@
    } else {
        "id"@
    }
}

/// The data column names, joined by `", "`.
pub open spec fn spec_col_names(p: ProjectionIR) -> Seq<char> {
    let cols = p.schema.columns@;
    seq_join(Seq::new(cols.len(), |k: int| cols[k].name@), ", "@)
}

/// One `?` per data column, joined by `", "`.
pub open spec fn spec_placeholders(p: ProjectionIR) -> Seq<char> {
    seq_join(Seq::new(p.schema.columns@.len(), |k: int| "?"@), ", "@)
}

/// `c = excluded.c` per data column, joined by `", "`.
pub open spec fn spec_col_updates(p: ProjectionIR) -> Seq<char> {
    let cols = p.schema.columns@;
    seq_join(Seq::new(cols.len(), |k: int| cols[k].name@ + " = excluded."@ + cols[k].name@), ", "@)
}

/// `row.c` per data column, joined by `", "`.
pub open spec fn spec_col_values(p: ProjectionIR) -> Seq<char> {
    let cols = p.schema.columns@;
    seq_join(Seq::new(cols.len(), |k: int| "row."@ + cols[k].name@), ", "@)
}

/// The code that writes the projection state to SQLite, by kind.
pub open spec fn spec_persist_logic(p: ProjectionIR) -> Seq<char> {
    match p.kind {
        ProjectionKind::DenormalizedView => PD_0@ + spec_snake_case(p.name@) + PD_1@ + spec_pk_or_id(p) + PD_2@ + spec_col_names(p) + PD_3@ + spec_placeholders(p) + PD_4@ + spec_pk_or_id(p) + PD_5@ + spec_col_updates(p) + PD_6@ + spec_col_values(p) + PD_7@,
        ProjectionKind::Aggregator => PA_0@ + spec_snake_case(p.name@) + PA_1@,
        ProjectionKind::TimeSeries => PT_0@ + spec_snake_case(p.name@) + PT_1@,
    }
}

/// `name: type` per parameter of a query, joined by `", "`.
pub open spec fn spec_query_params(q: QueryMethodIR) -> Seq<char> {
    let ps = q.parameters@;
    seq_join(Seq::new(ps.len(), |k: int| ps[k].name@ + ": "@ + spec_param_ts(ps[k].typ)), ", "@)
}

/// ` AND col = ?` per parameter, or nothing without parameters.
pub open spec fn spec_where_clause(q: QueryMethodIR) -> Seq<char> {
    let ps = q.parameters@;
    if ps.len() == 0 {
        Seq::empty()
    } else {
        " AND "@ + seq_join(Seq::new(ps.len(), |k: int| spec_snake_case(ps[k].name@) + " = ?"@), " AND "@)
    }
}

/// `, a, b` of the parameter names, or nothing without parameters.
pub open spec fn spec_param_names_tail(q: QueryMethodIR) -> Seq<char> {
    let ps = q.parameters@;
    if ps.len() == 0 {
        Seq::empty()
    } else {
        ", "@ + seq_join(Seq::new(ps.len(), |k: int| ps[k].name@), ", "@)
    }
}

/// The worker method of one query: a range scan over `time_key`, or a point lookup.
pub open spec fn spec_worker_query(p: ProjectionIR, q: QueryMethodIR) -> Seq<char> {
    if q.is_range_query {
        QR_0@ + q.name@ + QR_1@ + spec_query_params(q) + QR_2@ + spec_snake_case(p.name@) + QR_3@
    } else {
        QP_0@ + q.name@ + QP_1@ + spec_query_params(q) + QP_2@ + spec_snake_case(p.name@) + QP_3@ + spec_where_clause(q) + QP_4@ + spec_param_names_tail(q) + QP_5@
    }
}

/// The worker methods of all queries, joined by newlines.
pub open spec fn spec_worker_query_methods(p: ProjectionIR) -> Seq<char> {
    seq_join(Seq::new(p.queries@.len(), |k: int| spec_worker_query(p, p.queries@[k])), "\n"@)
}

/// The worker module of a projection.
pub open spec fn spec_projection_worker(p: ProjectionIR, dip: Seq<char>) -> Seq<char> {
    PW_0@ + p.name@ + PW_1@ + spec_kind_comment(p.kind) + PW_2@ + spec_event_imports(p, dip) + PW_3@ + p.name@ + PW_4@ + dip + PW_5@ + p.name@ + PW_6@ + spec_subscribed_list(p) + PW_7@ + spec_pascal_case(p.name@) + PW_8@ + p.name@ + PW_9@ + p.name@ + PW_10@ + spec_snake_case(p.name@) + PW_11@ + spec_snake_case(p.name@) + PW_12@ + spec_pk_columns(p) + PW_13@ + spec_data_columns(p) + PW_14@ + spec_pk_names(p) + PW_15@ + spec_index_creation(p) + PW_16@ + spec_snake_case(p.name@) + PW_17@ + spec_snake_case(p.name@) + PW_18@ + spec_snake_case(p.name@) + PW_19@ + p.name@ + PW_20@ + p.name@ + PW_21@ + p.name@ + PW_22@ + p.name@ + PW_23@ + p.schema.state_property_name@ + PW_24@ + spec_persist_logic(p) + PW_25@ + spec_worker_query_methods(p) + PW_26@ + spec_pascal_case(p.name@) + PW_27@ + spec_pascal_case(p.name@) + PW_28@
}

fn event_imports(p: &ProjectionIR, domain_import_path: &str) -> (r: String)
    ensures
        r@ == spec_event_imports(*p, domain_import_path@),
{
    let ghost evs = p.subscribed_events@;
    let mut aggs: Vec<String> = Vec::new();
    let mut i: usize = 0;
    while i < p.subscribed_events.len()
        invariant
            evs == p.subscribed_events@,
            i <= evs.len(),
            views(aggs@) == spec_import_aggregates(evs, i as int),
        decreases p.subscribed_events.len() - i,
    {
        match &p.subscribed_events[i].aggregate {
            Some(a) => {
                let mut found = false;
                let mut j: usize = 0;
                while j < aggs.len()
                    invariant
                        j <= aggs@.len(),
                        found <==> exists|m: int| 0 <= m < j && aggs@[m]@ == a@,
                    decreases aggs.len() - j,
                {
                    if crate::text::str_eq(aggs[j].as_str(), a.as_str()) {
                        found = true;
                    }
                    j = j + 1;
                }
                proof {
                    let acc = spec_import_aggregates(evs, i as int);
                    assert(acc =~= views(aggs@));
                    if found {
                        let m = choose|m: int| 0 <= m < aggs@.len() && aggs@[m]@ == a@;
                        assert(acc[m] == a@);
                    } else {
                        assert(!acc.contains(a@)) by {
                            if acc.contains(a@) {
                                let m = choose|m: int| 0 <= m < acc.len() && acc[m] == a@;
                                assert(aggs@[m]@ == a@);
                            }
                        }
                    }
                }
                if !found {
                    aggs.push(a.clone());
                    proof {
                        assert(views(aggs@) =~= spec_import_aggregates(evs, i as int).push(a@));
                    }
                }
            },
            None => {},
        }
        i = i + 1;
    }
    let ghost names = views(aggs@);
    let ghost f = |k: int| "import type { "@ + names[k] + "Event } from '"@ + domain_import_path@ + "/"@ + names[k] + "/events';"@;
    let mut parts: Vec<String> = Vec::new();
    let mut i: usize = 0;
    while i < aggs.len()
        invariant
            i <= aggs.len(),
            f == (|k: int| "import type { "@ + names[k] + "Event } from '"@ + domain_import_path@ + "/"@ + names[k] + "/events';"@),
            parts@.len() == i,
            forall|k: int| 0 <= k < i ==> #[trigger] parts@[k]@ == f(k),
            names == views(aggs@),
        decreases aggs.len() - i,
    {
        let mut s = crate::text::to_owned_string("import type { ");
        s.append(aggs[i].as_str());
        s.append("Event } from '");
        s.append(domain_import_path);
        s.append("/");
        s.append(aggs[i].as_str());
        s.append("/events';");
        parts.push(s);
        i = i + 1;
    }
    proof {
        assert(views(parts@) =~= Seq::new(parts@.len(), f));
    }
    let joined = join(&parts, "\n");
    joined
}

fn subscribed_list(p: &ProjectionIR) -> (r: String)
    ensures
        r@ == spec_subscribed_list(*p),
{
    let ghost evs = p.subscribed_events@;
    let ghost f = |k: int| "'"@ + evs[k].event_name@ + "'"@;
    let mut parts: Vec<String> = Vec::new();
    let mut i: usize = 0;
    while i < p.subscribed_events.len()
        invariant
            i <= p.subscribed_events.len(),
            f == (|k: int| "'"@ + evs[k].event_name@ + "'"@),
            parts@.len() == i,
            forall|k: int| 0 <= k < i ==> #[trigger] parts@[k]@ == f(k),
            evs == p.subscribed_events@,
        decreases p.subscribed_events.len() - i,
    {
        let mut s = crate::text::to_owned_string("'");
        s.append(p.subscribed_events[i].event_name.as_str());
        s.append("'");
        parts.push(s);
        i = i + 1;
    }
    proof {
        assert(views(parts@) =~= Seq::new(parts@.len(), f));
    }
    let joined = join(&parts, ", ");
    joined
}

fn pk_columns(p: &ProjectionIR) -> (r: String)
    ensures
        r@ == spec_pk_columns(*p),
{
    let ghost pks = p.schema.primary_keys@;
    let ghost f = |k: int| pks[k].name@ + " "@ + spec_sql_type_str(pks[k].sql_type) + " NOT NULL,"@;
    let mut parts: Vec<String> = Vec::new();
    let mut i: usize = 0;
    while i < p.schema.primary_keys.len()
        invariant
            i <= p.schema.primary_keys.len(),
            f == (|k: int| pks[k].name@ + " "@ + spec_sql_type_str(pks[k].sql_type) + " NOT NULL,"@),
            parts@.len() == i,
            forall|k: int| 0 <= k < i ==> #[trigger] parts@[k]@ == f(k),
            pks == p.schema.primary_keys@,
        decreases p.schema.primary_keys.len() - i,
    {
        let pk = &p.schema.primary_keys[i];
        let mut s = pk.name.clone();
        s.append(" ");
        s.append(pk.sql_type.to_sql());
        s.append(" NOT NULL,");
        parts.push(s);
        i = i + 1;
    }
    proof {
        assert(views(parts@) =~= Seq::new(parts@.len(), f));
    }
    let joined = join(&parts, "\n                ");
    joined
}

fn data_columns(p: &ProjectionIR) -> (r: String)
    ensures
        r@ == spec_data_columns(*p),
{
    let ghost cols = p.schema.columns@;
    let ghost f = |k: int| cols[k].name@ + " "@ + spec_sql_type_str(cols[k].sql_type) + (if cols[k].nullable { Seq::empty() } else { " NOT NULL"@ }) + ","@;
    let mut parts: Vec<String> = Vec::new();
    let mut i: usize = 0;
    while i < p.schema.columns.len()
        invariant
            i <= p.schema.columns.len(),
            f == (|k: int| cols[k].name@ + " "@ + spec_sql_type_str(cols[k].sql_type) + (if cols[k].nullable { Seq::empty() } else { " NOT NULL"@ }) + ","@),
            parts@.len() == i,
            forall|k: int| 0 <= k < i ==> #[trigger] parts@[k]@ == f(k),
            cols == p.schema.columns@,
        decreases p.schema.columns.len() - i,
    {
        let c = &p.schema.columns[i];
        let mut s = c.name.clone();
        s.append(" ");
        s.append(c.sql_type.to_sql());
        if !c.nullable {
            s.append(" NOT NULL");
        }
        s.append(",");
        parts.push(s);
        i = i + 1;
    }
    proof {
        assert(views(parts@) =~= Seq::new(parts@.len(), f));
    }
    let joined = join(&parts, "\n                ");
    joined
}

fn pk_names(p: &ProjectionIR) -> (r: String)
    ensures
        r@ == spec_pk_names(*p),
{
    let ghost pks = p.schema.primary_keys@;
    let ghost f = |k: int| pks[k].name@;
    let mut parts: Vec<String> = Vec::new();
    let mut i: usize = 0;
    while i < p.schema.primary_keys.len()
        invariant
            i <= p.schema.primary_keys.len(),
            f == (|k: int| pks[k].name@),
            parts@.len() == i,
            forall|k: int| 0 <= k < i ==> #[trigger] parts@[k]@ == f(k),
            pks == p.schema.primary_keys@,
        decreases p.schema.primary_keys.len() - i,
    {
        let s = p.schema.primary_keys[i].name.clone();
        parts.push(s);
        i = i + 1;
    }
    proof {
        assert(views(parts@) =~= Seq::new(parts@.len(), f));
    }
    let joined = join(&parts, ", ");
    joined
}

fn index_creation(p: &ProjectionIR, snake: &str) -> (r: String)
    requires
        snake@ == spec_snake_case(p.name@),
    ensures
        r@ == spec_index_creation(*p),
{
    let ghost idxs = p.schema.indexes@;
    let ghost f = |k: int| spec_worker_index(snake@, idxs[k]);
    let mut parts: Vec<String> = Vec::new();
    let mut i: usize = 0;
    while i < p.schema.indexes.len()
        invariant
            i <= p.schema.indexes.len(),
            f == (|k: int| spec_worker_index(snake@, idxs[k])),
            parts@.len() == i,
            forall|k: int| 0 <= k < i ==> #[trigger] parts@[k]@ == f(k),
            idxs == p.schema.indexes@,
        decreases p.schema.indexes.len() - i,
    {
        let idx = &p.schema.indexes[i];
        let mut s = crate::text::to_owned_string("this.db.run('CREATE INDEX IF NOT EXISTS ");
        s.append(snake);
        s.append("_");
        s.append(idx.name.as_str());
        s.append(" ON ");
        s.append(snake);
        s.append(" (tenant_id, ");
        let cols = join(&idx.columns, ", ");
        s.append(cols.as_str());
        s.append(")');");
        parts.push(s);
        i = i + 1;
    }
    proof {
        assert(views(parts@) =~= Seq::new(parts@.len(), f));
    }
    let joined = join(&parts, "\n        ");
    joined
}

fn col_names(p: &ProjectionIR) -> (r: String)
    ensures
        r@ == spec_col_names(*p),
{
    let ghost cols = p.schema.columns@;
    let ghost f = |k: int| cols[k].name@;
    let mut parts: Vec<String> = Vec::new();
    let mut i: usize = 0;
    while i < p.schema.columns.len()
        invariant
            i <= p.schema.columns.len(),
            f == (|k: int| cols[k].name@),
            parts@.len() == i,
            forall|k: int| 0 <= k < i ==> #[trigger] parts@[k]@ == f(k),
            cols == p.schema.columns@,
        decreases p.schema.columns.len() - i,
    {
        let s = p.schema.columns[i].name.clone();
        parts.push(s);
        i = i + 1;
    }
    proof {
        assert(views(parts@) =~= Seq::new(parts@.len(), f));
    }
    let joined = join(&parts, ", ");
    joined
}

fn placeholders(p: &ProjectionIR) -> (r: String)
    ensures
        r@ == spec_placeholders(*p),
{
    let ghost f = |k: int| "?"@;
    let mut parts: Vec<String> = Vec::new();
    let mut i: usize = 0;
    while i < p.schema.columns.len()
        invariant
            i <= p.schema.columns.len(),
            f == (|k: int| "?"@),
            parts@.len() == i,
            forall|k: int| 0 <= k < i ==> #[trigger] parts@[k]@ == f(k),
        decreases p.schema.columns.len() - i,
    {
        let s = crate::text::to_owned_string("?");
        parts.push(s);
        i = i + 1;
    }
    proof {
        assert(views(parts@) =~= Seq::new(parts@.len(), f));
    }
    let joined = join(&parts, ", ");
    joined
}

fn col_updates(p: &ProjectionIR) -> (r: String)
    ensures
        r@ == spec_col_updates(*p),
{
    let ghost cols = p.schema.columns@;
    let ghost f = |k: int| cols[k].name@ + " = excluded."@ + cols[k].name@;
    let mut parts: Vec<String> = Vec::new();
    let mut i: usize = 0;
    while i < p.schema.columns.len()
        invariant
            i <= p.schema.columns.len(),
            f == (|k: int| cols[k].name@ + " = excluded."@ + cols[k].name@),
            parts@.len() == i,
            forall|k: int| 0 <= k < i ==> #[trigger] parts@[k]@ == f(k),
            cols == p.schema.columns@,
        decreases p.schema.columns.len() - i,
    {
        let mut s = p.schema.columns[i].name.clone();
        s.append(" = excluded.");
        s.append(p.schema.columns[i].name.as_str());
        parts.push(s);
        i = i + 1;
    }
    proof {
        assert(views(parts@) =~= Seq::new(parts@.len(), f));
    }
    let joined = join(&parts, ", ");
    joined
}

fn col_values(p: &ProjectionIR) -> (r: String)
    ensures
        r@ == spec_col_values(*p),
{
    let ghost cols = p.schema.columns@;
    let ghost f = |k: int| "row."@ + cols[k].name@;
    let mut parts: Vec<String> = Vec::new();
    let mut i: usize = 0;
    while i < p.schema.columns.len()
        invariant
            i <= p.schema.columns.len(),
            f == (|k: int| "row."@ + cols[k].name@),
            parts@.len() == i,
            forall|k: int| 0 <= k < i ==> #[trigger] parts@[k]@ == f(k),
            cols == p.schema.columns@,
        decreases p.schema.columns.len() - i,
    {
        let mut s = crate::text::to_owned_string("row.");
        s.append(p.schema.columns[i].name.as_str());
        parts.push(s);
        i = i + 1;
    }
    proof {
        assert(views(parts@) =~= Seq::new(parts@.len(), f));
    }
    let joined = join(&parts, ", ");
    joined
}

/// Generates the code that persists the projection state, by kind.
pub fn generate_persist_logic(projection: &ProjectionIR) -> (r: String)
    ensures
        r@ == spec_persist_logic(*projection),
{
    let p = projection;
    let snake = to_snake_case(p.name.as_str());
    match p.kind {
        ProjectionKind::DenormalizedView => {
            let pk = if p.schema.primary_keys.len() > 0 {
                p.schema.primary_keys[0].name.clone()
            } else {
                crate::text::to_owned_string("id")
            };
            let cols = col_names(p);
            let placeholders = placeholders(p);
            let updates = col_updates(p);
            let values = col_values(p);
            let mut out = crate::text::to_owned_string(PD_0);
            out.append(snake.as_str());
            out.append(PD_1);
            out.append(pk.as_str());
            out.append(PD_2);
            out.append(cols.as_str());
            out.append(PD_3);
            out.append(placeholders.as_str());
            out.append(PD_4);
            out.append(pk.as_str());
            out.append(PD_5);
            out.append(updates.as_str());
            out.append(PD_6);
            out.append(values.as_str());
            out.append(PD_7);
            out
        },
        ProjectionKind::Aggregator => {
            let mut out = crate::text::to_owned_string(PA_0);
            out.append(snake.as_str());
            out.append(PA_1);
            out
        },
        ProjectionKind::TimeSeries => {
            let mut out = crate::text::to_owned_string(PT_0);
            out.append(snake.as_str());
            out.append(PT_1);
            out
        },
    }
}

fn query_params(q: &QueryMethodIR) -> (r: String)
    ensures
        r@ == spec_query_params(*q),
{
    let ghost ps = q.parameters@;
    let ghost f = |k: int| ps[k].name@ + ": "@ + spec_param_ts(ps[k].typ);
    let mut parts: Vec<String> = Vec::new();
    let mut i: usize = 0;
    while i < q.parameters.len()
        invariant
            i <= q.parameters.len(),
            f == (|k: int| ps[k].name@ + ": "@ + spec_param_ts(ps[k].typ)),
            parts@.len() == i,
            forall|k: int| 0 <= k < i ==> #[trigger] parts@[k]@ == f(k),
            ps == q.parameters@,
        decreases q.parameters.len() - i,
    {
        let mut s = q.parameters[i].name.clone();
        s.append(": ");
        s.append(domain_type_to_ts(&q.parameters[i].typ));
        parts.push(s);
        i = i + 1;
    }
    proof {
        assert(views(parts@) =~= Seq::new(parts@.len(), f));
    }
    let joined = join(&parts, ", ");
    joined
}

fn where_clause(q: &QueryMethodIR) -> (r: String)
    ensures
        r@ == spec_where_clause(*q),
{
    if q.parameters.len() == 0 {
        return String::new();
    }
    let ghost ps = q.parameters@;
    let ghost f = |k: int| spec_snake_case(ps[k].name@) + " = ?"@;
    let mut parts: Vec<String> = Vec::new();
    let mut i: usize = 0;
    while i < q.parameters.len()
        invariant
            i <= q.parameters.len(),
            f == (|k: int| spec_snake_case(ps[k].name@) + " = ?"@),
            parts@.len() == i,
            forall|k: int| 0 <= k < i ==> #[trigger] parts@[k]@ == f(k),
            ps == q.parameters@,
        decreases q.parameters.len() - i,
    {
        let mut s = to_snake_case(q.parameters[i].name.as_str());
        s.append(" = ?");
        parts.push(s);
        i = i + 1;
    }
    proof {
        assert(views(parts@) =~= Seq::new(parts@.len(), f));
    }
    let joined = join(&parts, " AND ");
    let mut out = crate::text::to_owned_string(" AND ");
    out.append(joined.as_str());
    out
}

fn param_names_tail(q: &QueryMethodIR) -> (r: String)
    ensures
        r@ == spec_param_names_tail(*q),
{
    if q.parameters.len() == 0 {
        return String::new();
    }
    let ghost ps = q.parameters@;
    let ghost f = |k: int| ps[k].name@;
    let mut parts: Vec<String> = Vec::new();
    let mut i: usize = 0;
    while i < q.parameters.len()
        invariant
            i <= q.parameters.len(),
            f == (|k: int| ps[k].name@),
            parts@.len() == i,
            forall|k: int| 0 <= k < i ==> #[trigger] parts@[k]@ == f(k),
            ps == q.parameters@,
        decreases q.parameters.len() - i,
    {
        let s = q.parameters[i].name.clone();
        parts.push(s);
        i = i + 1;
    }
    proof {
        assert(views(parts@) =~= Seq::new(parts@.len(), f));
    }
    let joined = join(&parts, ", ");
    let mut out = crate::text::to_owned_string(", ");
    out.append(joined.as_str());
    out
}

fn worker_query(p: &ProjectionIR, q: &QueryMethodIR) -> (r: String)
    ensures
        r@ == spec_worker_query(*p, *q),
{
    let params = query_params(q);
    let snake = to_snake_case(p.name.as_str());
    if q.is_range_query {
        let mut out = crate::text::to_owned_string(QR_0);
        out.append(q.name.as_str());
        out.append(QR_1);
        out.append(params.as_str());
        out.append(QR_2);
        out.append(snake.as_str());
        out.append(QR_3);
        out
    } else {
        let where_clause = where_clause(q);
        let names_tail = param_names_tail(q);
        let mut out = crate::text::to_owned_string(QP_0);
        out.append(q.name.as_str());
        out.append(QP_1);
        out.append(params.as_str());
        out.append(QP_2);
        out.append(snake.as_str());
        out.append(QP_3);
        out.append(where_clause.as_str());
        out.append(QP_4);
        out.append(names_tail.as_str());
        out.append(QP_5);
        out
    }
}

/// Generates the worker methods of the projection's queries.
pub fn generate_worker_query_methods(projection: &ProjectionIR) -> (r: String)
    ensures
        r@ == spec_worker_query_methods(*projection),
{
    let p = projection;
    let ghost f = |k: int| spec_worker_query(*p, p.queries@[k]);
    let mut parts: Vec<String> = Vec::new();
    let mut i: usize = 0;
    while i < p.queries.len()
        invariant
            i <= p.queries.len(),
            f == (|k: int| spec_worker_query(*p, p.queries@[k])),
            parts@.len() == i,
            forall|k: int| 0 <= k < i ==> #[trigger] parts@[k]@ == f(k),
        decreases p.queries.len() - i,
    {
        let s = worker_query(p, &p.queries[i]);
        parts.push(s);
        i = i + 1;
    }
    proof {
        assert(views(parts@) =~= Seq::new(parts@.len(), f));
    }
    let joined = join(&parts, "\n");
    joined
}

/// Generates the Bun worker module of a projection.
pub fn generate_projection_worker(projection: &ProjectionIR, domain_import_path: &str) -> (r: String)
    ensures
        r@ == spec_projection_worker(*projection, domain_import_path@),
{
    let p = projection;
    let ghost dip = domain_import_path@;
    let snake = to_snake_case(p.name.as_str());
    let pascal = to_pascal_case(p.name.as_str());
    let imports = event_imports(p, domain_import_path);
    let subscribed = subscribed_list(p);
    let pk_columns = pk_columns(p);
    let data_columns = data_columns(p);
    let pk_names = pk_names(p);
    let index_creation = index_creation(p, snake.as_str());
    let persist = generate_persist_logic(p);
    let queries = generate_worker_query_methods(p);
    let mut out = crate::text::to_owned_string(PW_0);
    out.append(p.name.as_str());
    out.append(PW_1);
    out.append(kind_comment(p.kind));
    out.append(PW_2);
    out.append(imports.as_str());
    out.append(PW_3);
    out.append(p.name.as_str());
    out.append(PW_4);
    out.append(domain_import_path);
    out.append(PW_5);
    out.append(p.name.as_str());
    out.append(PW_6);
    out.append(subscribed.as_str());
    out.append(PW_7);
    out.append(pascal.as_str());
    out.append(PW_8);
    out.append(p.name.as_str());
    out.append(PW_9);
    out.append(p.name.as_str());
    out.append(PW_10);
    out.append(snake.as_str());
    out.append(PW_11);
    out.append(snake.as_str());
    out.append(PW_12);
    out.append(pk_columns.as_str());
    out.append(PW_13);
    out.append(data_columns.as_str());
    out.append(PW_14);
    out.append(pk_names.as_str());
    out.append(PW_15);
    out.append(index_creation.as_str());
    out.append(PW_16);
    out.append(snake.as_str());
    out.append(PW_17);
    out.append(snake.as_str());
    out.append(PW_18);
    out.append(snake.as_str());
    out.append(PW_19);
    out.append(p.name.as_str());
    out.append(PW_20);
    out.append(p.name.as_str());
    out.append(PW_21);
    out.append(p.name.as_str());
    out.append(PW_22);
    out.append(p.name.as_str());
    out.append(PW_23);
    out.append(p.schema.state_property_name.as_str());
    out.append(PW_24);
    out.append(persist.as_str());
    out.append(PW_25);
    out.append(queries.as_str());
    out.append(PW_26);
    out.append(pascal.as_str());
    out.append(PW_27);
    out.append(pascal.as_str());
    out.append(PW_28);
    out
}

// ---------------------------------------------------------------------------
// Query handlers
// ---------------------------------------------------------------------------

pub const HH_0: &'static str = r#"/**
 * HTTP Handlers for "#;
pub const HH_1: &'static str = r#" Projection
 *
 * @generated by spitestack compiler
 */

import { Database } from 'bun:sqlite';
import type { TelemetryDbNapi } from '@spitestack/db';

const DATA_DIR = process.env.PROJECTION_DATA_DIR ?? './data/projections';

export type ProjectionHandlerContext = {
    tenant: string;
    telemetry: TelemetryDbNapi;
};

function getProjectionDb(tenant: string): Database {
    const dbPath = `${DATA_DIR}/"#;
pub const HH_2: &'static str = r#"_${tenant}.db`;
    const db = new Database(dbPath, { readonly: true });
    return db;
}
"#;

pub const HR_0: &'static str = r#"
export async function handle"#;
pub const HR_1: &'static str = r#"(
    "#;
pub const HR_2: &'static str = r#"
): Promise<Response> {
    try {
        const db = getProjectionDb(ctx.tenant);
        const stmt = db.prepare(
            'SELECT * FROM "#;
pub const HR_3: &'static str = r#" WHERE tenant_id = ? AND time_key >= ? AND time_key <= ? ORDER BY time_key'
        );
        const rows = stmt.all(ctx.tenant, params.start ?? params.startDate ?? params.from, params.end ?? params.endDate ?? params.to);
        db.close();

        const total = rows.reduce((sum: number, r: any) => sum + (r.value ?? 0), 0);
        return new Response(JSON.stringify({ total, rows }), {
            status: 200,
            headers: { 'Content-Type': 'application/json' },
        });
    } catch (err) {
        return new Response(JSON.stringify({ error: (err as Error).message }), {
            status: 500,
            headers: { 'Content-Type': 'application/json' },
        });
    }
}
"#;

pub const HP_0: &'static str = r#"
export async function handle"#;
pub const HP_1: &'static str = r#"(
    "#;
pub const HP_2: &'static str = r#"
): Promise<Response> {
    try {
        const db = getProjectionDb(ctx.tenant);
        const stmt = db.prepare(
            'SELECT * FROM "#;
pub const HP_3: &'static str = " WHERE tenant_id = ?";
pub const HP_4: &'static str = r#"'
        );
        const row = stmt.get("#;
pub const HP_5: &'static str = r#");
        db.close();

        if (!row) {
            return new Response(JSON.stringify({ error: 'Not found' }), {
                status: 404,
                headers: { 'Content-Type': 'application/json' },
            });
        }

        return new Response(JSON.stringify(row), {
            status: 200,
            headers: { 'Content-Type': 'application/json' },
        });
    } catch (err) {
        return new Response(JSON.stringify({ error: (err as Error).message }), {
            status: 500,
            headers: { 'Content-Type': 'application/json' },
        });
    }
}
"#;

/// `params: { name: type, ... }` of a query, or nothing without parameters.
pub open spec fn spec_params_type(q: QueryMethodIR) -> Seq<char> {
    let ps = q.parameters@;
    if ps.len() == 0 {
        Seq::empty()
    } else {
        "params: { "@ + seq_join(Seq::new(ps.len(), |k: int| ps[k].name@ + ": "@ + spec_param_ts(ps[k].typ)), ", "@)
            + " }"@
    }
}

/// The parameter list of a query handler.
pub open spec fn spec_param_args(q: QueryMethodIR) -> Seq<char> {
    if q.parameters@.len() == 0 {
        "ctx: ProjectionHandlerContext"@
    } else {
        "ctx: ProjectionHandlerContext, "@ + spec_params_type(q)
    }
}

/// The arguments of a point query: the tenant, then each parameter.
pub open spec fn spec_param_list(q: QueryMethodIR) -> Seq<char> {
    let ps = q.parameters@;
    if ps.len() == 0 {
        "ctx.tenant"@
    } else {
        "ctx.tenant, "@ + seq_join(Seq::new(ps.len(), |k: int| "params."@ + ps[k].name@), ", "@)
    }
}

/// The HTTP handler of one query of a projection.
pub open spec fn spec_query_handler(p: ProjectionIR, q: QueryMethodIR) -> Seq<char> {
    if q.is_range_query {
        HR_0@ + p.name@ + spec_pascal_case(q.name@) + HR_1@ + spec_param_args(q) + HR_2@ + spec_snake_case(p.name@) + HR_3@
    } else {
        HP_0@ + p.name@ + spec_pascal_case(q.name@) + HP_1@ + spec_param_args(q) + HP_2@ + spec_snake_case(p.name@) + HP_3@ + spec_where_clause(q) + HP_4@ + spec_param_list(q) + HP_5@
    }
}

/// The handlers module of a projection: the database helper, then one handler
/// per query.
pub open spec fn spec_projection_handlers(p: ProjectionIR) -> Seq<char> {
    HH_0@ + p.name@ + HH_1@ + spec_snake_case(p.name@) + HH_2@ + seq_flatten(Seq::new(p.queries@.len(), |k: int| spec_query_handler(p, p.queries@[k])))
}

fn params_type(q: &QueryMethodIR) -> (r: String)
    ensures
        r@ == spec_params_type(*q),
{
    if q.parameters.len() == 0 {
        return String::new();
    }
    let ghost ps = q.parameters@;
    let ghost f = |k: int| ps[k].name@ + ": "@ + spec_param_ts(ps[k].typ);
    let mut parts: Vec<String> = Vec::new();
    let mut i: usize = 0;
    while i < q.parameters.len()
        invariant
            i <= q.parameters.len(),
            f == (|k: int| ps[k].name@ + ": "@ + spec_param_ts(ps[k].typ)),
            parts@.len() == i,
            forall|k: int| 0 <= k < i ==> #[trigger] parts@[k]@ == f(k),
            ps == q.parameters@,
        decreases q.parameters.len() - i,
    {
        let mut s = q.parameters[i].name.clone();
        s.append(": ");
        s.append(domain_type_to_ts(&q.parameters[i].typ));
        parts.push(s);
        i = i + 1;
    }
    proof {
        assert(views(parts@) =~= Seq::new(parts@.len(), f));
    }
    let fields = join(&parts, ", ");
    let mut out = crate::text::to_owned_string("params: { ");
    out.append(fields.as_str());
    out.append(" }");
    out
}

fn param_args(q: &QueryMethodIR) -> (r: String)
    ensures
        r@ == spec_param_args(*q),
{
    if q.parameters.len() == 0 {
        crate::text::to_owned_string("ctx: ProjectionHandlerContext")
    } else {
        let mut out = crate::text::to_owned_string("ctx: ProjectionHandlerContext, ");
        let t = params_type(q);
        out.append(t.as_str());
        out
    }
}

fn param_list(q: &QueryMethodIR) -> (r: String)
    ensures
        r@ == spec_param_list(*q),
{
    if q.parameters.len() == 0 {
        return crate::text::to_owned_string("ctx.tenant");
    }
    let ghost ps = q.parameters@;
    let ghost f = |k: int| "params."@ + ps[k].name@;
    let mut parts: Vec<String> = Vec::new();
    let mut i: usize = 0;
    while i < q.parameters.len()
        invariant
            i <= q.parameters.len(),
            f == (|k: int| "params."@ + ps[k].name@),
            parts@.len() == i,
            forall|k: int| 0 <= k < i ==> #[trigger] parts@[k]@ == f(k),
            ps == q.parameters@,
        decreases q.parameters.len() - i,
    {
        let mut s = crate::text::to_owned_string("params.");
        s.append(q.parameters[i].name.as_str());
        parts.push(s);
        i = i + 1;
    }
    proof {
        assert(views(parts@) =~= Seq::new(parts@.len(), f));
    }
    let values = join(&parts, ", ");
    let mut out = crate::text::to_owned_string("ctx.tenant, ");
    out.append(values.as_str());
    out
}

/// Generates the HTTP handler of one query.
pub fn generate_query_handler(projection: &ProjectionIR, query: &QueryMethodIR) -> (r: String)
    ensures
        r@ == spec_query_handler(*projection, *query),
{
    let p = projection;
    let q = query;
    let query_pascal = to_pascal_case(q.name.as_str());
    let snake = to_snake_case(p.name.as_str());
    let param_args = param_args(q);
    if q.is_range_query {
        let mut out = crate::text::to_owned_string(HR_0);
        out.append(p.name.as_str());
        out.append(query_pascal.as_str());
        out.append(HR_1);
        out.append(param_args.as_str());
        out.append(HR_2);
        out.append(snake.as_str());
        out.append(HR_3);
        out
    } else {
        let where_clause = where_clause(q);
        let param_list = param_list(q);
        let mut out = crate::text::to_owned_string(HP_0);
        out.append(p.name.as_str());
        out.append(query_pascal.as_str());
        out.append(HP_1);
        out.append(param_args.as_str());
        out.append(HP_2);
        out.append(snake.as_str());
        out.append(HP_3);
        out.append(where_clause.as_str());
        out.append(HP_4);
        out.append(param_list.as_str());
        out.append(HP_5);
        out
    }
}

/// Generates the HTTP handlers of a projection's queries.
pub fn generate_projection_handlers(projection: &ProjectionIR) -> (r: String)
    ensures
        r@ == spec_projection_handlers(*projection),
{
    let p = projection;
    let snake = to_snake_case(p.name.as_str());
    let mut out = crate::text::to_owned_string(HH_0);
    out.append(p.name.as_str());
    out.append(HH_1);
    out.append(snake.as_str());
    out.append(HH_2);
    let ghost f = |k: int| spec_query_handler(*p, p.queries@[k]);
    let ghost head = out@;
    let mut handlers = String::new();
    let mut i: usize = 0;
    while i < p.queries.len()
        invariant
            i <= p.queries@.len(),
            f == (|k: int| spec_query_handler(*p, p.queries@[k])),
            handlers@ == seq_flatten(Seq::new(i as nat, f)),
        decreases p.queries.len() - i,
    {
        let h = generate_query_handler(p, &p.queries[i]);
        handlers.append(h.as_str());
        proof {
            lemma_flatten_new_step(f, i as int);
        }
        i = i + 1;
    }
    out.append(handlers.as_str());
    out
}

// ---------------------------------------------------------------------------
// Manager
// ---------------------------------------------------------------------------

pub const MS_0: &'static str = "    // Start ";
pub const MS_1: &'static str = r#" worker
    const "#;
pub const MS_2: &'static str = r#"Worker = Bun.spawn({
        cmd: ['bun', 'run', './_generated/projections/"#;
pub const MS_3: &'static str = r#".worker.ts'],
        env: {
            ...process.env,
            TENANT: tenant,
            EVENT_DB_PATH: eventDbPath,
            PROJECTION_DATA_DIR: dataDir,
        },
        stdout: 'inherit',
        stderr: 'inherit',
    });
    workers.push({ name: '"#;
pub const MS_4: &'static str = "', proc: ";
pub const MS_5: &'static str = "Worker });";

pub const MM_0: &'static str = r#"/**
 * Projection Manager
 *
 * Starts and manages all projection workers as separate Bun processes.
 * Each projection runs in isolation for parallel processing.
 *
 * @generated by spitestack compiler
 */

export interface ProjectionManagerConfig {
    tenant: string;
    eventDbPath: string;
    dataDir?: string;
}

interface WorkerHandle {
    name: string;
    proc: ReturnType<typeof Bun.spawn>;
}

const workers: WorkerHandle[] = [];

export function startProjections(config: ProjectionManagerConfig): void {
    const { tenant, eventDbPath, dataDir = './data/projections' } = config;

    console.log('[ProjectionManager] Starting projection workers...');

"#;
pub const MM_1: &'static str = r#"

    console.log(`[ProjectionManager] Started ${workers.length} projection workers`);
}

export function stopProjections(): void {
    console.log('[ProjectionManager] Stopping projection workers...');

    for (const worker of workers) {
        console.log(`[ProjectionManager] Stopping ${worker.name}...`);
        worker.proc.kill();
    }

    workers.length = 0;
    console.log('[ProjectionManager] All workers stopped');
}

// Handle graceful shutdown
process.on('SIGTERM', stopProjections);
process.on('SIGINT', stopProjections);
"#;

/// The code that spawns the worker of one projection.
pub open spec fn spec_manager_spawn(p: ProjectionIR) -> Seq<char> {
    MS_0@ + p.name@ + MS_1@ + spec_snake_case(p.name@) + MS_2@ + spec_snake_case(p.name@) + MS_3@ + p.name@ + MS_4@ + spec_snake_case(p.name@) + MS_5@
}

/// The spawn code of every projection, separated by blank lines.
pub open spec fn spec_manager_spawns(d: DomainIR) -> Seq<char> {
    seq_join(Seq::new(d.projections@.len(), |k: int| spec_manager_spawn(d.projections@[k])), "\n\n"@)
}

/// The module that starts and stops all projection workers.
pub open spec fn spec_projection_manager(d: DomainIR) -> Seq<char> {
    MM_0@ + spec_manager_spawns(d) + MM_1@
}

fn manager_spawn(p: &ProjectionIR) -> (r: String)
    ensures
        r@ == spec_manager_spawn(*p),
{
    let snake = to_snake_case(p.name.as_str());
    let mut out = crate::text::to_owned_string(MS_0);
    out.append(p.name.as_str());
    out.append(MS_1);
    out.append(snake.as_str());
    out.append(MS_2);
    out.append(snake.as_str());
    out.append(MS_3);
    out.append(p.name.as_str());
    out.append(MS_4);
    out.append(snake.as_str());
    out.append(MS_5);
    out
}

/// Generates the projection manager module.
pub fn generate_projection_manager(domain: &DomainIR) -> (r: String)
    ensures
        r@ == spec_projection_manager(*domain),
{
    let d = domain;
    let ghost f = |k: int| spec_manager_spawn(d.projections@[k]);
    let mut parts: Vec<String> = Vec::new();
    let mut i: usize = 0;
    while i < d.projections.len()
        invariant
            i <= d.projections.len(),
            f == (|k: int| spec_manager_spawn(d.projections@[k])),
            parts@.len() == i,
            forall|k: int| 0 <= k < i ==> #[trigger] parts@[k]@ == f(k),
        decreases d.projections.len() - i,
    {
        let s = manager_spawn(&d.projections[i]);
        parts.push(s);
        i = i + 1;
    }
    proof {
        assert(views(parts@) =~= Seq::new(parts@.len(), f));
    }
    let joined = join(&parts, "\n\n");
    let spawns = joined;
    let mut out = crate::text::to_owned_string(MM_0);
    out.append(spawns.as_str());
    out.append(MM_1);
    out
}

// ---------------------------------------------------------------------------
// All projection files
// ---------------------------------------------------------------------------

/// The files generated for a projection: its worker, its handlers and its SQL
/// schema, each with its path.
pub open spec fn spec_projection_files(p: ProjectionIR, dip: Seq<char>) -> Seq<(Seq<char>, Seq<char>)> {
    let snake = spec_snake_case(p.name@);
    seq![
        ("projections/"@ + snake + ".worker.ts"@, spec_projection_worker(p, dip)),
        ("handlers/"@ + snake + ".projection.ts"@, spec_projection_handlers(p)),
        ("schemas/"@ + snake + ".sql"@, spec_projection_schema(p)),
    ]
}

/// The views of a list of (path, content) files.
pub open spec fn file_views(fs: Seq<(String, String)>) -> Seq<(Seq<char>, Seq<char>)> {
    fs.map_values(|f: (String, String)| (f.0@, f.1@))
}

/// All projection files of a domain: three per projection, in order, then the
/// manager when there is at least one projection.
pub open spec fn spec_projections(d: DomainIR, dip: Seq<char>) -> Seq<(Seq<char>, Seq<char>)> {
    let n = d.projections@.len();
    let per = Seq::new(n, |k: int| spec_projection_files(d.projections@[k], dip)).flatten();
    if n == 0 {
        per
    } else {
        per.push(("projections/manager.ts"@, spec_projection_manager(d)))
    }
}

fn push_projection_files(files: &mut Vec<(String, String)>, p: &ProjectionIR, domain_import_path: &str)
    ensures
        file_views(final(files)@) == file_views(old(files)@) + spec_projection_files(*p, domain_import_path@),
{
    let snake = to_snake_case(p.name.as_str());
    let mut worker_path = crate::text::to_owned_string("projections/");
    worker_path.append(snake.as_str());
    worker_path.append(".worker.ts");
    let mut handler_path = crate::text::to_owned_string("handlers/");
    handler_path.append(snake.as_str());
    handler_path.append(".projection.ts");
    let mut schema_path = crate::text::to_owned_string("schemas/");
    schema_path.append(snake.as_str());
    schema_path.append(".sql");
    let worker = generate_projection_worker(p, domain_import_path);
    let handlers = generate_projection_handlers(p);
    let schema = generate_projection_schema(p);
    files.push((worker_path, worker));
    files.push((handler_path, handlers));
    files.push((schema_path, schema));
    proof {
        assert(file_views(files@) =~= file_views(old(files)@) + spec_projection_files(*p, domain_import_path@));
    }
}

/// Generates all projection files of a domain.
#[verifier::rlimit(50)]
pub fn generate_projections(domain: &DomainIR, domain_import_path: &str) -> (r: Vec<(String, String)>)
    ensures
        file_views(r@) == spec_projections(*domain, domain_import_path@),
{
    let d = domain;
    let ghost f = |k: int| spec_projection_files(d.projections@[k], domain_import_path@);
    let mut files: Vec<(String, String)> = Vec::new();
    let mut i: usize = 0;
    while i < d.projections.len()
        invariant
            i <= d.projections@.len(),
            f == (|k: int| spec_projection_files(d.projections@[k], domain_import_path@)),
            file_views(files@) == Seq::new(i as nat, f).flatten(),
        decreases d.projections.len() - i,
    {
        push_projection_files(&mut files, &d.projections[i], domain_import_path);
        proof {
            let prev = Seq::new(i as nat, f);
            prev.lemma_flatten_push(f(i as int));
            assert(Seq::new((i + 1) as nat, f) =~= prev.push(f(i as int)));
        }
        i = i + 1;
    }
    if d.projections.len() > 0 {
        let manager = generate_projection_manager(d);
        let ghost before = files@;
        files.push((crate::text::to_owned_string("projections/manager.ts"), manager));
        proof {
            assert(file_views(files@) =~= file_views(before).push(("projections/manager.ts"@, spec_projection_manager(*d))));
        }
    }
    proof {
        assert(Seq::new(d.projections@.len(), f) =~= Seq::new(
            d.projections@.len(),
            |k: int| spec_projection_files(d.projections@[k], domain_import_path@),
        ));
    }
    files
}

} // verus!
