//! TypeScript code generation for orchestrators.

use vstd::prelude::*;

use crate::codegen::ts_types::{spec_snake_case, spec_ts_type, to_snake_case, to_ts_type};
use crate::ir::ParameterIR;
use crate::ir::orchestrator::{OrchestratorDependency, OrchestratorIR};
use crate::text::{lemma_flatten_new_step, seq_flatten};

verus! {

pub const ORCH_S0_0: &'static str = r#"import type { SpiteDbNapi, TelemetryDbNapi } from '@spitestack/db';
import { emitTelemetry, finishSpan, logError, metricCounter, metricHistogram, startSpan } from '../runtime/telemetry';
"#;
pub const ORCH_S1_0: &'static str = r#"
export type "#;
pub const ORCH_S1_1: &'static str = r#" = {
"#;
pub const ORCH_S2_0: &'static str = r#"};

export type "#;
pub const ORCH_S2_1: &'static str = r#" = {
  success: boolean;
  error?: string;
};

export type OrchestratorContext = {
  db: SpiteDbNapi;
  telemetry: TelemetryDbNapi;
  tenant: string;
};

export async function "#;
pub const ORCH_S2_2: &'static str = r#"(
  ctx: OrchestratorContext,
  input: "#;
pub const ORCH_S2_3: &'static str = r#",
  traceId?: string,
  parentSpanId?: string
): Promise<"#;
pub const ORCH_S2_4: &'static str = r#"> {
  const resolvedTraceId = traceId ?? crypto.randomUUID();
  const span = startSpan(ctx.tenant, resolvedTraceId, 'orchestrator."#;
pub const ORCH_S2_5: &'static str = "', parentSpanId, { orchestrator: '";
pub const ORCH_S2_6: &'static str = r#"' });
  const startMs = Date.now();
  const records = [];

  const finalize = (result: "#;
pub const ORCH_S2_7: &'static str = r#", status: 'Ok' | 'Error', err?: unknown) => {
    const endMs = Date.now();
    records.push(
      finishSpan(span, status, endMs, {
        orchestrator: '"#;
pub const ORCH_S2_8: &'static str = r#"',
        duration_ms: Math.max(0, endMs - startMs),
      })
    );
    records.push(
      metricCounter(ctx.tenant, 'orchestrator.invocations', 1, {
        orchestrator: '"#;
pub const ORCH_S2_9: &'static str = r#"',
        status,
      }, resolvedTraceId, span.spanId, span.commandId)
    );
    records.push(
      metricHistogram(ctx.tenant, 'orchestrator.duration_ms', Math.max(0, endMs - startMs), {
        orchestrator: '"#;
pub const ORCH_S2_10: &'static str = r#"',
        status,
      }, resolvedTraceId, span.spanId, span.commandId)
    );
    if (err) {
      const message = err instanceof Error ? err.message : 'orchestrator failed';
      records.push(logError(ctx.tenant, message, { orchestrator: '"#;
pub const ORCH_S2_11: &'static str = r#"' }, resolvedTraceId, span.spanId, span.commandId));
    }
    emitTelemetry(ctx.telemetry, records);
    return result;
  };

  try {
    // Load aggregates
"#;
pub const ORCH_S3_0: &'static str = r#"    // Execute orchestrated workflow
    // TODO: Add workflow logic based on orchestrator body

    // Persist all changes
    const commandId = crypto.randomUUID();
    span.commandId = commandId;
    let totalEvents = 0;
    let totalBytes = 0;
"#;
pub const ORCH_S4_0: &'static str = r#"    if (totalEvents > 0) {
      records.push(metricCounter(ctx.tenant, 'events.appended', totalEvents, {
        orchestrator: '"#;
pub const ORCH_S4_1: &'static str = r#"',
      }, resolvedTraceId, span.spanId, commandId));
      records.push(metricHistogram(ctx.tenant, 'events.payload_bytes', totalBytes, {
        orchestrator: '"#;
pub const ORCH_S4_2: &'static str = r#"',
      }, resolvedTraceId, span.spanId, commandId));
    }
    return finalize({ success: true }, 'Ok');
  } catch (err) {
    return finalize({ success: false, error: (err as Error).message }, 'Error', err);
  }
}
"#;
pub const ORCH_L0_0: &'static str = "import { ";
pub const ORCH_L0_1: &'static str = "Aggregate } from '../aggregates/";
pub const ORCH_L0_2: &'static str = r#".aggregate';
import type { "#;
pub const ORCH_L0_3: &'static str = "Event } from '../events/";
pub const ORCH_L0_4: &'static str = r#".events';
"#;
pub const ORCH_L1_0: &'static str = "  ";
pub const ORCH_L1_1: &'static str = ": ";
pub const ORCH_L1_2: &'static str = r#";
"#;
pub const ORCH_L2_0: &'static str = "    const ";
pub const ORCH_L2_1: &'static str = "Events = await ctx.db.readStream(";
pub const ORCH_L2_2: &'static str = r#", 0, 10000, ctx.tenant);
    const "#;
pub const ORCH_L2_3: &'static str = " = ";
pub const ORCH_L2_4: &'static str = r#"Aggregate.create(
      "#;
pub const ORCH_L2_5: &'static str = "Events.map(e => JSON.parse(e.data.toString()) as ";
pub const ORCH_L2_6: &'static str = r#"Event)
    );
    const "#;
pub const ORCH_L2_7: &'static str = "Rev = ";
pub const ORCH_L2_8: &'static str = "Events.length > 0 ? ";
pub const ORCH_L2_9: &'static str = "Events[";
pub const ORCH_L2_10: &'static str = r#"Events.length - 1].streamRev : 0;

"#;
pub const ORCH_L3_0: &'static str = "    const ";
pub const ORCH_L3_1: &'static str = "NewEvents = ";
pub const ORCH_L3_2: &'static str = r#".getPendingEvents();
    if ("#;
pub const ORCH_L3_3: &'static str = r#"NewEvents.length > 0) {
      const "#;
pub const ORCH_L3_4: &'static str = "Buffers = ";
pub const ORCH_L3_5: &'static str = r#"NewEvents.map(e => Buffer.from(JSON.stringify(e)));
      totalEvents += "#;
pub const ORCH_L3_6: &'static str = r#"NewEvents.length;
      totalBytes += "#;
pub const ORCH_L3_7: &'static str = r#"Buffers.reduce((sum, buf) => sum + buf.byteLength, 0);
      await ctx.db.append("#;
pub const ORCH_L3_8: &'static str = ", commandId, ";
pub const ORCH_L3_9: &'static str = "Rev, ";
pub const ORCH_L3_10: &'static str = r#"Buffers, ctx.tenant);
    }

"#;

/// Imports of a dependency aggregate and its event type.
pub open spec fn spec_orch_dep_import(d: OrchestratorDependency) -> Seq<char> {
    ORCH_L0_0@ + d.typ@ + ORCH_L0_1@ + spec_snake_case(d.typ@) + ORCH_L0_2@ + d.typ@ + ORCH_L0_3@ + spec_snake_case(d.typ@) + ORCH_L0_4@
}

/// Field of the input type for a parameter.
pub open spec fn spec_orch_param_field(p: ParameterIR) -> Seq<char> {
    ORCH_L1_0@ + p.name@ + ORCH_L1_1@ + spec_ts_type(p.typ) + ORCH_L1_2@
}

/// Loading of a dependency aggregate from its stream.
pub open spec fn spec_orch_dep_load(d: OrchestratorDependency) -> Seq<char> {
    ORCH_L2_0@ + spec_snake_case(d.name@) + ORCH_L2_1@ + ("input."@ + spec_snake_case(d.name@) + "StreamId"@) + ORCH_L2_2@ + spec_snake_case(d.name@) + ORCH_L2_3@ + d.typ@ + ORCH_L2_4@ + spec_snake_case(d.name@) + ORCH_L2_5@ + d.typ@ + ORCH_L2_6@ + spec_snake_case(d.name@) + ORCH_L2_7@ + spec_snake_case(d.name@) + ORCH_L2_8@ + spec_snake_case(d.name@) + ORCH_L2_9@ + spec_snake_case(d.name@) + ORCH_L2_10@
}

/// Persisting the pending events of a dependency aggregate.
pub open spec fn spec_orch_dep_persist(d: OrchestratorDependency) -> Seq<char> {
    ORCH_L3_0@ + spec_snake_case(d.name@) + ORCH_L3_1@ + spec_snake_case(d.name@) + ORCH_L3_2@ + spec_snake_case(d.name@) + ORCH_L3_3@ + spec_snake_case(d.name@) + ORCH_L3_4@ + spec_snake_case(d.name@) + ORCH_L3_5@ + spec_snake_case(d.name@) + ORCH_L3_6@ + spec_snake_case(d.name@) + ORCH_L3_7@ + ("input."@ + spec_snake_case(d.name@) + "StreamId"@) + ORCH_L3_8@ + spec_snake_case(d.name@) + ORCH_L3_9@ + spec_snake_case(d.name@) + ORCH_L3_10@
}

/// The TypeScript module of an orchestrator: imports, input and result types,
/// the context type, and the function that loads the dependency aggregates,
/// persists their pending events and reports telemetry.
pub open spec fn spec_generate_orchestrator(o: OrchestratorIR) -> Seq<char> {
    let deps = o.dependencies@;
    let params = o.parameters@;
    let imports = seq_flatten(Seq::new(deps.len(), |k: int| spec_orch_dep_import(deps[k])));
    let fields = seq_flatten(Seq::new(params.len(), |k: int| spec_orch_param_field(params[k])));
    let loads = seq_flatten(Seq::new(deps.len(), |k: int| spec_orch_dep_load(deps[k])));
    let persists = seq_flatten(Seq::new(deps.len(), |k: int| spec_orch_dep_persist(deps[k])));
    ORCH_S0_0@ + imports + ORCH_S1_0@ + (o.name@ + "Input"@) + ORCH_S1_1@ + fields + ORCH_S2_0@ + (o.name@ + "Result"@) + ORCH_S2_1@ + ("execute"@ + o.name@) + ORCH_S2_2@ + (o.name@ + "Input"@) + ORCH_S2_3@ + (o.name@ + "Result"@) + ORCH_S2_4@ + o.name@ + ORCH_S2_5@ + o.name@ + ORCH_S2_6@ + (o.name@ + "Result"@) + ORCH_S2_7@ + o.name@ + ORCH_S2_8@ + o.name@ + ORCH_S2_9@ + o.name@ + ORCH_S2_10@ + o.name@ + ORCH_S2_11@ + loads + ORCH_S3_0@ + persists + ORCH_S4_0@ + o.name@ + ORCH_S4_1@ + o.name@ + ORCH_S4_2@
}


fn orch_dep_import(d: &OrchestratorDependency) -> (out: String)
    ensures
        out@ == spec_orch_dep_import(*d),
{
    let snake = to_snake_case(d.typ.as_str());
    let mut out = String::new();
    out.append(ORCH_L0_0);
    out.append(d.typ.as_str());
    out.append(ORCH_L0_1);
    out.append(snake.as_str());
    out.append(ORCH_L0_2);
    out.append(d.typ.as_str());
    out.append(ORCH_L0_3);
    out.append(snake.as_str());
    out.append(ORCH_L0_4);
    out
}

fn orch_dep_imports(o: &OrchestratorIR) -> (out: String)
    ensures
        out@ == seq_flatten(Seq::new(o.dependencies@.len(), |k: int| spec_orch_dep_import(o.dependencies@[k]))),
{
    let ghost f = |k: int| spec_orch_dep_import(o.dependencies@[k]);
    let mut out = String::new();
    let mut i: usize = 0;
    while i < o.dependencies.len()
        invariant
            i <= o.dependencies@.len(),
            f == (|k: int| spec_orch_dep_import(o.dependencies@[k])),
            out@ == seq_flatten(Seq::new(i as nat, f)),
        decreases o.dependencies.len() - i,
    {
        let piece = orch_dep_import(&o.dependencies[i]);
        out.append(piece.as_str());
        proof {
            lemma_flatten_new_step(f, i as int);
        }
        i = i + 1;
    }
    out
}

fn orch_param_field(p: &ParameterIR) -> (out: String)
    ensures
        out@ == spec_orch_param_field(*p),
{
    let pts = to_ts_type(&p.typ);
    let mut out = String::new();
    out.append(ORCH_L1_0);
    out.append(p.name.as_str());
    out.append(ORCH_L1_1);
    out.append(pts.as_str());
    out.append(ORCH_L1_2);
    out
}

fn orch_param_fields(o: &OrchestratorIR) -> (out: String)
    ensures
        out@ == seq_flatten(Seq::new(o.parameters@.len(), |k: int| spec_orch_param_field(o.parameters@[k]))),
{
    let ghost f = |k: int| spec_orch_param_field(o.parameters@[k]);
    let mut out = String::new();
    let mut i: usize = 0;
    while i < o.parameters.len()
        invariant
            i <= o.parameters@.len(),
            f == (|k: int| spec_orch_param_field(o.parameters@[k])),
            out@ == seq_flatten(Seq::new(i as nat, f)),
        decreases o.parameters.len() - i,
    {
        let piece = orch_param_field(&o.parameters[i]);
        out.append(piece.as_str());
        proof {
            lemma_flatten_new_step(f, i as int);
        }
        i = i + 1;
    }
    out
}

fn orch_dep_load(d: &OrchestratorDependency) -> (out: String)
    ensures
        out@ == spec_orch_dep_load(*d),
{
    let var = to_snake_case(d.name.as_str());
    let mut sid = crate::text::to_owned_string("input.");
    sid.append(var.as_str());
    sid.append("StreamId");
    let mut out = String::new();
    out.append(ORCH_L2_0);
    out.append(var.as_str());
    out.append(ORCH_L2_1);
    out.append(sid.as_str());
    out.append(ORCH_L2_2);
    out.append(var.as_str());
    out.append(ORCH_L2_3);
    out.append(d.typ.as_str());
    out.append(ORCH_L2_4);
    out.append(var.as_str());
    out.append(ORCH_L2_5);
    out.append(d.typ.as_str());
    out.append(ORCH_L2_6);
    out.append(var.as_str());
    out.append(ORCH_L2_7);
    out.append(var.as_str());
    out.append(ORCH_L2_8);
    out.append(var.as_str());
    out.append(ORCH_L2_9);
    out.append(var.as_str());
    out.append(ORCH_L2_10);
    out
}

fn orch_dep_loads(o: &OrchestratorIR) -> (out: String)
    ensures
        out@ == seq_flatten(Seq::new(o.dependencies@.len(), |k: int| spec_orch_dep_load(o.dependencies@[k]))),
{
    let ghost f = |k: int| spec_orch_dep_load(o.dependencies@[k]);
    let mut out = String::new();
    let mut i: usize = 0;
    while i < o.dependencies.len()
        invariant
            i <= o.dependencies@.len(),
            f == (|k: int| spec_orch_dep_load(o.dependencies@[k])),
            out@ == seq_flatten(Seq::new(i as nat, f)),
        decreases o.dependencies.len() - i,
    {
        let piece = orch_dep_load(&o.dependencies[i]);
        out.append(piece.as_str());
        proof {
            lemma_flatten_new_step(f, i as int);
        }
        i = i + 1;
    }
    out
}

fn orch_dep_persist(d: &OrchestratorDependency) -> (out: String)
    ensures
        out@ == spec_orch_dep_persist(*d),
{
    let var = to_snake_case(d.name.as_str());
    let mut sid = crate::text::to_owned_string("input.");
    sid.append(var.as_str());
    sid.append("StreamId");
    let mut out = String::new();
    out.append(ORCH_L3_0);
    out.append(var.as_str());
    out.append(ORCH_L3_1);
    out.append(var.as_str());
    out.append(ORCH_L3_2);
    out.append(var.as_str());
    out.append(ORCH_L3_3);
    out.append(var.as_str());
    out.append(ORCH_L3_4);
    out.append(var.as_str());
    out.append(ORCH_L3_5);
    out.append(var.as_str());
    out.append(ORCH_L3_6);
    out.append(var.as_str());
    out.append(ORCH_L3_7);
    out.append(sid.as_str());
    out.append(ORCH_L3_8);
    out.append(var.as_str());
    out.append(ORCH_L3_9);
    out.append(var.as_str());
    out.append(ORCH_L3_10);
    out
}

fn orch_dep_persists(o: &OrchestratorIR) -> (out: String)
    ensures
        out@ == seq_flatten(Seq::new(o.dependencies@.len(), |k: int| spec_orch_dep_persist(o.dependencies@[k]))),
{
    let ghost f = |k: int| spec_orch_dep_persist(o.dependencies@[k]);
    let mut out = String::new();
    let mut i: usize = 0;
    while i < o.dependencies.len()
        invariant
            i <= o.dependencies@.len(),
            f == (|k: int| spec_orch_dep_persist(o.dependencies@[k])),
            out@ == seq_flatten(Seq::new(i as nat, f)),
        decreases o.dependencies.len() - i,
    {
        let piece = orch_dep_persist(&o.dependencies[i]);
        out.append(piece.as_str());
        proof {
            lemma_flatten_new_step(f, i as int);
        }
        i = i + 1;
    }
    out
}

/// Generates the TypeScript module of an orchestrator.
pub fn generate_orchestrator(orchestrator: &OrchestratorIR) -> (r: String)
    ensures
        r@ == spec_generate_orchestrator(*orchestrator),
{
    let mut fn_name = crate::text::to_owned_string("execute");
    fn_name.append(orchestrator.name.as_str());
    let mut input_type = orchestrator.name.clone();
    input_type.append("Input");
    let mut result_type = orchestrator.name.clone();
    result_type.append("Result");
    let imports = orch_dep_imports(orchestrator);
    let fields = orch_param_fields(orchestrator);
    let loads = orch_dep_loads(orchestrator);
    let persists = orch_dep_persists(orchestrator);
    let mut out = String::new();
    out.append(ORCH_S0_0);
    out.append(imports.as_str());
    out.append(ORCH_S1_0);
    out.append(input_type.as_str());
    out.append(ORCH_S1_1);
    out.append(fields.as_str());
    out.append(ORCH_S2_0);
    out.append(result_type.as_str());
    out.append(ORCH_S2_1);
    out.append(fn_name.as_str());
    out.append(ORCH_S2_2);
    out.append(input_type.as_str());
    out.append(ORCH_S2_3);
    out.append(result_type.as_str());
    out.append(ORCH_S2_4);
    out.append(orchestrator.name.as_str());
    out.append(ORCH_S2_5);
    out.append(orchestrator.name.as_str());
    out.append(ORCH_S2_6);
    out.append(result_type.as_str());
    out.append(ORCH_S2_7);
    out.append(orchestrator.name.as_str());
    out.append(ORCH_S2_8);
    out.append(orchestrator.name.as_str());
    out.append(ORCH_S2_9);
    out.append(orchestrator.name.as_str());
    out.append(ORCH_S2_10);
    out.append(orchestrator.name.as_str());
    out.append(ORCH_S2_11);
    out.append(loads.as_str());
    out.append(ORCH_S3_0);
    out.append(persists.as_str());
    out.append(ORCH_S4_0);
    out.append(orchestrator.name.as_str());
    out.append(ORCH_S4_1);
    out.append(orchestrator.name.as_str());
    out.append(ORCH_S4_2);
    out
}

} // verus!
