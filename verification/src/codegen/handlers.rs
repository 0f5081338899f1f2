//! Generation of the HTTP handlers that wire an aggregate to the event store,
//! with validation and telemetry.

use vstd::prelude::*;

use crate::codegen::ts_types::{spec_pascal_case, spec_snake_case, to_pascal_case, to_snake_case};
use crate::ir::aggregate::{AggregateIR, CommandIR};
use crate::text::{lemma_flatten_new_step, lemma_join_new_step, seq_flatten, seq_join};

verus! {

pub const HD_IMPORTS_0: &'static str = r#"import type { SpiteDbNapi, TelemetryDbNapi, TelemetryRecordNapi } from '@spitestack/db';
import { "#;
pub const HD_IMPORTS_1: &'static str = "Aggregate } from '";
pub const HD_IMPORTS_2: &'static str = "/";
pub const HD_IMPORTS_3: &'static str = r#"/aggregate';
import type { "#;
pub const HD_IMPORTS_4: &'static str = "Event } from '";
pub const HD_IMPORTS_5: &'static str = "/";
pub const HD_IMPORTS_6: &'static str = r#"/events';
import { emitTelemetry, finishSpan, logError, logWarn, metricCounter, metricHistogram, startSpan } from '../runtime/telemetry';
"#;

pub const HD_GET_0: &'static str = r#"
export async function handle"#;
pub const HD_GET_1: &'static str = r#"Get(
  ctx: HandlerContext,
  streamId: string,
  traceId?: string,
  parentSpanId?: string
): Promise<Response> {
  const resolvedTraceId = traceId ?? crypto.randomUUID();
  const span = startSpan(ctx.tenant, resolvedTraceId, 'query."#;
pub const HD_GET_2: &'static str = r#".get', parentSpanId, {
    streamId,
  });
  const startMs = Date.now();
  const records: TelemetryRecordNapi[] = [];

  const finalize = (response: Response, status: 'Ok' | 'Error', err?: unknown) => {
    const endMs = Date.now();
    records.push(
      finishSpan(span, status, endMs, {
        status: response.status,
        duration_ms: Math.max(0, endMs - startMs),
      })
    );
    records.push(
      metricCounter(ctx.tenant, 'query.invocations', 1, {
        aggregate: '"#;
pub const HD_GET_3: &'static str = r#"',
        status: response.status,
      }, resolvedTraceId, span.spanId)
    );
    records.push(
      metricHistogram(ctx.tenant, 'query.duration_ms', Math.max(0, endMs - startMs), {
        aggregate: '"#;
pub const HD_GET_4: &'static str = r#"',
        status: response.status,
      }, resolvedTraceId, span.spanId)
    );
    if (err || response.status >= 500) {
      const message = err instanceof Error ? err.message : 'query failed';
      records.push(logError(ctx.tenant, message, { aggregate: '"#;
pub const HD_GET_5: &'static str = r#"', streamId }, resolvedTraceId, span.spanId));
    }
    emitTelemetry(ctx.telemetry, records);
    return response;
  };

  try {
    const storedEvents = await ctx.db.readStream(streamId, 0, 10000, ctx.tenant);
    const aggregate = new "#;
pub const HD_GET_6: &'static str = r#"Aggregate();
    for (const e of storedEvents) {
      aggregate.apply(JSON.parse(e.data.toString()) as "#;
pub const HD_GET_7: &'static str = r#"Event);
    }

    const response = new Response(JSON.stringify({
      streamId,
      state: aggregate.currentState,
    }), {
      status: 200,
      headers: { 'Content-Type': 'application/json' },
    });
    return finalize(response, 'Ok');
  } catch (err) {
    const response = new Response(JSON.stringify({ error: (err as Error).message }), {
      status: 500,
      headers: { 'Content-Type': 'application/json' },
    });
    return finalize(response, 'Error', err);
  }
}
"#;

pub const HD_CMD_0: &'static str = r#"
export async function handle"#;
pub const HD_CMD_1: &'static str = r#"(
  ctx: HandlerContext,
  streamId: string,
  body: unknown,
  traceId?: string,
  parentSpanId?: string
): Promise<Response> {
  const resolvedTraceId = traceId ?? crypto.randomUUID();
  const span = startSpan(ctx.tenant, resolvedTraceId, 'command."#;
pub const HD_CMD_2: &'static str = ".";
pub const HD_CMD_3: &'static str = r#"', parentSpanId, {
    streamId,
    command: '"#;
pub const HD_CMD_4: &'static str = r#"',
  });
  const startMs = Date.now();
  const records: TelemetryRecordNapi[] = [];
  const finalize = (response: Response, status: 'Ok' | 'Error', err?: unknown) => {
    const endMs = Date.now();
    records.push(
      finishSpan(span, status, endMs, {
        status: response.status,
        duration_ms: Math.max(0, endMs - startMs),
      })
    );
    records.push(
      metricCounter(ctx.tenant, 'command.invocations', 1, {
        aggregate: '"#;
pub const HD_CMD_5: &'static str = r#"',
        command: '"#;
pub const HD_CMD_6: &'static str = r#"',
        status: response.status,
      }, resolvedTraceId, span.spanId, span.commandId)
    );
    records.push(
      metricHistogram(ctx.tenant, 'command.duration_ms', Math.max(0, endMs - startMs), {
        aggregate: '"#;
pub const HD_CMD_7: &'static str = r#"',
        command: '"#;
pub const HD_CMD_8: &'static str = r#"',
        status: response.status,
      }, resolvedTraceId, span.spanId, span.commandId)
    );
    if (err || response.status >= 500) {
      const message = err instanceof Error ? err.message : 'command failed';
      records.push(logError(ctx.tenant, message, { aggregate: '"#;
pub const HD_CMD_9: &'static str = "', command: '";
pub const HD_CMD_10: &'static str = r#"', streamId }, resolvedTraceId, span.spanId, span.commandId));
    }
    emitTelemetry(ctx.telemetry, records);
    return response;
  };

  const validation = validate"#;
pub const HD_CMD_11: &'static str = r#"Input(body);
  if (!validation.ok) {
    const response = new Response(JSON.stringify({ errors: validation.errors }), {
      status: 400,
      headers: { 'Content-Type': 'application/json' },
    });
    records.push(logWarn(ctx.tenant, 'validation failed', { aggregate: '"#;
pub const HD_CMD_12: &'static str = "', command: '";
pub const HD_CMD_13: &'static str = r#"' }, resolvedTraceId, span.spanId));
    return finalize(response, 'Error');
  }
  const input = validation.value;

  try {
    const storedEvents = await ctx.db.readStream(streamId, 0, 10000, ctx.tenant);
    const aggregate = new "#;
pub const HD_CMD_14: &'static str = r#"Aggregate();
    for (const e of storedEvents) {
      aggregate.apply(JSON.parse(e.data.toString()) as "#;
pub const HD_CMD_15: &'static str = r#"Event);
    }
    const currentRev = storedEvents.length > 0 ? storedEvents[storedEvents.length - 1].streamRev : 0;

    try {
      "#;
pub const HD_CMD_16: &'static str = r#"
    } catch (err) {
      const response = new Response(JSON.stringify({ error: (err as Error).message }), {
        status: 400,
        headers: { 'Content-Type': 'application/json' },
      });
      records.push(logWarn(ctx.tenant, 'command rejected', { aggregate: '"#;
pub const HD_CMD_17: &'static str = "', command: '";
pub const HD_CMD_18: &'static str = r#"' }, resolvedTraceId, span.spanId));
      return finalize(response, 'Error', err);
    }

    const newEvents = aggregate.events;
    if (newEvents.length > 0) {
      const eventBuffers = newEvents.map(e => Buffer.from(JSON.stringify(e)));
      const commandId = crypto.randomUUID();
      span.commandId = commandId;
      const payloadBytes = eventBuffers.reduce((sum, buf) => sum + buf.byteLength, 0);
      try {
        await ctx.db.append(streamId, commandId, currentRev, eventBuffers, ctx.tenant);
        records.push(
          metricCounter(ctx.tenant, 'events.appended', newEvents.length, {
            aggregate: '"#;
pub const HD_CMD_19: &'static str = r#"',
            command: '"#;
pub const HD_CMD_20: &'static str = r#"',
            streamId,
          }, resolvedTraceId, span.spanId, commandId)
        );
        records.push(
          metricHistogram(ctx.tenant, 'events.payload_bytes', payloadBytes, {
            aggregate: '"#;
pub const HD_CMD_21: &'static str = r#"',
            command: '"#;
pub const HD_CMD_22: &'static str = r#"',
            streamId,
          }, resolvedTraceId, span.spanId, commandId)
        );
      } catch (err) {
        const response = new Response(JSON.stringify({ error: (err as Error).message }), {
          status: 500,
          headers: { 'Content-Type': 'application/json' },
        });
        return finalize(response, 'Error', err);
      }
    }

    const response = new Response(JSON.stringify({
      streamId,
      events: newEvents,
      state: aggregate.currentState,
    }), {
      status: 200,
      headers: { 'Content-Type': 'application/json' },
    });
    return finalize(response, 'Ok');
  } catch (err) {
    const response = new Response(JSON.stringify({ error: (err as Error).message }), {
      status: 500,
      headers: { 'Content-Type': 'application/json' },
    });
    return finalize(response, 'Error', err);
  }
}
"#;

pub const HD_CONTEXT: &'static str = r#"
export type HandlerContext = {
  db: SpiteDbNapi;
  telemetry: TelemetryDbNapi;
  tenant: string;
};
"#;

/// The call of a command on the loaded aggregate: `aggregate.cmd(input.p1, ...);`.
pub open spec fn spec_command_call(c: CommandIR) -> Seq<char> {
    if c.parameters@.len() == 0 {
        "aggregate."@ + c.name@ + "();"@
    } else {
        "aggregate."@ + c.name@ + "("@
            + seq_join(Seq::new(c.parameters@.len(), |k: int| "input."@ + c.parameters@[k].name@), ", "@) + ");"@
    }
}

/// The imports of the handler module.
pub open spec fn spec_handler_imports(a: AggregateIR, path: Seq<char>) -> Seq<char> {
    HD_IMPORTS_0@ + a.name@ + HD_IMPORTS_1@ + path + HD_IMPORTS_2@ + a.name@ + HD_IMPORTS_3@ + a.name@ + HD_IMPORTS_4@ + path + HD_IMPORTS_5@ + a.name@ + HD_IMPORTS_6@
}

/// The name of the validator of a command.
pub open spec fn spec_validator_name(a: AggregateIR, c: CommandIR) -> Seq<char> {
    "validate"@ + a.name@ + spec_pascal_case(c.name@) + "Input"@
}

/// The import of the validators, present when the aggregate has commands.
pub open spec fn spec_validator_import(a: AggregateIR) -> Seq<char> {
    if a.commands@.len() == 0 {
        Seq::empty()
    } else {
        "import { "@ + seq_join(Seq::new(a.commands@.len(), |k: int| spec_validator_name(a, a.commands@[k])), ", "@)
            + " } from '../validators/"@ + spec_snake_case(a.name@) + ".validator';\n"@
    }
}

/// The GET handler that reads the state of an aggregate.
pub open spec fn spec_get_handler(a: AggregateIR) -> Seq<char> {
    HD_GET_0@ + a.name@ + HD_GET_1@ + a.name@ + HD_GET_2@ + a.name@ + HD_GET_3@ + a.name@ + HD_GET_4@ + a.name@ + HD_GET_5@ + a.name@ + HD_GET_6@ + a.name@ + HD_GET_7@
}

/// The handler of a command.
pub open spec fn spec_command_handler(a: AggregateIR, c: CommandIR) -> Seq<char> {
    HD_CMD_0@ + a.name@ + spec_pascal_case(c.name@) + HD_CMD_1@ + a.name@ + HD_CMD_2@ + spec_pascal_case(c.name@) + HD_CMD_3@ + spec_pascal_case(c.name@) + HD_CMD_4@ + a.name@ + HD_CMD_5@ + spec_pascal_case(c.name@) + HD_CMD_6@ + a.name@ + HD_CMD_7@ + spec_pascal_case(c.name@) + HD_CMD_8@ + a.name@ + HD_CMD_9@ + spec_pascal_case(c.name@) + HD_CMD_10@ + a.name@ + spec_pascal_case(c.name@) + HD_CMD_11@ + a.name@ + HD_CMD_12@ + spec_pascal_case(c.name@) + HD_CMD_13@ + a.name@ + HD_CMD_14@ + a.name@ + HD_CMD_15@ + spec_command_call(c) + HD_CMD_16@ + a.name@ + HD_CMD_17@ + spec_pascal_case(c.name@) + HD_CMD_18@ + a.name@ + HD_CMD_19@ + spec_pascal_case(c.name@) + HD_CMD_20@ + a.name@ + HD_CMD_21@ + spec_pascal_case(c.name@) + HD_CMD_22@
}

/// The handler module of an aggregate.
pub open spec fn spec_generate_handlers(a: AggregateIR, path: Seq<char>) -> Seq<char> {
    spec_handler_imports(a, path) + spec_validator_import(a) + HD_CONTEXT@ + spec_get_handler(a)
        + seq_flatten(Seq::new(a.commands@.len(), |k: int| spec_command_handler(a, a.commands@[k])))
}

fn command_call(c: &CommandIR) -> (r: String)
    ensures
        r@ == spec_command_call(*c),
{
    let mut out = crate::text::to_owned_string("aggregate.");
    out.append(c.name.as_str());
    if c.parameters.len() == 0 {
        out.append("();");
        return out;
    }
    out.append("(");
    let ghost f = |k: int| "input."@ + c.parameters@[k].name@;
    let mut args = String::new();
    let mut i: usize = 0;
    while i < c.parameters.len()
        invariant
            i <= c.parameters@.len(),
            f == (|k: int| "input."@ + c.parameters@[k].name@),
            args@ == seq_join(Seq::new(i as nat, f), ", "@),
        decreases c.parameters.len() - i,
    {
        if i > 0 {
            args.append(", ");
        }
        args.append("input.");
        args.append(c.parameters[i].name.as_str());
        proof {
            lemma_join_new_step(f, ", "@, i as int);
        }
        i = i + 1;
    }
    out.append(args.as_str());
    out.append(");");
    out
}

fn handler_imports(a: &AggregateIR, domain_import_path: &str) -> (r: String)
    ensures
        r@ == spec_handler_imports(*a, domain_import_path@),
{
    let mut out = String::new();
    out.append(HD_IMPORTS_0);
    out.append(a.name.as_str());
    out.append(HD_IMPORTS_1);
    out.append(domain_import_path);
    out.append(HD_IMPORTS_2);
    out.append(a.name.as_str());
    out.append(HD_IMPORTS_3);
    out.append(a.name.as_str());
    out.append(HD_IMPORTS_4);
    out.append(domain_import_path);
    out.append(HD_IMPORTS_5);
    out.append(a.name.as_str());
    out.append(HD_IMPORTS_6);
    out
}

fn validator_import(a: &AggregateIR) -> (r: String)
    ensures
        r@ == spec_validator_import(*a),
{
    if a.commands.len() == 0 {
        return String::new();
    }
    let ghost f = |k: int| spec_validator_name(*a, a.commands@[k]);
    let mut names = String::new();
    let mut i: usize = 0;
    while i < a.commands.len()
        invariant
            i <= a.commands@.len(),
            f == (|k: int| spec_validator_name(*a, a.commands@[k])),
            names@ == seq_join(Seq::new(i as nat, f), ", "@),
        decreases a.commands.len() - i,
    {
        if i > 0 {
            names.append(", ");
        }
        let pascal = to_pascal_case(a.commands[i].name.as_str());
        names.append("validate");
        names.append(a.name.as_str());
        names.append(pascal.as_str());
        names.append("Input");
        proof {
            lemma_join_new_step(f, ", "@, i as int);
        }
        i = i + 1;
    }
    let snake = to_snake_case(a.name.as_str());
    let mut out = crate::text::to_owned_string("import { ");
    out.append(names.as_str());
    out.append(" } from '../validators/");
    out.append(snake.as_str());
    out.append(".validator';\n");
    out
}

/// Generates the GET handler that reads the state of an aggregate.
fn generate_get_handler(a: &AggregateIR) -> (r: String)
    ensures
        r@ == spec_get_handler(*a),
{
    let mut out = String::new();
    out.append(HD_GET_0);
    out.append(a.name.as_str());
    out.append(HD_GET_1);
    out.append(a.name.as_str());
    out.append(HD_GET_2);
    out.append(a.name.as_str());
    out.append(HD_GET_3);
    out.append(a.name.as_str());
    out.append(HD_GET_4);
    out.append(a.name.as_str());
    out.append(HD_GET_5);
    out.append(a.name.as_str());
    out.append(HD_GET_6);
    out.append(a.name.as_str());
    out.append(HD_GET_7);
    out
}

/// Generates the handler of a command.
fn generate_command_handler(a: &AggregateIR, c: &CommandIR) -> (r: String)
    ensures
        r@ == spec_command_handler(*a, *c),
{
    let cmd_pascal = to_pascal_case(c.name.as_str());
    let command_call = command_call(c);
    let mut out = String::new();
    out.append(HD_CMD_0);
    out.append(a.name.as_str());
    out.append(cmd_pascal.as_str());
    out.append(HD_CMD_1);
    out.append(a.name.as_str());
    out.append(HD_CMD_2);
    out.append(cmd_pascal.as_str());
    out.append(HD_CMD_3);
    out.append(cmd_pascal.as_str());
    out.append(HD_CMD_4);
    out.append(a.name.as_str());
    out.append(HD_CMD_5);
    out.append(cmd_pascal.as_str());
    out.append(HD_CMD_6);
    out.append(a.name.as_str());
    out.append(HD_CMD_7);
    out.append(cmd_pascal.as_str());
    out.append(HD_CMD_8);
    out.append(a.name.as_str());
    out.append(HD_CMD_9);
    out.append(cmd_pascal.as_str());
    out.append(HD_CMD_10);
    out.append(a.name.as_str());
    out.append(cmd_pascal.as_str());
    out.append(HD_CMD_11);
    out.append(a.name.as_str());
    out.append(HD_CMD_12);
    out.append(cmd_pascal.as_str());
    out.append(HD_CMD_13);
    out.append(a.name.as_str());
    out.append(HD_CMD_14);
    out.append(a.name.as_str());
    out.append(HD_CMD_15);
    out.append(command_call.as_str());
    out.append(HD_CMD_16);
    out.append(a.name.as_str());
    out.append(HD_CMD_17);
    out.append(cmd_pascal.as_str());
    out.append(HD_CMD_18);
    out.append(a.name.as_str());
    out.append(HD_CMD_19);
    out.append(cmd_pascal.as_str());
    out.append(HD_CMD_20);
    out.append(a.name.as_str());
    out.append(HD_CMD_21);
    out.append(cmd_pascal.as_str());
    out.append(HD_CMD_22);
    out
}

/// Generates the TypeScript handlers of an aggregate. `domain_import_path` is
/// the relative path from the handlers directory to the domain source.
pub fn generate_handlers(aggregate: &AggregateIR, domain_import_path: &str) -> (r: String)
    ensures
        r@ == spec_generate_handlers(*aggregate, domain_import_path@),
{
    let imports = handler_imports(aggregate, domain_import_path);
    let validators = validator_import(aggregate);
    let get = generate_get_handler(aggregate);
    let ghost f = |k: int| spec_command_handler(*aggregate, aggregate.commands@[k]);
    let mut cmds = String::new();
    let mut i: usize = 0;
    while i < aggregate.commands.len()
        invariant
            i <= aggregate.commands@.len(),
            f == (|k: int| spec_command_handler(*aggregate, aggregate.commands@[k])),
            cmds@ == seq_flatten(Seq::new(i as nat, f)),
        decreases aggregate.commands.len() - i,
    {
        let h = generate_command_handler(aggregate, &aggregate.commands[i]);
        cmds.append(h.as_str());
        proof {
            lemma_flatten_new_step(f, i as int);
        }
        i = i + 1;
    }
    let mut code = imports;
    code.append(validators.as_str());
    code.append(HD_CONTEXT);
    code.append(get.as_str());
    code.append(cmds.as_str());
    code
}

} // verus!
