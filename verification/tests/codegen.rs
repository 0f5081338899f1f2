use spite::codegen::handlers::generate_handlers;
use spite::codegen::orchestrator::generate_orchestrator;
use spite::codegen::router::generate_router;
use spite::ir::access::AccessLevel;
use spite::ir::aggregate::{AggregateIR, CommandIR, EventTypeIR};
use spite::ir::orchestrator::{OrchestratorDependency, OrchestratorIR};
use spite::ir::{DomainIR, DomainType, ObjectType, ParameterIR};

fn make_test_aggregate(name: &str, commands: Vec<CommandIR>) -> AggregateIR {
    AggregateIR {
        name: name.to_string(),
        source_path: String::new(),
        state: ObjectType { fields: vec![] },
        initial_state: vec![],
        events: EventTypeIR { name: format!("{}Event", name), variants: vec![] },
        commands,
        raw_apply_body: None,
    }
}

fn make_test_command(name: &str, params: Vec<(&str, DomainType)>) -> CommandIR {
    CommandIR {
        name: name.to_string(),
        parameters: params
            .into_iter()
            .map(|(n, t)| ParameterIR { name: n.to_string(), typ: t })
            .collect(),
        body: vec![],
        access: AccessLevel::Internal,
        roles: vec![],
    }
}

fn make_test_orchestrator(name: &str) -> OrchestratorIR {
    OrchestratorIR {
        name: name.to_string(),
        source_path: String::new(),
        dependencies: vec![OrchestratorDependency {
            name: "order".to_string(),
            typ: "Order".to_string(),
            optional: false,
        }],
        parameters: vec![],
        is_async: false,
    }
}

#[test]
fn generates_imports() {
    let agg = make_test_aggregate("Todo", vec![]);
    let code = generate_handlers(&agg, "../../domain");

    assert!(code.contains("import type { SpiteDbNapi, TelemetryDbNapi, TelemetryRecordNapi } from '@spitestack/db'"));
    assert!(code.contains("import { TodoAggregate } from '../../domain/Todo/aggregate'"));
    assert!(code.contains("import type { TodoEvent } from '../../domain/Todo/events'"));
}

#[test]
fn generates_handler_context_type() {
    let agg = make_test_aggregate("Todo", vec![]);
    let code = generate_handlers(&agg, "../../domain");

    assert!(code.contains("export type HandlerContext = {"));
    assert!(code.contains("db: SpiteDbNapi;"));
    assert!(code.contains("telemetry: TelemetryDbNapi;"));
    assert!(code.contains("tenant: string;"));
}

#[test]
fn generates_get_handler() {
    let agg = make_test_aggregate("Todo", vec![]);
    let code = generate_handlers(&agg, "../../domain");

    assert!(code.contains("export async function handleTodoGet("));
    assert!(code.contains("ctx.db.readStream(streamId"));
    assert!(code.contains("new TodoAggregate()"));
}

#[test]
fn generates_command_handler_with_params() {
    let agg = make_test_aggregate(
        "Todo",
        vec![make_test_command("create", vec![("id", DomainType::String), ("title", DomainType::String)])],
    );
    let code = generate_handlers(&agg, "../../domain");

    assert!(code.contains("export async function handleTodoCreate("));
    assert!(code.contains("validateTodoCreateInput(body)"));
    assert!(code.contains("aggregate.create(input.id, input.title)"));
}

#[test]
fn generates_command_handler_without_params() {
    let agg = make_test_aggregate("Todo", vec![make_test_command("complete", vec![])]);
    let code = generate_handlers(&agg, "../../domain");

    assert!(code.contains("export async function handleTodoComplete("));
    assert!(code.contains("aggregate.complete();"));
}

#[test]
fn generates_validator_imports() {
    let agg = make_test_aggregate(
        "Todo",
        vec![make_test_command("create", vec![("id", DomainType::String)]), make_test_command("complete", vec![])],
    );
    let code = generate_handlers(&agg, "../../domain");

    assert!(code.contains("import { validateTodoCreateInput, validateTodoCompleteInput }"));
    assert!(code.contains("from '../validators/todo.validator'"));
}

#[test]
fn handlers_emits_telemetry_without_flush() {
    let agg = make_test_aggregate("Todo", vec![make_test_command("create", vec![("id", DomainType::String)])]);
    let code = generate_handlers(&agg, "../../domain");

    assert!(code.contains("emitTelemetry(ctx.telemetry, records);"));
    assert!(code.contains("const finalize = (response: Response, status: 'Ok' | 'Error', err?: unknown) => {"));
    assert!(!code.contains("flushTelemetry"));
    assert!(!code.contains("const finalize = async"));
}

#[test]
fn orchestrator_emits_telemetry_without_flush() {
    let orchestrator = make_test_orchestrator("ProcessOrder");
    let code = generate_orchestrator(&orchestrator);

    assert!(code.contains("emitTelemetry(ctx.telemetry, records);"));
    assert!(code.contains("const finalize = (result: ProcessOrderResult, status: 'Ok' | 'Error', err?: unknown) => {"));
    assert!(!code.contains("flushTelemetry"));
    assert!(!code.contains("const finalize = async"));
}

#[test]
fn router_emits_telemetry_without_flush() {
    let mut domain = DomainIR::new(String::new());
    domain.aggregates.push(make_test_aggregate("Todo", vec![]));

    let code = generate_router(&domain);

    assert!(code.contains("emitTelemetry(ctx.telemetry, records);"));
    assert!(code.contains("const createFinalize = (tenant: string, user?: { sub?: string }) => {"));
    assert!(code.contains("finalize: (response: Response, err?: unknown): Response => {"));
    assert!(!code.contains("flushTelemetry"));
}
