use spite::ir::aggregate::{AggregateIR, EventField, EventTypeIR, EventVariant};
use spite::ir::{DomainIR, ObjectType};
use spite::schema::diff::diff_schemas;
use spite::schema::lock::{timestamp_text, SchemaLockFile};
use spite::ir::DomainType;
use spite::schema::diff::{diff_event_schemas, FieldChange, SchemaDiff};
use spite::schema::lock::{domain_type_to_string_pub, hash_text, EventSchema, FieldSchema};
use spite::schema::upcast::{to_snake_case, UpcastGenerator};

fn make_field(typ: &str, required: bool) -> FieldSchema {
    FieldSchema {
        typ: typ.to_string(),
        required,
        default: if required { None } else { Some("null".to_string()) },
    }
}

fn locked(fields: Vec<(&str, FieldSchema)>) -> EventSchema {
    EventSchema {
        version: 1,
        previous_version: None,
        fields: fields.into_iter().map(|(k, v)| (k.to_string(), v)).collect(),
        upcast_from: vec![],
        hash: "test".to_string(),
    }
}

#[test]
fn test_domain_type_to_string() {
    assert_eq!(domain_type_to_string_pub(&DomainType::String), "string");
    assert_eq!(domain_type_to_string_pub(&DomainType::Number), "number");
    assert_eq!(domain_type_to_string_pub(&DomainType::Boolean), "boolean");
    assert_eq!(domain_type_to_string_pub(&DomainType::Array(Box::new(DomainType::String))), "string[]");
    assert_eq!(
        domain_type_to_string_pub(&DomainType::Option(Box::new(DomainType::Number))),
        "number | undefined"
    );
}

#[test]
fn test_to_snake_case() {
    assert_eq!(to_snake_case("Todo"), "todo");
    assert_eq!(to_snake_case("OrderAggregate"), "order_aggregate");
    assert_eq!(to_snake_case("HTTPRequest"), "h_t_t_p_request");
}

#[test]
fn test_no_changes() {
    let l = locked(vec![("id", make_field("string", true))]);
    let current = vec![("id".to_string(), make_field("string", true))];
    let changes = diff_event_schemas(&l, &current);
    assert!(changes.is_empty());
}

#[test]
fn test_added_optional_field() {
    let l = locked(vec![("id", make_field("string", true))]);
    let current = vec![
        ("id".to_string(), make_field("string", true)),
        ("description".to_string(), make_field("string", false)),
    ];
    let changes = diff_event_schemas(&l, &current);
    assert_eq!(changes.len(), 1);
    assert!(matches!(&changes[0], FieldChange::Added { name, schema } if name == "description" && !schema.required));
    assert!(!changes[0].is_breaking());
}

#[test]
fn test_added_required_field_is_breaking() {
    let l = locked(vec![("id", make_field("string", true))]);
    let current = vec![
        ("id".to_string(), make_field("string", true)),
        ("title".to_string(), make_field("string", true)),
    ];
    let changes = diff_event_schemas(&l, &current);
    assert_eq!(changes.len(), 1);
    assert!(changes[0].is_breaking());
}

#[test]
fn test_removed_field_is_breaking() {
    let l = locked(vec![("id", make_field("string", true)), ("title", make_field("string", true))]);
    let current = vec![("id".to_string(), make_field("string", true))];
    let changes = diff_event_schemas(&l, &current);
    assert_eq!(changes.len(), 1);
    assert!(matches!(&changes[0], FieldChange::Removed { name, .. } if name == "title"));
    assert!(changes[0].is_breaking());
}

#[test]
fn test_type_change_is_breaking() {
    let l = locked(vec![("count", make_field("string", true))]);
    let current = vec![("count".to_string(), make_field("number", true))];
    let changes = diff_event_schemas(&l, &current);
    assert_eq!(changes.len(), 1);
    assert!(matches!(&changes[0], FieldChange::TypeChanged { .. }));
    assert!(changes[0].is_breaking());
}

#[test]
fn test_schema_diff_methods() {
    let diff = SchemaDiff {
        aggregate: "Todo".to_string(),
        event: "Created".to_string(),
        changes: vec![FieldChange::Added { name: "description".to_string(), schema: make_field("string", false) }],
    };
    assert!(!diff.is_breaking());
    assert!(diff.can_auto_upcast());
    let optional_fields = diff.added_optional_fields();
    assert_eq!(optional_fields.len(), 1);
    assert_eq!(optional_fields[0].0, "description");
}

#[test]
fn test_generate_upcast_from_diff() {
    let diff = SchemaDiff {
        aggregate: "Todo".to_string(),
        event: "Created".to_string(),
        changes: vec![FieldChange::Added { name: "description".to_string(), schema: make_field("string", false) }],
    };
    let code = UpcastGenerator::generate_upcast_from_diff("Todo", &diff, 1, 2);
    assert!(code.is_some());
    let code = code.unwrap();
    assert!(code.contains("upcastTodo_Created_v1_to_v2"));
    assert!(code.contains("description: null"));
}

#[test]
fn test_no_upcast_for_breaking_changes() {
    let diff = SchemaDiff {
        aggregate: "Todo".to_string(),
        event: "Created".to_string(),
        changes: vec![FieldChange::Removed { name: "title".to_string(), schema: make_field("string", true) }],
    };
    let code = UpcastGenerator::generate_upcast_from_diff("Todo", &diff, 1, 2);
    assert!(code.is_none());
}

#[test]
fn test_generate_upcast_module() {
    let diffs = vec![SchemaDiff {
        aggregate: "Todo".to_string(),
        event: "Created".to_string(),
        changes: vec![FieldChange::Added { name: "description".to_string(), schema: make_field("string", false) }],
    }];
    let versions = vec![("Created".to_string(), 2u32)];
    let code = UpcastGenerator::generate_upcast_module("Todo", &diffs, &versions);
    assert!(code.contains("Auto-generated event upcasters for Todo"));
    assert!(code.contains("upcastTodoEvent"));
    assert!(code.contains("todoUpcastRegistry"));
    assert!(code.contains("    1: upcastTodo_Created_v1_to_v2,\n"));
    assert!(code.contains("const CURRENT_VERSION = 2;"));
}

#[test]
fn format_changes_marks_breaking_lines() {
    let diff = SchemaDiff {
        aggregate: "Todo".to_string(),
        event: "Created".to_string(),
        changes: vec![
            FieldChange::Added { name: "note".to_string(), schema: make_field("string", false) },
            FieldChange::RequiredChanged { name: "title".to_string(), was_optional: true },
        ],
    };
    assert_eq!(
        diff.format_changes(),
        "  + Field 'note': string? = null (OK)\n  ~ Field 'title' changed from optional to required (BREAKING)"
    );
}

#[test]
fn hash_text_is_zero_padded_hex() {
    assert_eq!(hash_text(0), "sha256:0000000000000000");
    assert_eq!(hash_text(255), "sha256:00000000000000ff");
    assert_eq!(hash_text(u64::MAX), "sha256:ffffffffffffffff");
}

#[test]
fn schema_hash_ignores_field_order() {
    let a = vec![
        EventField { name: "title".to_string(), typ: DomainType::String },
        EventField { name: "count".to_string(), typ: DomainType::Number },
    ];
    let b = vec![
        EventField { name: "count".to_string(), typ: DomainType::Number },
        EventField { name: "title".to_string(), typ: DomainType::String },
    ];
    let sa = EventSchema::from_variant("Created", &a);
    let sb = EventSchema::from_variant("Created", &b);
    assert_eq!(sa.hash, sb.hash);
    assert!(sa.hash.starts_with("sha256:"));
    let other = EventSchema::from_variant("Renamed", &a);
    assert_ne!(sa.hash, other.hash);
}

fn event(name: &str, fields: Vec<(&str, DomainType)>) -> EventVariant {
    EventVariant {
        name: name.to_string(),
        fields: fields.into_iter().map(|(n, t)| EventField { name: n.to_string(), typ: t }).collect(),
    }
}

fn aggregate(name: &str, variants: Vec<EventVariant>) -> AggregateIR {
    AggregateIR {
        name: name.to_string(),
        source_path: String::new(),
        state: ObjectType { fields: vec![] },
        initial_state: vec![],
        events: EventTypeIR { name: format!("{}Event", name), variants },
        commands: vec![],
        raw_apply_body: None,
    }
}

#[test]
fn domain_has_no_changes_against_its_own_lock() {
    let mut domain = DomainIR::new(String::new());
    domain.aggregates.push(aggregate(
        "Todo",
        vec![
            event("Created", vec![("title", DomainType::String), ("due", DomainType::Option(Box::new(DomainType::Number)))]),
            event("Completed", vec![]),
        ],
    ));
    domain.aggregates.push(aggregate("User", vec![event("Registered", vec![("email", DomainType::String)])]));
    let lock = SchemaLockFile::from_domain_ir(&domain, "0.1.0");
    assert!(diff_schemas(&lock.aggregates, &domain).is_empty());

    domain.aggregates[1].events.variants[0].fields.push(EventField { name: "age".to_string(), typ: DomainType::Number });
    let diffs = diff_schemas(&lock.aggregates, &domain);
    assert_eq!(diffs.len(), 1);
    assert!(diffs[0].is_breaking());
}

#[test]
fn lock_timestamps_are_iso_date_times() {
    assert_eq!(timestamp_text(0), "1970-01-01T00:00:00Z");
    assert_eq!(timestamp_text(1_766_361_600), "2025-12-22T00:00:00Z");
    assert_eq!(timestamp_text(951_782_400), "2000-02-29T00:00:00Z");
    assert_eq!(timestamp_text(1_704_067_199), "2023-12-31T23:59:59Z");
}

#[test]
fn dropped_aggregate_reports_its_events_removed() {
    let mut domain = DomainIR::new(String::new());
    domain.aggregates.push(aggregate("Todo", vec![event("Created", vec![("title", DomainType::String)])]));
    domain.aggregates.push(aggregate(
        "User",
        vec![event("Registered", vec![("email", DomainType::String)]), event("Deleted", vec![])],
    ));
    let lock = SchemaLockFile::from_domain_ir(&domain, "0.1.0");
    domain.aggregates.pop();
    let diffs = diff_schemas(&lock.aggregates, &domain);
    let got: Vec<(String, String)> = diffs.iter().map(|d| (d.aggregate.clone(), d.event.clone())).collect();
    assert_eq!(
        got,
        vec![("User".to_string(), "Registered".to_string()), ("User".to_string(), "Deleted".to_string())]
    );
    assert!(diffs.iter().all(|d| d.is_breaking()));
}

#[test]
fn event_diff_is_empty_only_for_the_same_fields() {
    let l = locked(vec![("id", make_field("string", true)), ("note", make_field("string", false))]);
    let reordered = vec![
        ("note".to_string(), make_field("string", false)),
        ("id".to_string(), make_field("string", true)),
    ];
    assert!(diff_event_schemas(&l, &reordered).is_empty());
    let now_required = vec![
        ("note".to_string(), make_field("string", true)),
        ("id".to_string(), make_field("string", true)),
    ];
    let changes = diff_event_schemas(&l, &now_required);
    assert_eq!(changes.len(), 1);
    assert!(matches!(&changes[0], FieldChange::RequiredChanged { name, was_optional: true } if name == "note"));
}
