use spite::store::crypto::{BatchCryptor, EnvKeyProvider, KeyProvider};
use spite::store::error::Error;
use spite::store::telemetry::{
    check_schema_version, normalize_cursor, resolve_shards, slice_from_ts_ms, MetricKind, SpanStatus, TelemetryConfig, TelemetryCursor, TelemetryKind, TelemetryOrder,
    TelemetryQuery, TimeSlice, resolve_slices, select_slice_names, slices_for_range,
    partition_for_record, PartitionKey, shard_file_name, should_flush, expired_slices, prepare_store_config,
};
use spite::store::telemetry_write::{add_record, plan_enqueue, plan_flush, reset_batch, split_batches, FlushPlan, WriterBatch};
use spite::store::projection_config::{ProjectionConsumerConfig, DEFAULT_BATCH_SIZE};
use spite::store::telemetry::EventRef;
use spite::store::bindings::{TelemetryConfigNapi, TimeSliceNapi};
use spite::store::telemetry_query::{merge_tail, select_query_results, telemetry_query_sql, SqlParam, TailEntry, QUERY_SELECT};
use spite::store::operation::{op_type_from_str, BatchResult, BatchResultNapi, OpType, ProjectionOpNapi};

#[test]
fn test_seal_open_roundtrip() {
    let cryptor = BatchCryptor::from_env().unwrap();
    let plaintext = b"Hello, world! This is test data for compression.";
    let batch_id = 12345i64;

    let (compressed, nonce) = cryptor.seal(plaintext, batch_id).unwrap();
    let decompressed = cryptor.open(&compressed, &nonce, batch_id).unwrap();

    assert_eq!(decompressed, plaintext);
}

#[test]
fn test_seal_open_empty_data() {
    let cryptor = BatchCryptor::from_env().unwrap();
    let plaintext = b"";
    let batch_id = 1i64;

    let (compressed, nonce) = cryptor.seal(plaintext, batch_id).unwrap();
    let decompressed = cryptor.open(&compressed, &nonce, batch_id).unwrap();

    assert_eq!(decompressed, plaintext);
}

#[test]
fn test_seal_open_large_data() {
    let cryptor = BatchCryptor::from_env().unwrap();
    let plaintext: Vec<u8> = (0..100_000).map(|i| (i % 256) as u8).collect();
    let batch_id = 999i64;

    let (compressed, nonce) = cryptor.seal(&plaintext, batch_id).unwrap();

    assert!(compressed.len() < plaintext.len());

    let decompressed = cryptor.open(&compressed, &nonce, batch_id).unwrap();
    assert_eq!(decompressed, plaintext);
}

#[test]
fn test_from_env_always_succeeds() {
    let result = BatchCryptor::from_env();
    assert!(result.is_ok());
}

#[test]
fn test_clone_with_same_key() {
    let cryptor = BatchCryptor::from_env().unwrap();
    let cloned = cryptor.clone_with_same_key();

    let plaintext = b"test data";
    let (compressed, nonce) = cryptor.seal(plaintext, 1).unwrap();
    let decompressed = cloned.open(&compressed, &nonce, 1).unwrap();
    assert_eq!(decompressed, plaintext);
}

#[test]
fn seal_gives_zero_nonce_and_compresses() {
    let cryptor = BatchCryptor::new(EnvKeyProvider::from_key([7u8; 32]));
    let data = vec![42u8; 4096];
    let (compressed, nonce) = cryptor.seal(&data, 5).unwrap();
    assert_eq!(nonce, [0u8; 12]);
    assert_ne!(compressed, data);
    assert!(compressed.len() < data.len());
}

#[test]
fn open_rejects_garbage() {
    let cryptor = BatchCryptor::from_env().unwrap();
    let result = cryptor.open(b"not a zstd frame", &[0u8; 12], 1);
    assert!(matches!(result, Err(spite::store::error::Error::Compression(_))));
}

#[test]
fn key_provider_returns_its_key() {
    let provider = EnvKeyProvider::from_key([3u8; 32]);
    assert_eq!(provider.get_master_key().unwrap(), [3u8; 32]);
    assert_eq!(provider.derive_batch_key(9, &[1u8; 12]).unwrap(), [3u8; 32]);
    let env = EnvKeyProvider::from_env().unwrap();
    assert_eq!(env.get_master_key().unwrap(), [0u8; 32]);
}

#[test]
fn telemetry_codes_roundtrip() {
    for k in [TelemetryKind::Log, TelemetryKind::Metric, TelemetryKind::Span] {
        assert_eq!(TelemetryKind::from_i64(k.as_i64()), Some(k));
    }
    for k in [MetricKind::Gauge, MetricKind::Counter, MetricKind::Histogram, MetricKind::Summary] {
        assert_eq!(MetricKind::from_i64(k.as_i64()), Some(k));
    }
    for s in [SpanStatus::Unset, SpanStatus::Success, SpanStatus::Error] {
        assert_eq!(SpanStatus::from_i64(s.as_i64()), Some(s));
    }
    assert_eq!(TelemetryKind::Span.as_i64(), 2);
    assert_eq!(MetricKind::Summary.as_i64(), 3);
    assert_eq!(SpanStatus::Success.as_i64(), 1);
    assert_eq!(TelemetryKind::from_i64(3), None);
    assert_eq!(MetricKind::from_i64(-1), None);
    assert_eq!(SpanStatus::from_i64(7), None);
}

#[test]
fn telemetry_defaults() {
    let config = TelemetryConfig::new("testapp".to_string());
    assert_eq!(config.app_name, "testapp");
    assert_eq!(config.partitions, 8);
    assert_eq!(config.batch_max_ms, 10);
    assert_eq!(config.batch_max_bytes, 262144);
    assert_eq!(config.batch_max_records, 2000);
    assert_eq!(config.max_inflight, 50000);
    assert_eq!(config.retention_days, 30);
    assert_eq!(config.time_slice, TimeSlice::Daily);
    assert!(config.default_service.is_none());
    assert_eq!(TelemetryConfig::default().app_name, "app");
    assert_eq!(TelemetryOrder::default(), TelemetryOrder::Desc);
    assert_eq!(TimeSlice::Daily.to_string(), "daily");
}

#[test]
fn cursor_starts_at_zero_per_partition() {
    let cursor = TelemetryCursor::new("2025-01-01".to_string(), 3);
    assert_eq!(cursor.slice, "2025-01-01");
    assert_eq!(cursor.last_ids, vec![0, 0, 0]);
    assert!(TelemetryCursor::new("x".to_string(), 0).last_ids.is_empty());
}

#[test]
fn slices_are_utc_dates() {
    assert_eq!(slice_from_ts_ms(0).unwrap(), "1970-01-01");
    assert_eq!(slice_from_ts_ms(1_735_689_600_000).unwrap(), "2025-01-01");
    assert_eq!(slice_from_ts_ms(1_735_776_000_000 - 1).unwrap(), "2025-01-01");
    assert_eq!(slice_from_ts_ms(1_735_776_000_000).unwrap(), "2025-01-02");
    assert!(slice_from_ts_ms(u64::MAX / 2).is_err());
    assert_eq!(slice_from_ts_ms(u64::MAX).unwrap(), "1969-12-31");
}

#[test]
fn normalize_cursor_cuts_and_pads() {
    let cursor = TelemetryCursor { slice: "2025-01-01".to_string(), last_ids: vec![5, 6, 7] };
    let shorter = normalize_cursor(&cursor, 2);
    assert_eq!(shorter.slice, "2025-01-01");
    assert_eq!(shorter.last_ids, vec![5, 6]);
    let longer = normalize_cursor(&cursor, 5);
    assert_eq!(longer.last_ids, vec![5, 6, 7, 0, 0]);
}

#[test]
fn resolve_shards_checks_range() {
    assert_eq!(resolve_shards(None, 3).unwrap(), vec![0, 1, 2]);
    assert_eq!(resolve_shards(Some(1), 3).unwrap(), vec![1]);
    match resolve_shards(Some(3), 3) {
        Err(Error::Schema(msg)) => assert_eq!(msg, "telemetry shard 3 out of range"),
        _ => panic!("expected a schema error"),
    }
}

#[test]
fn schema_version_is_checked() {
    assert!(check_schema_version(None).unwrap());
    assert!(!check_schema_version(Some("1")).unwrap());
    assert!(!check_schema_version(Some("+1")).unwrap());
    match check_schema_version(Some("v1")) {
        Err(Error::Schema(msg)) => assert_eq!(msg, "telemetry schema version is invalid"),
        _ => panic!("expected a schema error"),
    }
    match check_schema_version(Some("-2")) {
        Err(Error::Schema(msg)) => assert_eq!(
            msg,
            "telemetry schema version mismatch: database has version -2, but this SpiteDB version requires 1"
        ),
        _ => panic!("expected a schema error"),
    }
}

#[test]
fn telemetry_query_new_filters_nothing() {
    let q = TelemetryQuery::new();
    assert!(q.tenant_hash.is_none());
    assert!(q.kind.is_none());
    assert!(q.limit.is_none());
    assert!(q.shard_id.is_none());
    assert_eq!(q.order, TelemetryOrder::Desc);
    let d = TelemetryQuery::default();
    assert_eq!(d.order, TelemetryOrder::Desc);
    assert!(d.slice.is_none());
}

#[test]
fn op_type_reads_delete_and_defaults_to_upsert() {
    assert_eq!(op_type_from_str("delete"), OpType::Delete);
    assert_eq!(op_type_from_str("upsert"), OpType::Upsert);
    assert_eq!(op_type_from_str("Delete"), OpType::Upsert);
    assert_eq!(op_type_from_str(""), OpType::Upsert);
}

#[test]
fn batch_from_napi_scopes_every_operation_to_the_tenant() {
    let batch = BatchResultNapi {
        projection_name: "orders".to_string(),
        tenant_id: "acme".to_string(),
        operations: vec![
            ProjectionOpNapi {
                op_type: "upsert".to_string(),
                key: "o-1".to_string(),
                value: Some("{\"total\": 3}".to_string()),
            },
            ProjectionOpNapi { op_type: "delete".to_string(), key: "o-2".to_string(), value: None },
            ProjectionOpNapi {
                op_type: "upsert".to_string(),
                key: "o-3".to_string(),
                value: Some("not json".to_string()),
            },
        ],
        last_global_pos: 42,
    };
    let r = BatchResult::from_napi(batch);
    assert_eq!(r.projection_name, "orders");
    assert_eq!(r.tenant_id, "acme");
    assert_eq!(r.last_global_pos, 42);
    assert_eq!(r.operations.len(), 3);
    assert!(r.operations.iter().all(|op| op.tenant_id == "acme"));
    assert_eq!(r.operations[0].op_type, OpType::Upsert);
    assert_eq!(r.operations[0].key, "o-1");
    assert_eq!(r.operations[0].value.as_ref().and_then(|v| v.get("total")).and_then(|t| t.as_i64()), Some(3));
    assert_eq!(r.operations[1].op_type, OpType::Delete);
    assert!(r.operations[1].value.is_none());
    assert!(r.operations[2].value.is_none());
}

#[test]
fn slices_for_range_lists_every_day() {
    let day = 86_400_000u64;
    assert_eq!(
        slices_for_range(0, 2 * day + 5).unwrap(),
        vec!["1970-01-01".to_string(), "1970-01-02".to_string(), "1970-01-03".to_string()]
    );
    assert_eq!(slices_for_range(day - 1, day - 1).unwrap(), vec!["1970-01-01".to_string()]);
    assert!(slices_for_range(3 * day, day).unwrap().is_empty());
    assert!(matches!(slices_for_range(u64::MAX / 2, u64::MAX / 2), Err(Error::Schema(_))));
}

#[test]
fn select_slice_names_keeps_dates_in_order() {
    let names = vec![
        "2024-01-03".to_string(),
        "notes".to_string(),
        "2023-12-31".to_string(),
        "2024-01-01".to_string(),
    ];
    assert_eq!(
        select_slice_names(names),
        vec!["2023-12-31".to_string(), "2024-01-01".to_string(), "2024-01-03".to_string()]
    );
}

#[test]
fn resolve_slices_follows_the_query() {
    let mut q = TelemetryQuery::new();
    q.slice = Some("2024-05-01".to_string());
    assert_eq!(resolve_slices(&q, &vec![], 0).unwrap(), vec!["2024-05-01".to_string()]);

    let jan2 = 1_704_153_600_000u64;
    let jan3 = jan2 + 86_400_000;
    let mut q = TelemetryQuery::new();
    q.end_ms = Some(jan3);
    let listed = vec!["2024-01-02".to_string()];
    assert_eq!(
        resolve_slices(&q, &listed, jan3).unwrap(),
        vec!["2024-01-02".to_string(), "2024-01-03".to_string()]
    );
    assert_eq!(resolve_slices(&q, &vec![], jan2).unwrap(), vec!["2024-01-02".to_string()]);

    let q = TelemetryQuery::new();
    assert_eq!(resolve_slices(&q, &listed, jan3).unwrap(), vec!["2024-01-03".to_string()]);
}

fn key(trace: Option<&str>, stream: Option<i64>, command: Option<&str>, tenant: i64, ts: u64) -> PartitionKey {
    PartitionKey {
        trace_id: trace.map(|t| t.to_string()),
        stream_hash: stream,
        command_id: command.map(|c| c.to_string()),
        tenant_hash: tenant,
        ts_ms: ts,
    }
}

#[test]
fn partition_prefers_trace_then_stream_then_command_then_tenant() {
    let h = |b: &[u8]| (xxhash_rust::xxh3::xxh3_64(b) % 8) as usize;
    assert_eq!(partition_for_record(&key(Some("trace-1"), Some(3), Some("cmd"), 5, 0), 0, 8), h(b"trace-1"));
    assert_eq!(partition_for_record(&key(None, Some(-1), Some("cmd"), 5, 0), 0, 8), 7);
    assert_eq!(partition_for_record(&key(None, None, Some("cmd-9"), 5, 0), 0, 8), h(b"cmd-9"));
    assert_eq!(partition_for_record(&key(None, None, None, 10, 0), 0, 8), 2);
    let seed: u64 = 1_700_000_000_000 ^ 3;
    assert_eq!(partition_for_record(&key(None, None, None, 0, 1_700_000_000_000), 3, 8), h(&seed.to_le_bytes()));
    assert!(partition_for_record(&key(None, None, None, 0, 42), 9, 3) < 3);
}

#[test]
fn telemetry_config_from_bindings_fills_defaults() {
    let c = TelemetryConfigNapi::default_config().to_config().unwrap();
    assert_eq!(c.app_name, "app");
    assert_eq!(c.partitions, 8);
    assert_eq!(c.batch_max_bytes, 256 * 1024);
    assert_eq!(c.retention_days, 30);

    let mut s = TelemetryConfigNapi::default_config();
    s.app_name = None;
    s.partitions = Some(4);
    s.retention_days = Some(7);
    s.time_slice = Some(TimeSliceNapi::Daily);
    s.default_service = Some("api".to_string());
    let c = s.to_config().unwrap();
    assert_eq!(c.app_name, "app");
    assert_eq!(c.partitions, 4);
    assert_eq!(c.retention_days, 7);
    assert_eq!(c.batch_max_ms, 10);
    assert_eq!(c.time_slice, TimeSlice::Daily);
    assert_eq!(c.default_service.as_deref(), Some("api"));

    s.partitions = Some(0);
    assert_eq!(s.to_config().unwrap_err(), "telemetry partitions must be >= 1");
}

#[test]
fn shard_file_names_are_zero_padded() {
    assert_eq!(shard_file_name(0), "shard-000.db");
    assert_eq!(shard_file_name(7), "shard-007.db");
    assert_eq!(shard_file_name(42), "shard-042.db");
    assert_eq!(shard_file_name(1234), "shard-1234.db");
}

#[test]
fn batches_flush_at_either_limit() {
    let config = TelemetryConfig::new("app".to_string());
    assert!(!should_flush(0, 0, &config));
    assert!(!should_flush(256 * 1024 - 1, 1999, &config));
    assert!(should_flush(256 * 1024, 0, &config));
    assert!(should_flush(0, 2000, &config));
}

#[test]
fn query_sql_lists_the_set_filters_in_order() {
    let (sql, params) = telemetry_query_sql(&TelemetryQuery::new());
    assert_eq!(sql, format!("{} ORDER BY ts_ms DESC", QUERY_SELECT));
    assert!(params.is_empty());

    let mut q = TelemetryQuery::new();
    q.metric_name = Some("cpu".to_string());
    q.start_ms = Some(10);
    q.kind = Some(TelemetryKind::Metric);
    q.tenant_hash = Some(-5);
    q.order = TelemetryOrder::Asc;
    let (sql, params) = telemetry_query_sql(&q);
    assert_eq!(
        sql,
        format!(
            "{} WHERE tenant_hash = ? AND kind = ? AND ts_ms >= ? AND metric_name = ? ORDER BY ts_ms ASC",
            QUERY_SELECT
        )
    );
    assert_eq!(params.len(), 4);
    assert!(matches!(params[0], SqlParam::Integer(-5)));
    assert!(matches!(params[1], SqlParam::Integer(1)));
    assert!(matches!(params[2], SqlParam::Integer(10)));
    assert!(matches!(&params[3], SqlParam::Text(t) if t == "cpu"));
}

#[test]
fn query_results_sort_by_time_and_cut_to_the_limit() {
    let ts = vec![30u64, 10, 20, 10];
    assert_eq!(select_query_results(&ts, TelemetryOrder::Asc, None), vec![1, 3, 2, 0]);
    assert_eq!(select_query_results(&ts, TelemetryOrder::Desc, None), vec![0, 2, 3, 1]);
    assert_eq!(select_query_results(&ts, TelemetryOrder::Desc, Some(2)), vec![0, 2]);
    assert_eq!(select_query_results(&ts, TelemetryOrder::Asc, Some(10)), vec![1, 3, 2, 0]);
    assert!(select_query_results(&vec![], TelemetryOrder::Asc, Some(3)).is_empty());
}

#[test]
fn tail_merge_orders_records_and_advances_the_cursor() {
    let entries = vec![
        TailEntry { shard: 0, ts_ms: 5, id: Some(3) },
        TailEntry { shard: 1, ts_ms: 2, id: Some(7) },
        TailEntry { shard: 0, ts_ms: 5, id: Some(1) },
    ];
    let cursor = TelemetryCursor { slice: "2024-01-01".to_string(), last_ids: vec![0] };
    let (order, next) = merge_tail(&entries, &cursor, 2, 2);
    assert_eq!(order, vec![1, 2]);
    assert_eq!(next.slice, "2024-01-01");
    assert_eq!(next.last_ids, vec![1, 7]);

    let (order, next) = merge_tail(&entries, &cursor, 2, 10);
    assert_eq!(order, vec![1, 2, 0]);
    assert_eq!(next.last_ids, vec![3, 7]);

    let (order, next) = merge_tail(&vec![], &cursor, 4, 10);
    assert!(order.is_empty());
    assert_eq!(next.last_ids, vec![0]);
}

#[test]
fn batches_split_by_shard_then_slice() {
    let day = 86_400_000u64;
    let shards = vec![1usize, 0, 1, 0];
    let ts = vec![day, 0, 5, 10];
    let batches = split_batches(&shards, &ts).unwrap();
    let got: Vec<(usize, String, Vec<usize>)> =
        batches.into_iter().map(|b| (b.shard, b.slice, b.records)).collect();
    assert_eq!(
        got,
        vec![
            (0, "1970-01-01".to_string(), vec![1, 3]),
            (1, "1970-01-01".to_string(), vec![2]),
            (1, "1970-01-02".to_string(), vec![0]),
        ]
    );
    assert!(split_batches(&vec![], &vec![]).unwrap().is_empty());
    assert!(matches!(split_batches(&vec![0, 0], &vec![0, u64::MAX / 2]), Err(Error::Schema(_))));
}

#[test]
fn retention_expires_slices_before_the_cutoff() {
    let names = vec![
        "2024-01-01".to_string(),
        "notes".to_string(),
        "2024-01-10".to_string(),
        "2023-12-31".to_string(),
    ];
    let jan11 = 1_704_931_200_000u64;
    assert_eq!(
        expired_slices(&names, jan11, 5).unwrap(),
        vec!["2024-01-01".to_string(), "2023-12-31".to_string()]
    );
    assert!(expired_slices(&names, jan11, 0).unwrap().is_empty());
    assert_eq!(expired_slices(&names, jan11, 1).unwrap().len(), 2);
    assert!(expired_slices(&names, jan11, 20).unwrap().is_empty());
    assert!(expired_slices(&names, jan11, u64::MAX / 2).is_none());
}

#[test]
fn store_config_defaults_the_service_and_checks_limits() {
    let c = prepare_store_config(TelemetryConfig::new("shop".to_string())).unwrap();
    assert_eq!(c.default_service.as_deref(), Some("shop"));
    let mut given = TelemetryConfig::new("shop".to_string());
    given.default_service = Some("api".to_string());
    assert_eq!(prepare_store_config(given).unwrap().default_service.as_deref(), Some("api"));
    let mut given = TelemetryConfig::new("shop".to_string());
    given.partitions = 0;
    assert!(matches!(prepare_store_config(given), Err(Error::Schema(m)) if m == "telemetry partitions must be >= 1"));
    let mut given = TelemetryConfig::new("shop".to_string());
    given.batch_max_records = 0;
    assert!(matches!(prepare_store_config(given), Err(Error::Schema(m)) if m == "telemetry batch_max_records must be >= 1"));
}

#[test]
fn writer_switches_slices_and_flushes_pending_records_first() {
    let mut batch = WriterBatch::new();
    let plan = plan_enqueue(&batch, 0).unwrap();
    assert_eq!(plan.slice, "1970-01-01");
    assert!(plan.open);
    assert!(!plan.flush_first);
    batch.current_slice = Some(plan.slice);
    add_record(&mut batch, 200);
    assert_eq!((batch.bytes, batch.records), (200, 1));

    let same = plan_enqueue(&batch, 1_000).unwrap();
    assert!(!same.open && !same.flush_first);
    let next_day = plan_enqueue(&batch, 86_400_000).unwrap();
    assert_eq!(next_day.slice, "1970-01-02");
    assert!(next_day.open && next_day.flush_first);
    assert!(matches!(plan_enqueue(&batch, u64::MAX / 2), Err(Error::Schema(_))));

    assert!(matches!(plan_flush(&batch, Some(0)), FlushPlan::Write { slice } if slice == "1970-01-01"));
    reset_batch(&mut batch, Some("1970-01-01".to_string()));
    assert_eq!((batch.bytes, batch.records), (0, 0));
    assert!(matches!(plan_flush(&batch, None), FlushPlan::Nothing));

    let mut fresh = WriterBatch::new();
    add_record(&mut fresh, 10);
    assert!(matches!(plan_flush(&fresh, Some(86_400_000)), FlushPlan::Write { slice } if slice == "1970-01-02"));
    assert!(matches!(plan_flush(&fresh, Some(u64::MAX / 2)), FlushPlan::Discard));
}

#[test]
fn event_refs_cover_every_appended_event() {
    let refs = EventRef::from_append("order-1", -7, "cmd-9", 40, 3, 3);
    assert_eq!(refs.len(), 3);
    assert_eq!(refs.iter().map(|r| r.global_pos).collect::<Vec<_>>(), vec![40, 41, 42]);
    assert_eq!(refs.iter().map(|r| r.stream_rev).collect::<Vec<_>>(), vec![3, 4, 5]);
    assert!(refs.iter().all(|r| r.stream_id == "order-1" && r.tenant_hash == -7 && r.command_id == "cmd-9"));
    assert!(EventRef::from_append("s", 0, "c", 1, 1, 0).is_empty());
    let one = EventRef::new(5, "s".to_string(), 2, 1, "c".to_string());
    assert_eq!((one.global_pos, one.stream_rev), (5, 2));
}

#[test]
fn consumer_config_defaults_its_batch_size() {
    let c = ProjectionConsumerConfig::new("orders".to_string(), "/tmp/p".to_string(), ());
    assert_eq!(c.batch_size, DEFAULT_BATCH_SIZE);
    assert_eq!(DEFAULT_BATCH_SIZE, 100);
    let c = c.with_batch_size(7);
    assert_eq!(c.batch_size, 7);
    assert_eq!(c.name, "orders");
}

#[test]
fn schema_versions_parse_as_i32() {
    assert!(matches!(check_schema_version(Some("1")), Ok(false)));
    assert!(matches!(check_schema_version(Some("+1")), Ok(false)));
    assert!(matches!(check_schema_version(Some("-2")), Err(Error::Schema(m)) if m.contains("version -2")));
    assert!(matches!(check_schema_version(Some("2147483648")), Err(Error::Schema(m)) if m == "telemetry schema version is invalid"));
    assert!(matches!(check_schema_version(Some("-2147483648")), Err(Error::Schema(m)) if m.contains("version -2147483648")));
    for bad in ["", "-", "+", " 1", "1a", "99999999999"] {
        assert!(matches!(check_schema_version(Some(bad)), Err(Error::Schema(m)) if m == "telemetry schema version is invalid"));
    }
}
