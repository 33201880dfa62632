use stream_schema::check::{check_for_schema, CheckError, CheckRequest, CheckStep};
use stream_schema::evolution::SchemaEvolution;
use stream_schema::field::{DataType, Field};
use stream_schema::metadata::Metadata;
use stream_schema::schema::{Schema, SchemaCache, StreamSchemaMap};
use stream_schema::settings::{SchemaConfig, StreamId, StreamSettings, StreamType};

fn text(s: &str) -> String {
    s.to_string()
}

fn config() -> SchemaConfig {
    SchemaConfig {
        skip_schema_validation: false,
        widening_schema_evolution: true,
        allow_user_defined_schemas: false,
        column_timestamp: text("_timestamp"),
        column_all: text("_all"),
        id_column: text("_o2_id"),
        original_column: text("_original"),
        metadata_label: text("prom_metadata"),
        full_text_search_fields: vec![],
        req_cols_per_record_limit: 100,
        udschema_max_fields: 0,
        meta_transaction_retries: 3,
    }
}

fn request(record_ts: i64) -> CheckRequest {
    CheckRequest {
        stream: StreamId {
            org_id: text("nexus"),
            stream_type: StreamType::Logs,
            stream_name: text("Sample"),
        },
        record_ts,
    }
}

fn with_schema(schema: Schema) -> StreamSchemaMap {
    let mut map = StreamSchemaMap::new();
    map.insert(text("Sample"), SchemaCache::new(schema));
    map
}

/// What the services outside answer.
struct Answers {
    loaded: Result<Schema, String>,
    inferred: Result<Schema, String>,
    column_settings: Option<StreamSettings>,
    wider: bool,
    settings: Option<StreamSettings>,
    first_update: Result<Option<SchemaEvolution>, String>,
    second_update: Result<Option<SchemaEvolution>, String>,
}

fn answers(inferred: Schema) -> Answers {
    Answers {
        loaded: Err(text("not to be loaded")),
        inferred: Ok(inferred),
        column_settings: None,
        wider: false,
        settings: None,
        first_update: Err(text("no update is due")),
        second_update: Err(text("no second update is due")),
    }
}

fn run(
    request: &CheckRequest,
    map: &mut StreamSchemaMap,
    cfg: &SchemaConfig,
    answers: Answers,
) -> Result<(SchemaEvolution, Option<Schema>), CheckError<String>> {
    let mut loaded = Some(answers.loaded);
    let mut inferred = Some(answers.inferred);
    let mut column_settings = Some(answers.column_settings);
    let mut settings = Some(answers.settings);
    let mut first_update = Some(answers.first_update);
    let mut second_update = Some(answers.second_update);
    let mut step: CheckStep<String> = check_for_schema(request, map, cfg);
    loop {
        step = match step {
            CheckStep::LoadSchema(p) => {
                let outcome = loaded.take().unwrap().map(SchemaCache::new);
                p.loaded(outcome, request, map, cfg)
            }
            CheckStep::InferSchema(p) => p.inferred(inferred.take().unwrap(), request, map, cfg),
            CheckStep::ReadColumnSettings(p) => {
                p.settings_read(column_settings.take().unwrap(), request, map, cfg)
            }
            CheckStep::JudgeWidening(p) => {
                let judged = p
                    .conflicts
                    .iter()
                    .map(|conflict| conflict.is_some() && answers.wider)
                    .collect();
                p.judged(judged, request, map)
            }
            CheckStep::ReadStreamSettings(p) => {
                p.settings_read(settings.take().unwrap(), request, map, cfg)
            }
            CheckStep::UpdateSchema(p) => {
                let update = p.request(request);
                assert_eq!(update.record_ts, request.record_ts);
                assert_eq!(update.stream.path(), request.stream.path());
                p.updated(first_update.take().unwrap())
            }
            CheckStep::UpdateLatest(p) => {
                assert_eq!(p.request(request, 77).record_ts, 77);
                assert!(p.request_from_now(request).record_ts > 1_600_000_000_000_000);
                p.updated(second_update.take().unwrap())
            }
            CheckStep::Done(outcome) => return outcome,
        };
    }
}

fn evolved(name: &str) -> SchemaEvolution {
    SchemaEvolution {
        is_schema_changed: true,
        types_delta: Some(vec![Field::new(name, DataType::Utf8, true)]),
    }
}

fn one(name: &str, data_type: DataType) -> Schema {
    Schema::new(vec![Field::new(name, data_type, true)])
}

#[test]
fn test_check_for_schema() {
    let stream_name = "Sample";
    let org_name = "nexus";
    // the columns of {"Year": 1896, "City": "Athens", "_timestamp": 1234234234234}
    let record = Schema::new(vec![
        Field::new("Year", DataType::Int64, true),
        Field::new("City", DataType::Utf8, true),
        Field::new("_timestamp", DataType::Int64, true),
    ]);
    let schema = Schema::new(vec![
        Field::new("Year", DataType::Int64, false),
        Field::new("City", DataType::Utf8, false),
        Field::new("_timestamp", DataType::Int64, false),
    ]);
    let mut map = StreamSchemaMap::new();
    map.insert(stream_name.to_string(), SchemaCache::new(schema));
    let request = CheckRequest {
        stream: StreamId {
            org_id: org_name.to_string(),
            stream_type: StreamType::Logs,
            stream_name: stream_name.to_string(),
        },
        record_ts: 1234234234234,
    };
    let (result, _) = run(&request, &mut map, &config(), answers(record)).unwrap();
    assert!(!result.is_schema_changed);
}

#[test]
fn same_columns_pass_at_once() {
    let mut map = with_schema(one("a", DataType::Int64));
    let (evolution, inferred) = run(
        &request(1),
        &mut map,
        &config(),
        answers(one("a", DataType::Int64)),
    )
    .unwrap();
    assert!(!evolution.is_schema_changed);
    assert!(evolution.types_delta.is_none());
    assert!(inferred.is_none());
}

#[test]
fn validation_may_be_skipped_for_streams_with_columns() {
    let mut cfg = config();
    cfg.skip_schema_validation = true;
    let mut map = with_schema(one("a", DataType::Int64));
    let (evolution, inferred) =
        run(&request(1), &mut map, &cfg, answers(one("b", DataType::Int64))).unwrap();
    assert!(!evolution.is_schema_changed && inferred.is_none());

    let mut map = with_schema(Schema::new(vec![]));
    let mut given = answers(one("b", DataType::Int64));
    given.first_update = Ok(Some(evolved("b")));
    let (evolution, inferred) = run(&request(1), &mut map, &cfg, given).unwrap();
    assert!(evolution.is_schema_changed && inferred.is_some());
}

#[test]
fn stream_is_loaded_where_it_is_not_at_hand() {
    let mut map = StreamSchemaMap::new();
    let mut given = answers(one("a", DataType::Int64));
    given.loaded = Ok(one("a", DataType::Int64));
    let (evolution, _) = run(&request(1), &mut map, &config(), given).unwrap();
    assert!(!evolution.is_schema_changed);
    assert!(map.contains_key("Sample"));

    let mut map = StreamSchemaMap::new();
    let mut given = answers(one("a", DataType::Int64));
    given.loaded = Err(text("gone"));
    let error = run(&request(1), &mut map, &config(), given).unwrap_err();
    assert!(matches!(error, CheckError::Outside(e) if e == "gone"));
    assert!(!map.contains_key("Sample"));
}

#[test]
fn failed_inference_is_handed_on() {
    let mut map = with_schema(one("a", DataType::Int64));
    let mut given = answers(one("a", DataType::Int64));
    given.inferred = Err(text("mixed types"));
    let error = run(&request(1), &mut map, &config(), given).unwrap_err();
    assert!(matches!(error, CheckError::Outside(e) if e == "mixed types"));
}

#[test]
fn too_many_columns_are_refused() {
    let mut cfg = config();
    cfg.req_cols_per_record_limit = 1;
    let records = Schema::new(vec![
        Field::new("a", DataType::Int64, true),
        Field::new("b", DataType::Int64, true),
    ]);
    let mut map = with_schema(one("a", DataType::Int64));
    let error = run(&request(1), &mut map, &cfg, answers(records.clone())).unwrap_err();
    match error {
        CheckError::TooManyColumns(message) => assert_eq!(
            message,
            "Got 2 columns for stream nexus/logs/Sample, only 1 columns accept. Data discarded. You can adjust ingestion columns limit by setting the environment variable ZO_COLS_PER_RECORD_LIMIT=<max_columns>"
        ),
        CheckError::Outside(_) => panic!("the columns are too many"),
    }
    let mut map = with_schema(records.clone());
    assert!(run(&request(1), &mut map, &cfg, answers(records)).is_ok());
}

#[test]
fn new_column_updates_the_schema() {
    let mut map = with_schema(one("a", DataType::Int64));
    let mut given = answers(one("b", DataType::Int64));
    given.first_update = Ok(Some(evolved("b")));
    let (evolution, inferred) = run(&request(1), &mut map, &config(), given).unwrap();
    assert!(evolution.is_schema_changed);
    assert_eq!(
        evolution.types_delta,
        Some(vec![Field::new("b", DataType::Utf8, true)])
    );
    assert_eq!(inferred, Some(one("b", DataType::Int64)));
}

#[test]
fn update_that_found_nothing_to_do_tells_of_no_change() {
    let mut map = with_schema(one("a", DataType::Int64));
    let mut given = answers(one("b", DataType::Int64));
    given.first_update = Ok(None);
    let (evolution, inferred) = run(&request(1), &mut map, &config(), given).unwrap();
    assert!(!evolution.is_schema_changed);
    assert!(evolution.types_delta.is_none());
    assert!(inferred.is_some());
}

#[test]
fn failed_update_is_handed_on() {
    let mut map = with_schema(one("a", DataType::Int64));
    let mut given = answers(one("b", DataType::Int64));
    given.first_update = Err(text("locked"));
    let error = run(&request(1), &mut map, &config(), given).unwrap_err();
    assert!(matches!(error, CheckError::Outside(e) if e == "locked"));
}

#[test]
fn types_that_do_not_widen_are_told_without_an_update() {
    let mut map = with_schema(one("a", DataType::Int64));
    let (evolution, inferred) = run(
        &request(1),
        &mut map,
        &config(),
        answers(one("a", DataType::Utf8)),
    )
    .unwrap();
    assert!(!evolution.is_schema_changed);
    let delta = evolution.types_delta.unwrap();
    assert_eq!(delta[0].metadata.get("zo_cast"), Some(&text("true")));
    assert_eq!(inferred, Some(one("a", DataType::Utf8)));

    let mut cfg = config();
    cfg.widening_schema_evolution = false;
    let mut given = answers(one("a", DataType::Utf8));
    given.wider = true;
    let (evolution, _) = run(&request(1), &mut map, &cfg, given).unwrap();
    assert_eq!(
        evolution.types_delta,
        Some(vec![Field::new("a", DataType::Int64, true)])
    );
}

fn versioned(start_dt: &str) -> Schema {
    let mut metadata = Metadata::new();
    metadata.insert(text("start_dt"), text(start_dt));
    one("a", DataType::Int64).with_metadata(metadata)
}

/// Whether records of that time with a wider type lead to a second update.
fn updates_twice(
    schema: Schema,
    record_ts: i64,
    second: Result<Option<SchemaEvolution>, String>,
) -> bool {
    let fails = second.is_err();
    let mut map = with_schema(schema);
    let mut given = answers(one("a", DataType::Float64));
    given.wider = true;
    given.first_update = Ok(Some(evolved("a")));
    given.second_update = second;
    match run(&request(record_ts), &mut map, &config(), given) {
        Ok((evolution, inferred)) => {
            assert!(evolution.is_schema_changed && inferred.is_some());
            assert_eq!(
                evolution.types_delta,
                Some(vec![Field::new("a", DataType::Utf8, true)])
            );
            !fails
        }
        Err(error) => {
            assert!(matches!(error, CheckError::Outside(e) if e == "second"));
            true
        }
    }
}

#[test]
fn late_records_update_the_schema_twice() {
    let second = || Err(text("second"));
    assert!(updates_twice(versioned("50"), 49, second()));
    assert!(!updates_twice(versioned("50"), 50, second()));
    assert!(!updates_twice(versioned("50"), 51, second()));
    assert!(updates_twice(versioned("+50"), 49, second()));
    assert!(!updates_twice(versioned("+50"), 50, second()));
    assert!(updates_twice(versioned("-5"), -6, second()));
    assert!(!updates_twice(versioned("-5"), -5, second()));
    assert!(!updates_twice(one("a", DataType::Int64), -50, second()));
    assert!(updates_twice(versioned("50"), 49, Ok(Some(evolved("z")))));
}

#[test]
fn version_without_a_number_starts_at_zero() {
    let second = || Err(text("second"));
    for start in ["", "-", "+", "5 ", "1_0", "0x5", "9223372036854775808", "five"] {
        assert!(updates_twice(versioned(start), -1, second()));
        assert!(!updates_twice(versioned(start), 0, second()));
    }
    assert!(updates_twice(versioned("9223372036854775807"), i64::MAX - 1, second()));
    assert!(!updates_twice(versioned("9223372036854775807"), i64::MAX, second()));
    assert!(!updates_twice(versioned("-9223372036854775808"), i64::MIN, second()));
    assert!(updates_twice(versioned("-9223372036854775807"), i64::MIN, second()));
    assert!(!updates_twice(versioned("-9223372036854775809"), 0, second()));
    assert!(updates_twice(versioned("-9223372036854775809"), -1, second()));
}

#[test]
fn late_records_without_a_conflict_update_the_schema_once() {
    let mut map = with_schema(versioned("50"));
    let mut given = answers(one("b", DataType::Int64));
    given.first_update = Ok(Some(evolved("b")));
    assert!(run(&request(1), &mut map, &config(), given).is_ok());
}

#[test]
fn defined_columns_narrow_the_schema_at_hand() {
    let fields: Vec<Field> = (0..20)
        .map(|i| Field::new(&format!("c{i}"), DataType::Int64, true))
        .collect();
    let mut map = with_schema(Schema::new(fields));
    map.insert(text("other"), SchemaCache::new(one("a", DataType::Int64)));
    let mut given = answers(one("c3", DataType::Int64));
    given.settings = Some(StreamSettings {
        defined_schema_fields: Some(vec![text("c3"), text("c4")]),
        store_original_data: false,
        other: String::new(),
    });
    let (evolution, inferred) = run(&request(1), &mut map, &config(), given).unwrap();
    assert!(!evolution.is_schema_changed);
    assert_eq!(evolution.types_delta, Some(vec![]));
    assert!(inferred.is_some());
    let schema = map.get("Sample").unwrap();
    assert_eq!(schema.column_count(), 2);
    assert!(schema.get(&text("c3")).is_some() && schema.get(&text("c4")).is_some());
    assert_eq!(map.get("other").unwrap().column_count(), 1);
}

#[test]
fn settings_in_the_metadata_say_which_columns_count() {
    let schema = Schema::new(vec![
        Field::new("a", DataType::Int64, true),
        Field::new("b", DataType::Int64, true),
    ]);
    let mut map = with_schema(schema);
    let mut given = answers(one("a", DataType::Float64));
    given.wider = true;
    given.column_settings = Some(StreamSettings {
        defined_schema_fields: Some(vec![text("b")]),
        store_original_data: false,
        other: String::new(),
    });
    let (evolution, _) = run(&request(1), &mut map, &config(), given).unwrap();
    assert!(!evolution.is_schema_changed);
    assert_eq!(evolution.types_delta, Some(vec![]));
}

#[test]
fn checked_stream_is_at_hand_and_others_are_left_alone() {
    let mut map = StreamSchemaMap::new();
    map.insert(text("other"), SchemaCache::new(one("b", DataType::Int64)));
    let records = || one("a", DataType::Int64);

    let refused = run(&request(5), &mut map, &config(), answers(records()));
    assert!(matches!(refused, Err(CheckError::Outside(e)) if e == "not to be loaded"));
    assert!(!map.contains_key("Sample"));

    let mut given = answers(records());
    given.loaded = Ok(one("a", DataType::Int64));
    assert!(run(&request(5), &mut map, &config(), given).is_ok());
    assert!(map.get("Sample").unwrap().schema().same_columns(&records()));

    let failed = run(&request(5), &mut map, &config(), answers(one("c", DataType::Utf8)));
    assert!(matches!(failed, Err(CheckError::Outside(e)) if e == "no update is due"));
    assert!(map.get("Sample").unwrap().schema().same_columns(&records()));
    assert!(map
        .get("other")
        .unwrap()
        .schema()
        .same_columns(&one("b", DataType::Int64)));
}

#[test]
fn refused_records_leave_the_schema_at_hand() {
    let mut map = with_schema(one("a", DataType::Int64));
    let mut cfg = config();
    cfg.req_cols_per_record_limit = 1;
    let records = Schema::new(vec![
        Field::new("a", DataType::Int64, true),
        Field::new("b", DataType::Int64, true),
    ]);
    let refused = run(&request(5), &mut map, &cfg, answers(records));
    assert!(matches!(refused, Err(CheckError::TooManyColumns(_))));
    let schema = map.get("Sample").unwrap().schema();
    assert!(schema.same_columns(&one("a", DataType::Int64)));
}
