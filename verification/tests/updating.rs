use stream_schema::diff::{handle_diff_schema, DiffRequest, DiffStep, PublishingPending};
use stream_schema::field::{DataType, Field};
use stream_schema::schema::{Schema, SchemaCache, StreamSchemaMap};
use stream_schema::settings::{SchemaConfig, StreamId, StreamSettings, StreamType};

fn text(s: &str) -> String {
    s.to_string()
}

fn config(retries: usize, max: usize) -> SchemaConfig {
    SchemaConfig {
        skip_schema_validation: false,
        widening_schema_evolution: true,
        allow_user_defined_schemas: true,
        column_timestamp: text("_timestamp"),
        column_all: text("_all"),
        id_column: text("_o2_id"),
        original_column: text("_original"),
        metadata_label: text("prom_metadata"),
        full_text_search_fields: vec![text("log")],
        req_cols_per_record_limit: 1000,
        udschema_max_fields: max,
        meta_transaction_retries: retries,
    }
}

fn columns(count: usize) -> Schema {
    Schema::new(
        (0..count)
            .map(|i| Field::new(&format!("c{i}"), DataType::Int64, true))
            .collect(),
    )
}

fn request(is_new: bool) -> DiffRequest {
    DiffRequest {
        stream: StreamId {
            org_id: text("nexus"),
            stream_type: StreamType::Logs,
            stream_name: text("Sample"),
        },
        is_new,
        inferred_schema: columns(2),
        record_ts: -1234234234234,
    }
}

fn publication(step: DiffStep<String>) -> PublishingPending {
    match step {
        DiffStep::Publish(pending) => pending,
        _ => panic!("the caches are due"),
    }
}

#[test]
fn new_stream_is_put_at_hand_at_once() {
    let mut map = StreamSchemaMap::new();
    let step: DiffStep<String> = handle_diff_schema(&request(true), &mut map, &config(3, 0));
    assert!(matches!(step, DiffStep::Merge(p) if p.retries == 0));
    let schema = map.get("Sample").unwrap().schema();
    assert!(schema.same_columns(&columns(2)));
    assert_eq!(schema.metadata.get("created_at"), Some(&text("-1234234234234")));
    assert_eq!(schema.metadata.entries().len(), 1);
}

#[test]
fn known_stream_is_left_as_it_is_at_first() {
    let mut map = StreamSchemaMap::new();
    let _: DiffStep<String> = handle_diff_schema(&request(false), &mut map, &config(3, 0));
    assert!(!map.contains_key("Sample"));
}

#[test]
fn failed_merges_are_tried_up_to_the_limit() {
    let mut map = StreamSchemaMap::new();
    let cfg = config(3, 0);
    let update = request(false);
    let mut step: DiffStep<String> = handle_diff_schema(&update, &mut map, &cfg);
    let mut attempts = 0;
    let outcome = loop {
        step = match step {
            DiffStep::Merge(pending) => {
                assert_eq!(pending.retries, attempts);
                attempts += 1;
                pending.merged(Err(format!("failure {attempts}")), &update, &cfg)
            }
            DiffStep::Done(outcome) => break outcome,
            _ => panic!("no other call is due"),
        };
    };
    assert_eq!(attempts, 3);
    assert_eq!(outcome.unwrap_err(), "failure 3");
}

#[test]
fn no_attempt_is_made_where_none_is_allowed() {
    let mut map = StreamSchemaMap::new();
    let step: DiffStep<String> = handle_diff_schema(&request(false), &mut map, &config(0, 0));
    assert!(matches!(step, DiffStep::Done(Ok(None))));
}

#[test]
fn merge_without_a_change_ends_the_update() {
    let mut map = StreamSchemaMap::new();
    let cfg = config(3, 0);
    let update = request(true);
    let step: DiffStep<String> = handle_diff_schema(&update, &mut map, &cfg);
    let step: DiffStep<String> = match step {
        DiffStep::Merge(pending) => pending.merged(Err(text("once")), &update, &cfg),
        _ => panic!("a merge is due"),
    };
    let step: DiffStep<String> = match step {
        DiffStep::Merge(pending) => pending.merged(Ok(None), &update, &cfg),
        _ => panic!("a merge is due"),
    };
    assert!(matches!(step, DiffStep::Done(Ok(None))));
}

#[test]
fn new_stream_gets_an_owner_and_ends_up_at_hand() {
    let mut map = StreamSchemaMap::new();
    map.insert(text("other"), SchemaCache::new(columns(1)));
    let cfg = config(3, 0);
    let update = request(true);
    let step: DiffStep<String> = handle_diff_schema(&update, &mut map, &cfg);
    let step: DiffStep<String> = match step {
        DiffStep::Merge(pending) => {
            let delta = vec![Field::new("c1", DataType::Utf8, true)];
            pending.merged(Ok(Some((columns(40), delta))), &update, &cfg)
        }
        _ => panic!("a merge is due"),
    };
    let step: DiffStep<String> = match step {
        DiffStep::SetOwnership(pending) => pending.owned(),
        _ => panic!("an owner is due"),
    };
    let step: DiffStep<String> = match step {
        DiffStep::ReadSettings(pending) => pending.settings_read(None, &update, &cfg),
        _ => panic!("the settings are due"),
    };
    let pending = publication(step);
    assert_eq!(pending.cache_key, "nexus/logs/Sample");
    assert!(!pending.needs_record_ids());
    assert!(pending.schema.schema().same_columns(&columns(40)));
    let step: DiffStep<String> = pending.published(&update, &mut map, &cfg);
    match step {
        DiffStep::Done(Ok(Some(evolution))) => {
            assert!(evolution.is_schema_changed);
            assert_eq!(
                evolution.types_delta,
                Some(vec![Field::new("c1", DataType::Utf8, true)])
            );
        }
        _ => panic!("the update is over"),
    }
    assert!(map.get("Sample").unwrap().schema().same_columns(&columns(40)));
    assert!(map.get("other").unwrap().schema().same_columns(&columns(1)));
}

#[test]
fn defined_columns_narrow_the_schema_of_the_worker_alone() {
    let mut map = StreamSchemaMap::new();
    let cfg = config(3, 5);
    let update = request(false);
    let step: DiffStep<String> = handle_diff_schema(&update, &mut map, &cfg);
    let step: DiffStep<String> = match step {
        DiffStep::Merge(pending) => {
            pending.merged(Ok(Some((columns(40), vec![]))), &update, &cfg)
        }
        _ => panic!("a merge is due"),
    };
    let settings = StreamSettings {
        defined_schema_fields: Some(vec![text("c7")]),
        store_original_data: true,
        other: text("{\"max_query_range\":2}"),
    };
    let step: DiffStep<String> = match step {
        DiffStep::ReadSettings(pending) => pending.settings_read(Some(settings), &update, &cfg),
        _ => panic!("the settings are due"),
    };
    let pending = publication(step);
    assert!(pending.needs_record_ids());
    assert_eq!(pending.schema.column_count(), 40);
    assert_eq!(pending.settings.other, "{\"max_query_range\":2}");
    let _: DiffStep<String> = pending.published(&update, &mut map, &cfg);
    let fields = &map.get("Sample").unwrap().schema().fields;
    assert_eq!(fields.len(), 1);
    assert_eq!(fields[0].name, "c7");
}

#[test]
fn log_stream_with_many_columns_is_narrowed_on_its_own() {
    let mut map = StreamSchemaMap::new();
    let cfg = config(3, 4);
    let update = request(false);
    let step: DiffStep<String> = handle_diff_schema(&update, &mut map, &cfg);
    let mut merged = columns(20);
    merged.fields.push(Field::new("log", DataType::Utf8, true));
    merged.fields.push(Field::new("_timestamp", DataType::Int64, false));
    let step: DiffStep<String> = match step {
        DiffStep::Merge(pending) => pending.merged(Ok(Some((merged, vec![]))), &update, &cfg),
        _ => panic!("a merge is due"),
    };
    let found = StreamSettings {
        defined_schema_fields: None,
        store_original_data: false,
        other: text("kept"),
    };
    let step: DiffStep<String> = match step {
        DiffStep::ReadSettings(pending) => pending.settings_read(Some(found), &update, &cfg),
        _ => panic!("the settings are due"),
    };
    let step: DiffStep<String> = match step {
        DiffStep::EncodeSettings(pending) => {
            let mut names = pending.settings.defined_fields();
            names.sort();
            assert_eq!(names, vec!["c0", "c1", "c2", "log"]);
            assert_eq!(pending.settings.other, "kept");
            pending.encoded(text("{}"))
        }
        _ => panic!("the settings are to be encoded"),
    };
    let step: DiffStep<String> = match step {
        DiffStep::SaveSettings(pending) => {
            assert_eq!(pending.schema.metadata.get("settings"), Some(&text("{}")));
            pending.saved(&update)
        }
        _ => panic!("the settings are to be saved"),
    };
    let pending = publication(step);
    assert_eq!(
        pending.schema.schema().metadata.get("settings"),
        Some(&text("{}"))
    );
    assert_eq!(pending.schema.column_count(), 22);
    let _: DiffStep<String> = pending.published(&update, &mut map, &cfg);
    let mut names: Vec<String> = map
        .get("Sample")
        .unwrap()
        .schema()
        .fields
        .iter()
        .map(|field| field.name.clone())
        .collect();
    names.sort();
    assert_eq!(names, vec!["_timestamp", "c0", "c1", "c2", "log"]);
}

#[test]
fn stream_is_not_narrowed_on_its_own_unless_all_conditions_hold() {
    let narrowed = |cfg: &SchemaConfig, stream_type: StreamType, defined: Option<Vec<String>>| {
        let mut map = StreamSchemaMap::new();
        let mut update = request(false);
        update.stream.stream_type = stream_type;
        let step: DiffStep<String> = handle_diff_schema(&update, &mut map, cfg);
        let step: DiffStep<String> = match step {
            DiffStep::Merge(pending) => {
                pending.merged(Ok(Some((columns(5), vec![]))), &update, cfg)
            }
            _ => panic!("a merge is due"),
        };
        let settings = StreamSettings {
            defined_schema_fields: defined,
            store_original_data: false,
            other: String::new(),
        };
        match step {
            DiffStep::ReadSettings(pending) => {
                let step: DiffStep<String> = pending.settings_read(Some(settings), &update, cfg);
                matches!(step, DiffStep::EncodeSettings(_))
            }
            _ => panic!("the settings are due"),
        }
    };
    assert!(narrowed(&config(3, 4), StreamType::Logs, None));
    assert!(narrowed(&config(3, 4), StreamType::Logs, Some(vec![])));
    assert!(!narrowed(&config(3, 5), StreamType::Logs, None));
    assert!(!narrowed(&config(3, 0), StreamType::Logs, None));
    assert!(!narrowed(&config(3, 4), StreamType::Other(text("metrics")), None));
    assert!(!narrowed(&config(3, 4), StreamType::Logs, Some(vec![text("c0")])));
    let mut cfg = config(3, 4);
    cfg.allow_user_defined_schemas = false;
    assert!(!narrowed(&cfg, StreamType::Logs, None));
}

/// Runs an update and gives the number of times that an owner was due, and whether a generator is
/// gained where the node has none and where it has one.
fn effects(
    is_new: bool,
    merged: Result<Option<(Schema, Vec<Field>)>, String>,
    settings: Option<StreamSettings>,
    map: &mut StreamSchemaMap,
) -> (usize, Option<(bool, bool)>) {
    let cfg = config(1, 0);
    let update = request(is_new);
    let mut merged = Some(merged);
    let mut settings = Some(settings);
    let mut owners = 0;
    let mut gains = None;
    let mut step: DiffStep<String> = handle_diff_schema(&update, map, &cfg);
    loop {
        step = match step {
            DiffStep::Merge(p) => p.merged(merged.take().unwrap(), &update, &cfg),
            DiffStep::SetOwnership(p) => {
                owners += 1;
                p.owned()
            }
            DiffStep::ReadSettings(p) => p.settings_read(settings.take().unwrap(), &update, &cfg),
            DiffStep::EncodeSettings(_) | DiffStep::SaveSettings(_) => {
                panic!("no columns are chosen")
            }
            DiffStep::Publish(p) => {
                gains = Some((p.gains_record_ids(false), p.gains_record_ids(true)));
                p.published(&update, map, &cfg)
            }
            DiffStep::Done(_) => return (owners, gains),
        };
    }
}

fn storing_originals() -> Option<StreamSettings> {
    Some(StreamSettings {
        defined_schema_fields: None,
        store_original_data: true,
        other: String::new(),
    })
}

#[test]
fn owner_is_due_once_for_a_new_stream_that_was_merged() {
    let mut map = StreamSchemaMap::new();
    let merged = || Ok(Some((columns(3), vec![])));
    assert_eq!(effects(true, merged(), None, &mut map).0, 1);
    assert_eq!(effects(false, merged(), None, &mut map).0, 0);
    assert_eq!(effects(true, Ok(None), None, &mut map).0, 0);
    assert_eq!(effects(true, Err(text("down")), None, &mut map).0, 0);
}

#[test]
fn generator_is_gained_where_originals_are_stored_and_there_is_none() {
    let mut map = StreamSchemaMap::new();
    let merged = || Ok(Some((columns(3), vec![])));
    let (_, gains) = effects(false, merged(), storing_originals(), &mut map);
    assert_eq!(gains, Some((true, false)));
    let (_, gains) = effects(false, merged(), None, &mut map);
    assert_eq!(gains, Some((false, false)));
    let (_, gains) = effects(false, Ok(None), storing_originals(), &mut map);
    assert_eq!(gains, None);
    let (_, gains) = effects(true, Err(text("down")), storing_originals(), &mut map);
    assert_eq!(gains, None);
}

#[test]
fn update_leaves_other_streams_alone() {
    let mut map = StreamSchemaMap::new();
    map.insert(text("other"), SchemaCache::new(columns(1)));
    effects(false, Ok(None), None, &mut map);
    assert!(!map.contains_key("Sample"));
    effects(true, Err(text("down")), None, &mut map);
    assert!(map.get("Sample").unwrap().schema().same_columns(&columns(2)));
    effects(false, Ok(Some((columns(3), vec![]))), None, &mut map);
    assert!(map.get("Sample").unwrap().schema().same_columns(&columns(3)));
    effects(false, Err(text("down")), None, &mut map);
    assert!(map.get("Sample").unwrap().schema().same_columns(&columns(3)));
    assert!(map.get("other").unwrap().schema().same_columns(&columns(1)));
}
