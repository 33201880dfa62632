use stream_schema::existence::{
    check_schema, checked_stream_schema_exists, stream_schema_exists, StreamSchemaChk,
};
use stream_schema::field::{DataType, Field};
use stream_schema::metadata::Metadata;
use stream_schema::schema::{Schema, SchemaCache, StreamSchemaMap};
use stream_schema::settings::SchemaConfig;

fn text(s: &str) -> String {
    s.to_string()
}

fn config() -> SchemaConfig {
    SchemaConfig {
        skip_schema_validation: false,
        widening_schema_evolution: true,
        allow_user_defined_schemas: false,
        column_timestamp: text("_timestamp"),
        column_all: text("_all"),
        id_column: text("_o2_id"),
        original_column: text("_original"),
        metadata_label: text("prom_metadata"),
        full_text_search_fields: vec![],
        req_cols_per_record_limit: 1000,
        udschema_max_fields: 0,
        meta_transaction_retries: 3,
    }
}

fn schema(entries: &[(&str, &str)]) -> Schema {
    let mut metadata = Metadata::new();
    for (key, value) in entries {
        metadata.insert(key.to_string(), value.to_string());
    }
    Schema::new(vec![Field::new("a", DataType::Int64, false)]).with_metadata(metadata)
}

fn ask(schema: Schema) -> Option<StreamSchemaChk> {
    let mut map = StreamSchemaMap::new();
    checked_stream_schema_exists("s", &mut map, Some(schema), &config())
}

#[test]
fn empty_schema_has_nothing() {
    assert_eq!(
        ask(Schema::new(vec![])),
        Some(StreamSchemaChk {
            conforms: true,
            has_fields: false,
            has_partition_keys: false,
            has_metadata: false,
        })
    );
}

#[test]
fn partition_keys_are_found_in_the_settings() {
    let check = ask(schema(&[("settings", r#"{"partition_keys": {"L0": null}}"#)])).unwrap();
    assert!(check.conforms && check.has_fields && check.has_partition_keys && !check.has_metadata);
    let check = ask(schema(&[("settings", r#"{"partition_keys": null}"#)])).unwrap();
    assert!(check.has_partition_keys);
    let check = ask(schema(&[("settings", r#"{"other": "partition_keys"}"#)])).unwrap();
    assert!(!check.has_partition_keys);
    let check = ask(schema(&[("settings", r#"["partition_keys"]"#)])).unwrap();
    assert!(!check.has_partition_keys);
}

#[test]
fn metric_metadata_is_found() {
    let check = ask(schema(&[("prom_metadata", "x")])).unwrap();
    assert!(check.has_metadata && !check.has_partition_keys);
}

#[test]
fn unreadable_settings_have_no_answer_but_are_put_at_hand() {
    let mut map = StreamSchemaMap::new();
    let loaded = Some(schema(&[("settings", "{partition_keys}")]));
    assert_eq!(
        checked_stream_schema_exists("s", &mut map, loaded, &config()),
        None
    );
    assert!(map.contains_key("s"));
}

#[test]
fn stream_at_hand_is_not_loaded() {
    let mut map = StreamSchemaMap::new();
    map.insert(text("s"), SchemaCache::new(Schema::new(vec![])));
    let check = stream_schema_exists("s", &mut map, Some(schema(&[])), &config());
    assert!(!check.has_fields);
    assert_eq!(map.get("s").unwrap().schema().fields.len(), 0);
}

#[test]
fn second_answer_is_the_same() {
    let mut map = StreamSchemaMap::new();
    let stored = schema(&[("settings", r#"{"partition_keys": []}"#), ("prom_metadata", "x")]);
    let first = stream_schema_exists("s", &mut map, Some(stored), &config());
    assert!(map.contains_key("s"));
    let second = stream_schema_exists("s", &mut map, None, &config());
    assert_eq!(first, second);
    assert!(first.has_fields && first.has_partition_keys && first.has_metadata);
}

#[test]
fn settings_may_be_given_as_a_value() {
    let value = serde_json::from_str(r#"{"partition_keys": 1}"#).unwrap();
    assert!(check_schema(&schema(&[]), &Some(value), "prom_metadata").has_partition_keys);
    assert!(!check_schema(&schema(&[]), &None, "prom_metadata").has_partition_keys);
}
