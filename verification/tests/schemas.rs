use stream_schema::errors::{get_request_columns_limit_error, get_upto_discard_error};
use stream_schema::field::{DataType, Field, TimeUnit, UnionMode};
use stream_schema::metadata::Metadata;
use stream_schema::schema::{Schema, SchemaCache, StreamSchemaMap};
use stream_schema::settings::{StreamId, StreamSettings, StreamType};
use stream_schema::text::{i64_text, usize_text};

fn text(s: &str) -> String {
    s.to_string()
}

#[test]
fn later_column_of_a_name_wins() {
    let cache = SchemaCache::new(Schema::new(vec![
        Field::new("a", DataType::Int64, false),
        Field::new("b", DataType::Utf8, false),
        Field::new("a", DataType::Boolean, true),
    ]));
    assert_eq!(cache.column_count(), 2);
    assert_eq!(
        cache.get(&text("a")),
        Some(&Field::new("a", DataType::Boolean, true))
    );
    assert!(cache.get(&text("c")).is_none());
    let copy = cache.clone();
    assert_eq!(copy.schema(), cache.schema());
    assert_eq!(copy.column_count(), 2);
}

#[test]
fn metadata_holds_one_value_for_each_key() {
    let mut metadata = Metadata::new();
    metadata.insert(text("k"), text("1"));
    metadata.insert(text("l"), text("2"));
    metadata.insert(text("k"), text("3"));
    assert_eq!(metadata.get("k"), Some(&text("3")));
    assert_eq!(metadata.get("l"), Some(&text("2")));
    assert_eq!(metadata.get("m"), None);
    assert_eq!(metadata.entries().len(), 2);
    assert!(metadata.contains_key("l"));
    assert!(!metadata.contains_key("m"));

    let mut other = Metadata::new();
    other.insert(text("l"), text("2"));
    assert!(!metadata.same(&other));
    other.insert(text("k"), text("3"));
    assert!(metadata.same(&other));
    assert!(metadata.same(&metadata.clone()));
    other.insert(text("k"), text("4"));
    assert!(!metadata.same(&other));
}

#[test]
fn types_are_compared_down_to_nested_columns() {
    let list = |name: &str| DataType::List(Box::new(Field::new(name, DataType::Int64, true)));
    assert_eq!(list("item"), list("item"));
    assert_ne!(list("item"), list("element"));
    assert_ne!(list("item"), DataType::Int64);
    assert_ne!(DataType::Int64, DataType::UInt64);
    assert_eq!(
        DataType::Timestamp(TimeUnit::Microsecond, Some(text("UTC"))),
        DataType::Timestamp(TimeUnit::Microsecond, Some(text("UTC")))
    );
    assert_ne!(
        DataType::Timestamp(TimeUnit::Microsecond, Some(text("UTC"))),
        DataType::Timestamp(TimeUnit::Microsecond, None)
    );
    assert_ne!(
        DataType::Timestamp(TimeUnit::Microsecond, None),
        DataType::Timestamp(TimeUnit::Second, None)
    );
    assert_ne!(DataType::Decimal128(10, 2), DataType::Decimal128(10, 3));
    assert_ne!(DataType::Decimal128(10, 2), DataType::Decimal256(10, 2));
    let record = |nullable: bool| {
        DataType::Struct(vec![
            Field::new("x", DataType::Float64, false),
            Field::new("y", list("item"), nullable),
        ])
    };
    assert_eq!(record(true), record(true).clone());
    assert_ne!(record(true), record(false));
    let union = |tag: i8| {
        DataType::Union(
            vec![(0, Field::new("a", DataType::Utf8, true)), (tag, Field::new("b", record(true), true))],
            UnionMode::Dense,
        )
    };
    assert_eq!(union(1), union(1).clone());
    assert_ne!(union(1), union(2));
    let dictionary = |value: DataType| {
        DataType::Dictionary(Box::new(DataType::Int32), Box::new(value))
    };
    assert_eq!(dictionary(DataType::Utf8), dictionary(DataType::Utf8).clone());
    assert_ne!(dictionary(DataType::Utf8), dictionary(DataType::LargeUtf8));
}

#[test]
fn columns_are_compared_with_their_metadata() {
    let plain = Field::new("a", DataType::Int64, false);
    let mut marked = plain.clone();
    marked.metadata.insert(text("zo_cast"), text("true"));
    assert_ne!(plain, marked);
    assert_eq!(marked, marked.clone());
    assert_ne!(plain, Field::new("a", DataType::Int64, true));
}

#[test]
fn schema_metadata_does_not_count_among_columns() {
    let mut metadata = Metadata::new();
    metadata.insert(text("k"), text("v"));
    let bare = Schema::new(vec![Field::new("a", DataType::Int64, false)]);
    let full = bare.clone().with_metadata(metadata);
    assert!(bare.same_columns(&full));
    assert_ne!(bare, full);
    assert!(full.contains_column(&text("a")));
    assert!(!full.contains_column(&text("b")));
}

#[test]
fn streams_are_kept_apart() {
    let mut map = StreamSchemaMap::new();
    assert!(!map.contains_key("s"));
    map.insert(text("s"), SchemaCache::new(Schema::new(vec![])));
    map.insert(
        text("t"),
        SchemaCache::new(Schema::new(vec![Field::new("a", DataType::Int64, false)])),
    );
    assert_eq!(map.get("s").unwrap().schema().fields.len(), 0);
    assert_eq!(map.get("t").unwrap().schema().fields.len(), 1);
    assert!(map.get("u").is_none());
}

#[test]
fn stream_path_joins_organization_kind_and_name() {
    let mut stream = StreamId {
        org_id: text("nexus"),
        stream_type: StreamType::Logs,
        stream_name: text("Sample"),
    };
    assert_eq!(stream.path(), "nexus/logs/Sample");
    stream.stream_type = StreamType::Other(text("metrics"));
    assert_eq!(stream.clone().path(), "nexus/metrics/Sample");
}

#[test]
fn settings_default_to_nothing_defined() {
    let settings = StreamSettings::default();
    assert!(settings.defined_schema_fields.is_none());
    assert!(!settings.store_original_data);
    assert_eq!(settings.defined_fields(), Vec::<String>::new());
    let some = StreamSettings {
        defined_schema_fields: Some(vec![text("a"), text("b")]),
        store_original_data: true,
        other: text("{}"),
    };
    assert_eq!(some.clone().defined_fields(), vec![text("a"), text("b")]);
}

#[test]
fn message_for_old_data() {
    assert_eq!(
        get_upto_discard_error(5),
        "Too old data, only last 5 hours data can be ingested. Data discarded. You can adjust ingestion max time by setting the environment variable ZO_INGEST_ALLOWED_UPTO=<max_hours>"
    );
    assert_eq!(
        get_upto_discard_error(-12),
        "Too old data, only last -12 hours data can be ingested. Data discarded. You can adjust ingestion max time by setting the environment variable ZO_INGEST_ALLOWED_UPTO=<max_hours>"
    );
}

#[test]
fn message_for_too_many_columns() {
    assert_eq!(
        get_request_columns_limit_error("nexus/logs/Sample", 1203, 1000),
        "Got 1203 columns for stream nexus/logs/Sample, only 1000 columns accept. Data discarded. You can adjust ingestion columns limit by setting the environment variable ZO_COLS_PER_RECORD_LIMIT=<max_columns>"
    );
}

fn dictionary(name: &str, dict_id: i64, dict_is_ordered: bool) -> Field {
    let coded = DataType::Dictionary(Box::new(DataType::Int32), Box::new(DataType::Utf8));
    let mut field = Field::new(name, coded, true);
    field.dict_id = dict_id;
    field.dict_is_ordered = dict_is_ordered;
    field
}

#[test]
fn dictionaries_are_kept_but_not_compared() {
    let plain = Field::new("a", DataType::Int64, true);
    assert_eq!(plain.dict_id, 0);
    assert!(!plain.dict_is_ordered);

    let first = dictionary("a", 3, true);
    let second = dictionary("a", 4, false);
    assert_eq!(first, second);
    assert_ne!(first, dictionary("b", 3, true));
    assert_eq!(
        DataType::List(Box::new(dictionary("a", 3, true))),
        DataType::List(Box::new(dictionary("a", 4, false)))
    );
    assert!(Schema::new(vec![dictionary("a", 3, true)])
        .same_columns(&Schema::new(vec![dictionary("a", 4, false)])));

    let copy = first.duplicate();
    assert_eq!(copy.dict_id, 3);
    assert!(copy.dict_is_ordered);
    let cache = SchemaCache::new(Schema::new(vec![first, second]));
    let later = cache.get(&text("a")).unwrap();
    assert_eq!(later.dict_id, 4);
    assert!(!later.dict_is_ordered);
}

#[test]
fn numbers_are_written_in_decimal() {
    assert_eq!(i64_text(0), "0");
    assert_eq!(i64_text(7), "7");
    assert_eq!(i64_text(-10), "-10");
    assert_eq!(i64_text(1_600_000_000_000_042), "1600000000000042");
    assert_eq!(i64_text(i64::MAX), "9223372036854775807");
    assert_eq!(i64_text(i64::MIN), "-9223372036854775808");
    assert_eq!(usize_text(0), "0");
    assert_eq!(usize_text(1000), "1000");
    assert_eq!(usize_text(usize::MAX), format!("{}", usize::MAX));
}
