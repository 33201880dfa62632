use stream_schema::diff::{get_merged_schema, MergeChanges};
use stream_schema::evolution::{get_schema_changes, type_conflicts};
use stream_schema::field::{DataType, Field};
use stream_schema::metadata::Metadata;
use stream_schema::schema::{Schema, SchemaCache};
use stream_schema::settings::StreamSettings;

fn text(s: &str) -> String {
    s.to_string()
}

fn stream() -> SchemaCache {
    SchemaCache::new(Schema::new(vec![
        Field::new("year", DataType::Int64, false),
        Field::new("city", DataType::Utf8, false),
        Field::new("flag", DataType::Boolean, true),
    ]))
}

fn defining(names: &[&str]) -> Option<StreamSettings> {
    Some(StreamSettings {
        defined_schema_fields: Some(names.iter().map(|name| name.to_string()).collect()),
        store_original_data: false,
        other: String::new(),
    })
}

fn records() -> Schema {
    Schema::new(vec![
        Field::new("flag", DataType::Int64, true),
        Field::new("city", DataType::Utf8, true),
        Field::new("year", DataType::Float64, true),
    ])
}

#[test]
fn fitting_columns_change_nothing() {
    let fitting = Schema::new(vec![
        Field::new("city", DataType::Utf8, true),
        Field::new("year", DataType::Int64, true),
    ]);
    for widening in [None, Some(vec![true, true]), Some(vec![false, false])] {
        let (changed, delta) = get_schema_changes(&stream(), &fitting, &None, &widening);
        assert!(!changed);
        assert_eq!(delta, vec![]);
    }
}

#[test]
fn new_column_changes_the_schema() {
    let more = Schema::new(vec![
        Field::new("city", DataType::Utf8, true),
        Field::new("country", DataType::Utf8, true),
    ]);
    let (changed, delta) = get_schema_changes(&stream(), &more, &None, &None);
    assert!(changed);
    assert_eq!(delta, vec![]);
    let (changed, _) = get_schema_changes(&stream(), &more, &defining(&["year"]), &None);
    assert!(changed);
}

#[test]
fn conflicts_keep_the_types_of_the_stream_where_types_do_not_widen() {
    let (changed, delta) = get_schema_changes(&stream(), &records(), &None, &None);
    assert!(!changed);
    assert_eq!(
        delta,
        vec![
            Field::new("flag", DataType::Boolean, true),
            Field::new("year", DataType::Int64, false),
        ]
    );
}

#[test]
fn wider_types_change_the_schema_and_others_are_marked() {
    let widening = Some(vec![false, false, true]);
    let (changed, delta) = get_schema_changes(&stream(), &records(), &None, &widening);
    assert!(changed);
    let mut marked = Field::new("flag", DataType::Boolean, true);
    marked.metadata.insert(text("zo_cast"), text("true"));
    assert_eq!(
        delta,
        vec![marked, Field::new("year", DataType::Float64, true)]
    );
}

#[test]
fn types_that_do_not_widen_leave_the_schema() {
    let widening = Some(vec![false, false, false]);
    let (changed, delta) = get_schema_changes(&stream(), &records(), &None, &widening);
    assert!(!changed);
    assert_eq!(delta.len(), 2);
    assert_eq!(delta[1].data_type, DataType::Int64);
    assert_eq!(delta[1].metadata.get("zo_cast"), Some(&text("true")));
}

#[test]
fn only_defined_columns_count() {
    let setting = defining(&["year"]);
    let (changed, delta) = get_schema_changes(&stream(), &records(), &setting, &None);
    assert!(!changed);
    assert_eq!(delta, vec![Field::new("year", DataType::Int64, false)]);
    let setting = defining(&[]);
    let (_, delta) = get_schema_changes(&stream(), &records(), &setting, &None);
    assert_eq!(delta.len(), 2);
}

#[test]
fn conflicts_are_listed_with_the_types_of_the_stream() {
    assert_eq!(
        type_conflicts(&stream(), &records(), &None),
        vec![Some(DataType::Boolean), None, Some(DataType::Int64)]
    );
    assert_eq!(
        type_conflicts(&stream(), &records(), &defining(&["flag"])),
        vec![Some(DataType::Boolean), None, None]
    );
}

#[test]
fn merging_keeps_the_metadata_of_the_stored_schema() {
    let mut metadata = Metadata::new();
    metadata.insert(text("start_dt"), text("7"));
    let stored = Schema::new(vec![Field::new("a", DataType::Int64, false)]).with_metadata(metadata);
    let merged_fields = vec![
        Field::new("a", DataType::Float64, false),
        Field::new("b", DataType::Utf8, true),
    ];
    let (delta, schema) = get_merged_schema(
        stored.clone(),
        MergeChanges {
            is_schema_changed: true,
            field_datatype_delta: vec![Field::new("a", DataType::Float64, false)],
            merged_fields: merged_fields.clone(),
        },
    )
    .unwrap();
    assert_eq!(delta, vec![Field::new("a", DataType::Float64, false)]);
    assert_eq!(schema.fields, merged_fields);
    assert_eq!(schema.metadata.get("start_dt"), Some(&text("7")));
    assert_eq!(schema.metadata.entries().len(), 1);

    let unchanged = get_merged_schema(
        stored,
        MergeChanges {
            is_schema_changed: false,
            field_datatype_delta: vec![],
            merged_fields: vec![],
        },
    );
    assert!(unchanged.is_none());
}
