use stream_schema::field::{DataType, Field};
use stream_schema::metadata::Metadata;
use stream_schema::narrowing::{
    choose_defined_fields, generate_schema_for_defined_schema_fields, select_columns,
};
use stream_schema::schema::{Schema, SchemaCache};
use stream_schema::settings::SchemaConfig;

fn text(s: &str) -> String {
    s.to_string()
}

fn config(searched: &[&str], max: usize) -> SchemaConfig {
    SchemaConfig {
        skip_schema_validation: false,
        widening_schema_evolution: true,
        allow_user_defined_schemas: true,
        column_timestamp: text("_timestamp"),
        column_all: text("_all"),
        id_column: text("_o2_id"),
        original_column: text("_original"),
        metadata_label: text("prom_metadata"),
        full_text_search_fields: searched.iter().map(|name| name.to_string()).collect(),
        req_cols_per_record_limit: 1000,
        udschema_max_fields: max,
        meta_transaction_retries: 3,
    }
}

/// Columns c0, c1, ... and then the given ones.
fn stream(count: usize, more: &[&str]) -> SchemaCache {
    let mut fields: Vec<Field> = (0..count)
        .map(|i| Field::new(&format!("c{i}"), DataType::Int64, true))
        .collect();
    for name in more {
        fields.push(Field::new(name, DataType::Utf8, false));
    }
    let mut metadata = Metadata::new();
    metadata.insert(text("k"), text("v"));
    SchemaCache::new(Schema::new(fields).with_metadata(metadata))
}

fn names(schema: &SchemaCache) -> Vec<String> {
    let mut names: Vec<String> = schema
        .schema()
        .fields
        .iter()
        .map(|field| field.name.clone())
        .collect();
    names.sort();
    names
}

fn sorted(mut names: Vec<String>) -> Vec<String> {
    names.sort();
    names
}

#[test]
fn nothing_is_narrowed_without_defined_columns() {
    let schema = stream(30, &[]);
    let made = generate_schema_for_defined_schema_fields(&schema, &[], false, &config(&[], 0));
    assert_eq!(made.schema(), schema.schema());
}

#[test]
fn schema_is_narrowed_with_more_than_ten_columns_beyond_those_defined() {
    let cfg = config(&[], 0);
    let defined = [text("c1"), text("c2")];
    let schema = stream(12, &[]);
    let made = generate_schema_for_defined_schema_fields(&schema, &defined, false, &cfg);
    assert_eq!(made.schema(), schema.schema());
    let schema = stream(13, &[]);
    let made = generate_schema_for_defined_schema_fields(&schema, &defined, false, &cfg);
    assert_eq!(names(&made), vec!["c1", "c2"]);
    assert_eq!(made.schema().metadata.get("k"), Some(&text("v")));
}

#[test]
fn eleven_columns_with_one_defined_stay() {
    let schema = stream(11, &[]);
    let made =
        generate_schema_for_defined_schema_fields(&schema, &[text("c0")], false, &config(&[], 0));
    assert_eq!(made.schema(), schema.schema());
}

#[test]
fn common_columns_are_not_chosen_though_search_looks_into_them() {
    let schema = stream(4, &["log", "_all", "_timestamp"]);
    let chosen = choose_defined_fields(schema.schema(), &config(&["_all", "log", "_timestamp"], 3));
    assert_eq!(sorted(chosen), vec!["c0", "c1", "log"]);
}

#[test]
fn reserved_columns_are_kept() {
    let cfg = config(&[], 0);
    let schema = stream(20, &["_timestamp", "_all", "_o2_id", "_original"]);
    let defined = [text("c3"), text("missing"), text("_all")];
    let made = generate_schema_for_defined_schema_fields(&schema, &defined, false, &cfg);
    assert_eq!(names(&made), vec!["_all", "_timestamp", "c3"]);
    let made = generate_schema_for_defined_schema_fields(&schema, &defined, true, &cfg);
    assert_eq!(
        names(&made),
        vec!["_all", "_o2_id", "_original", "_timestamp", "c3"]
    );
    assert_eq!(
        made.get(&text("_original")),
        schema.get(&text("_original"))
    );
}

#[test]
fn narrowing_again_changes_nothing() {
    let cfg = config(&[], 0);
    let schema = stream(20, &["_timestamp", "_all", "_o2_id", "_original"]);
    let defined = [text("c3")];
    let made = generate_schema_for_defined_schema_fields(&schema, &defined, true, &cfg);
    let again = generate_schema_for_defined_schema_fields(&made, &defined, false, &cfg);
    assert_eq!(again.schema(), made.schema());
    assert_eq!(made.schema().fields.len(), 5);
}

#[test]
fn columns_come_in_the_order_of_their_names() {
    let fields = select_columns(
        &stream(4, &[]),
        &vec![text("c2"), text("c9"), text("c0")],
    );
    assert_eq!(
        fields,
        vec![
            Field::new("c2", DataType::Int64, true),
            Field::new("c0", DataType::Int64, true),
        ]
    );
}

#[test]
fn chosen_columns_fill_up_to_the_bound() {
    let schema = stream(8, &["log", "_timestamp", "_all"]);
    let chosen = choose_defined_fields(schema.schema(), &config(&["log", "message"], 4));
    assert_eq!(sorted(chosen), vec!["c0", "c1", "c2", "log"]);
}

#[test]
fn chosen_columns_leave_out_common_ones() {
    let mut fields = vec![
        Field::new("_timestamp", DataType::Int64, false),
        Field::new("_all", DataType::Utf8, false),
    ];
    fields.push(Field::new("a", DataType::Utf8, true));
    fields.push(Field::new("b", DataType::Utf8, true));
    let chosen = choose_defined_fields(&Schema::new(fields), &config(&[], 3));
    assert_eq!(sorted(chosen), vec!["a", "b"]);
}

#[test]
fn repeated_columns_are_chosen_once() {
    let fields = vec![
        Field::new("a", DataType::Utf8, true),
        Field::new("a", DataType::Int64, true),
        Field::new("b", DataType::Utf8, true),
        Field::new("c", DataType::Utf8, true),
    ];
    let chosen = choose_defined_fields(&Schema::new(fields), &config(&["a"], 2));
    assert_eq!(sorted(chosen), vec!["a", "b"]);
}

#[test]
fn bound_is_passed_over_where_searched_columns_reach_it() {
    let schema = stream(3, &["log", "message"]);
    let chosen = choose_defined_fields(schema.schema(), &config(&["log", "message"], 2));
    assert_eq!(sorted(chosen), vec!["c0", "c1", "c2", "log", "message"]);
}
