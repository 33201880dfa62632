//! Laws on what is told of a stream that is asked for.

use crate::existence::{
    has_readable_settings, optional_members, schema_check, setting_names, with_stream,
};
use crate::field::FieldView;
use crate::json::{json_members, members_of};
use crate::laws::checking::lemma_some_column;
use crate::laws::columns::added_column_is_found;
use crate::schema::{has_column, SchemaView};
use vstd::prelude::*;

verus! {

/// A stream is told to have fields exactly when its schema has a column of some name.
pub proof fn streams_with_columns_have_fields(
    schema: SchemaView,
    names: Option<Set<Seq<char>>>,
    metadata_label: Seq<char>,
)
    ensures
        schema_check(schema, names, metadata_label).has_fields <==> exists|name: Seq<char>|
            has_column(schema, name),
{
    lemma_some_column(schema);
}

/// A stream keeps its fields when it gains a column, and has some from then on. Nothing else that
/// is told of it changes.
pub proof fn gained_column_is_told_as_fields(
    schema: SchemaView,
    field: FieldView,
    names: Option<Set<Seq<char>>>,
    metadata_label: Seq<char>,
)
    ensures
        ({
            let more = SchemaView { fields: schema.fields.push(field), ..schema };
            let before = schema_check(schema, names, metadata_label);
            let after = schema_check(more, names, metadata_label);
            &&& after.has_fields
            &&& before.has_fields ==> after.has_fields
            &&& after.conforms == before.conforms
            &&& after.has_partition_keys == before.has_partition_keys
            &&& after.has_metadata == before.has_metadata
        }),
{
    let more = SchemaView { fields: schema.fields.push(field), ..schema };
    added_column_is_found(schema, field, field.name);
    assert(has_column(more, field.name));
    streams_with_columns_have_fields(more, names, metadata_label);
}

/// A stream has metric metadata exactly when its schema holds something under the label, whatever
/// it is. Other metadata and the columns have no part in it. Every stream conforms.
pub proof fn metric_metadata_is_told_by_its_label(
    schema: SchemaView,
    names: Option<Set<Seq<char>>>,
    metadata_label: Seq<char>,
    key: Seq<char>,
    value: Seq<char>,
)
    ensures
        ({
            let told = schema_check(schema, names, metadata_label);
            let with_key = SchemaView { metadata: schema.metadata.insert(key, value), ..schema };
            let without_key = SchemaView { metadata: schema.metadata.remove(key), ..schema };
            let after = schema_check(with_key, names, metadata_label);
            let removed = schema_check(without_key, names, metadata_label);
            &&& told.conforms
            &&& told.has_metadata <==> schema.metadata.contains_key(metadata_label)
            &&& key == metadata_label ==> after.has_metadata && !removed.has_metadata
            &&& key != metadata_label ==> after == told && removed == told
        }),
{
}

/// A stream has partition keys exactly when its settings are an object with a member of that name.
/// Neither its columns nor other members have a part in it.
pub proof fn partition_keys_are_told_by_the_settings(
    schema: SchemaView,
    metadata_label: Seq<char>,
)
    ensures
        schema_check(schema, setting_names(schema), metadata_label).has_partition_keys <==> {
            &&& schema.metadata.contains_key("settings"@)
            &&& json_members(schema.metadata["settings"@]) matches Some(Some(names))
            &&& names.contains("partition_keys"@)
        },
        !schema.metadata.contains_key("settings"@) ==> has_readable_settings(schema),
        schema.metadata.contains_key("settings"@) ==> (has_readable_settings(schema)
            <==> json_members(schema.metadata["settings"@]) is Some),
{
}

/// Settings that are given as a value say the same: there are partition keys exactly when the value
/// is an object with a member of that name.
pub proof fn partition_keys_are_told_by_a_value(
    schema: SchemaView,
    settings: Option<serde_json::Value>,
    metadata_label: Seq<char>,
)
    ensures
        schema_check(schema, optional_members(settings), metadata_label).has_partition_keys <==> {
            &&& settings matches Some(value)
            &&& members_of(value) matches Some(names)
            &&& names.contains("partition_keys"@)
        },
{
}

/// What is told of a stream that was not at hand is told of what was loaded, which is at hand from
/// then on. A stream that was at hand stays as it was, and so does every other stream.
pub proof fn loaded_schema_is_put_at_hand(
    schemas: Map<Seq<char>, SchemaView>,
    stream_name: Seq<char>,
    loaded: Option<SchemaView>,
)
    ensures
        ({
            let after = with_stream(schemas, stream_name, loaded);
            &&& schemas.contains_key(stream_name) ==> after == schemas
            &&& !schemas.contains_key(stream_name) && loaded is Some ==> after.contains_key(
                stream_name,
            ) && after[stream_name] == loaded->0
            &&& loaded is None ==> after == schemas
            &&& after.remove(stream_name) == schemas.remove(stream_name)
        }),
{
    assert(with_stream(schemas, stream_name, loaded).remove(stream_name) =~= schemas.remove(
        stream_name,
    ));
}

} // verus!
