//! What is known of a stream before records are written to it.

use crate::json::{json_members, member, members_of, parse_json};
use crate::schema::{Schema, SchemaCache, SchemaView, StreamSchemaMap};
use crate::settings::SchemaConfig;
use vstd::prelude::*;

verus! {

/// What a stream's schema holds.
#[derive(Debug, Clone, Copy, PartialEq, Eq, Structural)]
pub struct StreamSchemaChk {
    pub conforms: bool,
    pub has_fields: bool,
    pub has_partition_keys: bool,
    pub has_metadata: bool,
}

/// The settings text that a schema carries in its metadata.
pub open spec fn settings_text(schema: SchemaView) -> Option<Seq<char>> {
    if schema.metadata.contains_key("settings"@) {
        Some(schema.metadata["settings"@])
    } else {
        None
    }
}

/// Whether the settings text of a schema is JSON, where it has one.
pub open spec fn has_readable_settings(schema: SchemaView) -> bool {
    settings_text(schema) matches Some(text) ==> json_members(text) is Some
}

/// The names of the settings that a schema carries, where it carries an object of them.
pub open spec fn setting_names(schema: SchemaView) -> Option<Set<Seq<char>>> {
    match settings_text(schema) {
        Some(text) => match json_members(text) {
            Some(names) => names,
            None => None,
        },
        None => None,
    }
}

/// What a schema holds whose settings have those names.
pub open spec fn schema_check(
    schema: SchemaView,
    names: Option<Set<Seq<char>>>,
    metadata_label: Seq<char>,
) -> StreamSchemaChk {
    StreamSchemaChk {
        conforms: true,
        has_fields: schema.fields.len() > 0,
        has_partition_keys: names is Some && names->0.contains("partition_keys"@),
        has_metadata: schema.metadata.contains_key(metadata_label),
    }
}

/// The names of the members of an optional JSON value.
pub open spec fn optional_members(value: Option<serde_json::Value>) -> Option<Set<Seq<char>>> {
    match value {
        Some(value) => members_of(value),
        None => None,
    }
}

/// What a schema holds that carries the given settings.
pub fn check_schema(
    schema: &Schema,
    settings: &Option<serde_json::Value>,
    metadata_label: &str,
) -> (r: StreamSchemaChk)
    ensures
        r == schema_check(schema@, optional_members(*settings), metadata_label@),
{
    let has_partition_keys = match settings {
        Some(settings) => member(settings, "partition_keys").is_some(),
        None => false,
    };
    StreamSchemaChk {
        conforms: true,
        has_fields: schema.fields.len() > 0,
        has_partition_keys,
        has_metadata: schema.metadata.contains_key(metadata_label),
    }
}

/// The streams at hand once `stream_name` is among them: as they were where it was, else with
/// what was loaded for it.
pub open spec fn with_stream(
    schemas: Map<Seq<char>, SchemaView>,
    stream_name: Seq<char>,
    loaded: Option<SchemaView>,
) -> Map<Seq<char>, SchemaView> {
    if schemas.contains_key(stream_name) || loaded is None {
        schemas
    } else {
        schemas.insert(stream_name, loaded->0)
    }
}

/// What an optional schema is.
pub open spec fn optional_schema_view(schema: Option<Schema>) -> Option<SchemaView> {
    match schema {
        Some(schema) => Some(schema@),
        None => None,
    }
}

/// Tells what the schema of a stream holds. `loaded` is the stored schema of the stream; it is
/// needed, and put at hand, where the stream is not at hand yet.
pub fn stream_schema_exists(
    stream_name: &str,
    stream_schema_map: &mut StreamSchemaMap,
    loaded: Option<Schema>,
    cfg: &SchemaConfig,
) -> (r: StreamSchemaChk)
    requires
        old(stream_schema_map)@.contains_key(stream_name@) || loaded is Some,
        has_readable_settings(
            with_stream(
                old(stream_schema_map)@,
                stream_name@,
                optional_schema_view(loaded),
            )[stream_name@],
        ),
    ensures
        final(stream_schema_map)@ == with_stream(
            old(stream_schema_map)@,
            stream_name@,
            optional_schema_view(loaded),
        ),
        r == schema_check(
            final(stream_schema_map)@[stream_name@],
            setting_names(final(stream_schema_map)@[stream_name@]),
            cfg.metadata_label@,
        ),
{
    if !stream_schema_map.contains_key(stream_name) {
        if let Some(schema) = loaded {
            stream_schema_map.insert(stream_name.to_string(), SchemaCache::new(schema));
        }
    }
    let schema = stream_schema_map.get(stream_name).unwrap().schema();
    let settings = match schema.metadata.get("settings") {
        Some(text) => Some(parse_json(text.as_str()).unwrap()),
        None => None,
    };
    check_schema(schema, &settings, cfg.metadata_label.as_str())
}

/// The same for schemas whose settings may not be JSON: there is no result where they are not.
pub fn checked_stream_schema_exists(
    stream_name: &str,
    stream_schema_map: &mut StreamSchemaMap,
    loaded: Option<Schema>,
    cfg: &SchemaConfig,
) -> (r: Option<StreamSchemaChk>)
    requires
        old(stream_schema_map)@.contains_key(stream_name@) || loaded is Some,
    ensures
        final(stream_schema_map)@ == with_stream(
            old(stream_schema_map)@,
            stream_name@,
            optional_schema_view(loaded),
        ),
        r is Some <==> has_readable_settings(final(stream_schema_map)@[stream_name@]),
        r matches Some(check) ==> check == schema_check(
            final(stream_schema_map)@[stream_name@],
            setting_names(final(stream_schema_map)@[stream_name@]),
            cfg.metadata_label@,
        ),
{
    if !stream_schema_map.contains_key(stream_name) {
        if let Some(schema) = loaded {
            stream_schema_map.insert(stream_name.to_string(), SchemaCache::new(schema));
        }
    }
    let readable = match stream_schema_map.get(stream_name).unwrap().schema().metadata.get(
        "settings",
    ) {
        Some(text) => parse_json(text.as_str()).is_ok(),
        None => true,
    };
    if readable {
        Some(stream_schema_exists(stream_name, stream_schema_map, None, cfg))
    } else {
        None
    }
}

/// Once a stream was asked for it is at hand: asking again changes nothing, whatever is loaded the
/// second time, and other streams are left alone.
pub proof fn asking_again_changes_nothing(
    schemas: Map<Seq<char>, SchemaView>,
    stream_name: Seq<char>,
    loaded: Option<SchemaView>,
    loaded_again: Option<SchemaView>,
    other: Seq<char>,
)
    requires
        schemas.contains_key(stream_name) || loaded is Some,
    ensures
        ({
            let once = with_stream(schemas, stream_name, loaded);
            &&& once.contains_key(stream_name)
            &&& with_stream(once, stream_name, loaded_again) == once
            &&& other != stream_name ==> once.contains_key(other) == schemas.contains_key(other)
            &&& other != stream_name && schemas.contains_key(other) ==> once[other]
                == schemas[other]
        }),
{
}

} // verus!
