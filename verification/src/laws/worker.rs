//! Laws on the schemas that a worker has at hand: which columns they have.

use crate::check::{is_narrowed_at_hand, loaded_map};
use crate::diff::{is_published, started_map, UpdateView};
use crate::evolution::defined_by;
use crate::laws::columns::{columns_are_found_by_name, names_of};
use crate::laws::settings::{
    sets_column, sets_columns, settings_define_what_they_name, stores_originals,
};
use crate::narrowing::{columns_named, is_generated, narrowing_keeps_columns};
use crate::schema::{column, column_index, has_column, SchemaView};
use crate::settings::{SchemaConfig, StreamId, StreamSettingsView};
use crate::text::{decimal_reads_back, i64_in};
use vstd::prelude::*;

verus! {

/// Whether a narrowed schema keeps a column: one that is defined, the time, the text of all
/// columns, or with originals the number and the original of a record.
pub open spec fn outlasts(
    defined: Seq<Seq<char>>,
    with_originals: bool,
    cfg: SchemaConfig,
    name: Seq<char>,
) -> bool {
    ||| defined.contains(name)
    ||| name == cfg.column_timestamp@
    ||| name == cfg.column_all@
    ||| with_originals && (name == cfg.id_column@ || name == cfg.original_column@)
}

/// A schema with more than ten names beyond the number of those defined has afterwards the columns
/// that outlast narrowing, each once and as it was, and the same metadata. It stays as it is where
/// nothing is defined, or where it has fewer names.
pub proof fn narrowing_by_columns(
    schema: SchemaView,
    defined: Seq<Seq<char>>,
    with_originals: bool,
    cfg: SchemaConfig,
    made: SchemaView,
    name: Seq<char>,
)
    requires
        is_generated(schema, defined, with_originals, cfg, made),
    ensures
        defined.len() == 0 ==> made == schema,
        names_of(schema).len() <= defined.len() + 10 ==> made == schema,
        defined.len() > 0 && names_of(schema).len() > defined.len() + 10 ==> {
            &&& has_column(made, name) <==> has_column(schema, name) && outlasts(
                defined,
                with_originals,
                cfg,
                name,
            )
            &&& forall|i: int, j: int|
                0 <= i < j < made.fields.len() ==> (#[trigger] made.fields[i]).name != (
                #[trigger] made.fields[j]).name
        },
        has_column(made, name) ==> column(made, name) == column(schema, name),
        made.metadata == schema.metadata,
{
    narrowing_keeps_columns(schema, defined, with_originals, cfg, made, name);
    assert(names_of(schema) =~= column_index(schema.fields).dom()) by {
        assert forall|other: Seq<char>|
            names_of(schema).contains(other) == column_index(schema.fields).dom().contains(
                other,
            ) by {
            columns_are_found_by_name(schema, other);
        }
    }
    vstd::seq_lib::seq_to_set_is_finite(defined);
}

/// Columns that are asked for by name come in the order of the names: one for each name that the
/// schema has, and it is the column of that name.
pub proof fn columns_come_in_the_order_of_names(
    schema: SchemaView,
    names: Seq<Seq<char>>,
) -> (places: Seq<int>)
    ensures
        places.len() == columns_named(schema, names).len(),
        forall|i: int, j: int| 0 <= i < j < places.len() ==> places[i] < places[j],
        forall|i: int|
            #![trigger places.contains(i)]
            #![trigger names[i]]
            places.contains(i) <==> 0 <= i < names.len() && has_column(schema, names[i]),
        forall|j: int|
            0 <= j < places.len() ==> #[trigger] columns_named(schema, names)[j] == column(
                schema,
                names[places[j]],
            ),
    decreases names.len(),
{
    if names.len() == 0 {
        Seq::empty()
    } else {
        let rest = names.drop_last();
        let last = names.len() - 1;
        let before = columns_come_in_the_order_of_names(schema, rest);
        let found = has_column(schema, names.last());
        let places = if found {
            before.push(last)
        } else {
            before
        };
        assert forall|j: int| 0 <= j < before.len() implies 0 <= #[trigger] before[j] < last by {
            assert(before.contains(before[j]));
        }
        assert forall|i: int|
            #![trigger places.contains(i)]
            #![trigger names[i]]
            places.contains(i) <==> 0 <= i < names.len() && has_column(schema, names[i]) by {
            if 0 <= i < last {
                assert(rest[i] == names[i]);
            }
            if before.contains(i) {
                let j = choose|j: int| 0 <= j < before.len() && before[j] == i;
                assert(places[j] == i);
                assert(rest[i] == names[i]);
            }
            if places.contains(i) && i != last {
                let j = choose|j: int| 0 <= j < places.len() && places[j] == i;
                assert(before[j] == i);
                assert(before.contains(i));
            }
            if i == last && found {
                assert(places[places.len() - 1] == last);
            }
        }
        assert forall|j: int| 0 <= j < places.len() implies #[trigger] columns_named(
            schema,
            names,
        )[j] == column(schema, names[places[j]]) by {
            if j < before.len() {
                assert(places[j] == before[j]);
                assert(columns_named(schema, names)[j] == columns_named(schema, rest)[j]);
                assert(rest[before[j]] == names[before[j]]);
            }
        }
        places
    }
}

/// Once an update is published, a worker has the stream at hand: with every published column where
/// the schema is not narrowed, and else with those that outlast narrowing. With originals stored,
/// the number and the original of a record are among them wherever they were published. Every other
/// stream is as before.
pub proof fn published_columns_reach_the_worker(
    before: Map<Seq<char>, SchemaView>,
    stream: StreamId,
    update: UpdateView,
    cfg: SchemaConfig,
    after: Map<Seq<char>, SchemaView>,
    name: Seq<char>,
)
    requires
        is_published(before, stream, update, cfg, after),
    ensures
        after.contains_key(stream.stream_name@),
        after.remove(stream.stream_name@) == before.remove(stream.stream_name@),
        ({
            let made = after[stream.stream_name@];
            let setting = Some(update.settings);
            let narrowed = sets_columns(setting) && names_of(update.schema).len()
                > update.settings.defined_schema_fields->0.len() + 10;
            &&& has_column(made, name) <==> has_column(update.schema, name) && (narrowed
                ==> sets_column(setting, name) || name == cfg.column_timestamp@ || name
                == cfg.column_all@ || (update.settings.store_original_data && (name
                == cfg.id_column@ || name == cfg.original_column@)))
            &&& has_column(made, name) ==> column(made, name) == column(update.schema, name)
            &&& made.metadata == update.schema.metadata
            &&& !narrowed ==> made == update.schema
        }),
{
    let key = stream.stream_name@;
    let made = after[key];
    let setting = Some(update.settings);
    let defined = defined_by(setting);
    let originals = update.settings.store_original_data;
    settings_define_what_they_name(setting);
    narrowing_by_columns(update.schema, defined, originals, cfg, made, name);
    assert(after.remove(key) =~= before.remove(key));
}

/// Where originals are stored, a worker has the number and the original of a record at hand once an
/// update is published, wherever these were published, however few columns are defined.
pub proof fn originals_reach_the_worker(
    before: Map<Seq<char>, SchemaView>,
    stream: StreamId,
    update: UpdateView,
    cfg: SchemaConfig,
    after: Map<Seq<char>, SchemaView>,
)
    requires
        is_published(before, stream, update, cfg, after),
        update.settings.store_original_data,
    ensures
        has_column(update.schema, cfg.id_column@) ==> has_column(
            after[stream.stream_name@],
            cfg.id_column@,
        ),
        has_column(update.schema, cfg.original_column@) ==> has_column(
            after[stream.stream_name@],
            cfg.original_column@,
        ),
{
    published_columns_reach_the_worker(before, stream, update, cfg, after, cfg.id_column@);
    published_columns_reach_the_worker(before, stream, update, cfg, after, cfg.original_column@);
}

/// Once the settings of a stream were looked up, a worker has every column of it at hand that it
/// had, where the settings name none or the schema is not narrowed, and else those that outlast
/// narrowing. Every other stream is as before.
pub proof fn settings_narrow_the_worker(
    before: Map<Seq<char>, SchemaView>,
    stream: StreamId,
    setting: Option<StreamSettingsView>,
    cfg: SchemaConfig,
    after: Map<Seq<char>, SchemaView>,
    name: Seq<char>,
)
    requires
        before.contains_key(stream.stream_name@),
        is_narrowed_at_hand(before, stream, setting, cfg, after),
    ensures
        after.contains_key(stream.stream_name@),
        after.remove(stream.stream_name@) == before.remove(stream.stream_name@),
        ({
            let schema = before[stream.stream_name@];
            let made = after[stream.stream_name@];
            let narrowed = sets_columns(setting) && names_of(schema).len()
                > setting->0.defined_schema_fields->0.len() + 10;
            &&& has_column(made, name) <==> has_column(schema, name) && (narrowed ==> sets_column(
                setting,
                name,
            ) || name == cfg.column_timestamp@ || name == cfg.column_all@ || (stores_originals(
                setting,
            ) && (name == cfg.id_column@ || name == cfg.original_column@)))
            &&& has_column(made, name) ==> column(made, name) == column(schema, name)
            &&& made.metadata == schema.metadata
            &&& !narrowed ==> after == before
        }),
{
    let key = stream.stream_name@;
    settings_define_what_they_name(setting);
    narrowing_by_columns(
        before[key],
        defined_by(setting),
        stores_originals(setting),
        cfg,
        after[key],
        name,
    );
    assert(after.remove(key) =~= before.remove(key));
    if after[key] == before[key] {
        assert(after =~= before);
    }
}

/// A stream that was loaded is at hand as it was loaded, and every other stream as before. Where it
/// could not be loaded, nothing changes.
pub proof fn loaded_stream_is_at_hand<E>(
    schemas: Map<Seq<char>, SchemaView>,
    stream: StreamId,
    outcome: Result<SchemaView, E>,
)
    ensures
        outcome matches Ok(schema) ==> {
            let after = loaded_map(schemas, stream, outcome);
            &&& after.contains_key(stream.stream_name@)
            &&& after[stream.stream_name@] == schema
            &&& after.remove(stream.stream_name@) == schemas.remove(stream.stream_name@)
        },
        outcome is Err ==> loaded_map(schemas, stream, outcome) == schemas,
{
    let key = stream.stream_name@;
    assert(loaded_map(schemas, stream, outcome).remove(key) =~= schemas.remove(key));
}

/// A new stream is at hand from the start of its update: with the columns of the first records, and
/// with the time of these, which can be read back, as its only metadata. Every other stream is as
/// before, and an update of a known stream starts with no change.
pub proof fn new_stream_is_at_hand_at_once(
    schemas: Map<Seq<char>, SchemaView>,
    stream: StreamId,
    is_new: bool,
    inferred: SchemaView,
    record_ts: i64,
)
    ensures
        ({
            let after = started_map(schemas, stream, is_new, inferred, record_ts as int);
            &&& !is_new ==> after == schemas
            &&& is_new ==> {
                &&& after.contains_key(stream.stream_name@)
                &&& after[stream.stream_name@].fields == inferred.fields
                &&& after[stream.stream_name@].metadata.contains_key("created_at"@)
                &&& i64_in(after[stream.stream_name@].metadata["created_at"@]) == Some(
                    record_ts as int,
                )
                &&& forall|key: Seq<char>| #[trigger]
                    after[stream.stream_name@].metadata.contains_key(key) ==> key == "created_at"@
                &&& after.remove(stream.stream_name@) == schemas.remove(stream.stream_name@)
            }
        }),
{
    let key = stream.stream_name@;
    decimal_reads_back(record_ts);
    if is_new {
        assert(started_map(schemas, stream, is_new, inferred, record_ts as int).remove(key)
            =~= schemas.remove(key));
    }
}

} // verus!
