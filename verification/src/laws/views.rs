//! Laws on what is read of values: all of it, and nothing that is not there.

use crate::check::{
    check_outcome_view, load_outcome_view, types_view, CheckError, CheckErrorView, CheckStep,
    CheckStepView,
};
use crate::diff::{
    evolution_view, merge_outcome_view, update_outcome_view, DiffRequest, DiffStep, DiffStepView,
    MergeChanges,
};
use crate::evolution::{answers_view, optional_type_view, SchemaEvolution};
use crate::existence::optional_schema_view;
use crate::field::{fields_view, lemma_fields_view, tagged_view, DataType, DataTypeView, Field};
use crate::schema::{Schema, SchemaCache};
use crate::settings::{settings_view, StreamSettings};
use crate::text::texts;
use vstd::prelude::*;

verus! {

/// Settings are read with the columns that they name, in order, with their wish for originals, and
/// with all else that they hold. Optional settings are read where there are some.
pub proof fn settings_are_read_whole(settings: StreamSettings)
    ensures
        settings@.store_original_data == settings.store_original_data,
        settings@.other == settings.other@,
        settings@.defined_schema_fields is Some <==> settings.defined_schema_fields is Some,
        settings.defined_schema_fields matches Some(names) ==> {
            &&& settings@.defined_schema_fields->0.len() == names@.len()
            &&& forall|i: int|
                0 <= i < names@.len() ==> #[trigger] settings@.defined_schema_fields->0[i]
                    == names@[i]@
        },
        settings_view(Some(settings)) == Some(settings@),
        settings_view(None) is None,
{
}

/// A column is read with its name, type, nullability, metadata and dictionary, and a list of
/// columns one by one.
pub proof fn columns_are_read_whole(field: Field, fields: Seq<Field>)
    ensures
        field@.name == field.name@,
        field@.data_type == field.data_type@,
        field@.nullable == field.nullable,
        field@.metadata == field.metadata@,
        field@.dict_id == field.dict_id,
        field@.dict_is_ordered == field.dict_is_ordered,
        fields_view(fields).len() == fields.len(),
        forall|i: int| 0 <= i < fields.len() ==> #[trigger] fields_view(fields)[i] == fields[i]@,
{
    lemma_fields_view(fields);
}

/// A type without parts is read as itself, and another one with all its parts.
pub proof fn types_are_read_whole(t: DataType)
    ensures
        match t {
            DataType::Timestamp(unit, zone) => {
                &&& t@ matches DataTypeView::Timestamp(unit_read, zone_read)
                &&& unit_read == unit
                &&& zone_read is Some <==> zone is Some
                &&& zone matches Some(name) ==> zone_read == Some(name@)
            },
            DataType::List(item) => t@ == DataTypeView::List(Box::new(item@)),
            DataType::ListView(item) => t@ == DataTypeView::ListView(Box::new(item@)),
            DataType::FixedSizeList(item, size) => t@ == DataTypeView::FixedSizeList(
                Box::new(item@),
                size,
            ),
            DataType::LargeList(item) => t@ == DataTypeView::LargeList(Box::new(item@)),
            DataType::LargeListView(item) => t@ == DataTypeView::LargeListView(Box::new(item@)),
            DataType::Struct(children) => t@ == DataTypeView::Struct(fields_view(children@)),
            DataType::Union(children, mode) => {
                &&& t@ matches DataTypeView::Union(children_read, mode_read)
                &&& mode_read == mode
                &&& children_read.len() == children@.len()
                &&& forall|i: int|
                    0 <= i < children@.len() ==> #[trigger] children_read[i] == (
                        children@[i].0,
                        children@[i].1@,
                    )
            },
            DataType::Dictionary(key, value) => t@ == DataTypeView::Dictionary(
                Box::new(key@),
                Box::new(value@),
            ),
            DataType::MapOf(entry, sorted) => t@ == DataTypeView::MapOf(Box::new(entry@), sorted),
            DataType::RunEndEncoded(ends, values) => t@ == DataTypeView::RunEndEncoded(
                Box::new(ends@),
                Box::new(values@),
            ),
            plain => t@ == DataTypeView::Plain(plain),
        },
        optional_type_view(Some(t)) == Some(t@),
        optional_type_view(None) is None,
{
    match t {
        DataType::Union(children, _) => {
            assert(tagged_view(children@).len() == children@.len());
            assert forall|i: int| 0 <= i < children@.len() implies #[trigger] tagged_view(
                children@,
            )[i] == (children@[i].0, children@[i].1@) by {}
        },
        _ => {},
    }
}

/// Lists are read item by item, and what is optional where it is there.
pub proof fn lists_are_read_whole(
    list: Seq<String>,
    types: Seq<Option<DataType>>,
    answers: Vec<bool>,
)
    ensures
        texts(list).len() == list.len(),
        forall|i: int| 0 <= i < list.len() ==> #[trigger] texts(list)[i] == list[i]@,
        types_view(types).len() == types.len(),
        forall|i: int|
            0 <= i < types.len() ==> #[trigger] types_view(types)[i] == optional_type_view(
                types[i],
            ),
        answers_view(Some(answers)) == Some(answers@),
        answers_view(None) is None,
{
}

/// A schema is read with its columns and its metadata, an evolution with what it tells, and changes
/// with all that they would change.
pub proof fn schemas_are_read_whole(
    schema: Schema,
    evolution: SchemaEvolution,
    changes: MergeChanges,
    request: DiffRequest,
)
    ensures
        schema@.fields == fields_view(schema.fields@),
        schema@.metadata == schema.metadata@,
        optional_schema_view(Some(schema)) == Some(schema@),
        optional_schema_view(None) is None,
        evolution@.is_schema_changed == evolution.is_schema_changed,
        evolution@.types_delta is Some <==> evolution.types_delta is Some,
        evolution.types_delta matches Some(delta) ==> evolution@.types_delta == Some(
            fields_view(delta@),
        ),
        evolution_view(Some(evolution)) == Some(evolution@),
        evolution_view(None) is None,
        changes@.is_schema_changed == changes.is_schema_changed,
        changes@.field_datatype_delta == fields_view(changes.field_datatype_delta@),
        changes@.merged_fields == fields_view(changes.merged_fields@),
        request@.stream == request.stream,
        request@.is_new == request.is_new,
        request@.inferred == request.inferred_schema@,
        request@.record_ts == request.record_ts,
{
}

/// Outcomes are read as what they are: an error as itself, a success with what it gives.
pub proof fn outcomes_are_read_whole<E>(
    loaded: Result<SchemaCache, E>,
    merged: Result<Option<(Schema, Vec<Field>)>, E>,
    updated: Result<Option<SchemaEvolution>, E>,
    checked: Result<(SchemaEvolution, Option<Schema>), CheckError<E>>,
)
    ensures
        match loaded {
            Ok(schema) => load_outcome_view(loaded) matches Ok(read) && read == schema@,
            Err(e) => load_outcome_view(loaded) matches Err(read) && read == e,
        },
        match merged {
            Ok(Some((schema, delta))) => {
                &&& merge_outcome_view(merged) matches Ok(Some(read))
                &&& read.schema == schema@
                &&& read.delta == fields_view(delta@)
            },
            Ok(None) => merge_outcome_view(merged) matches Ok(None),
            Err(e) => merge_outcome_view(merged) matches Err(read) && read == e,
        },
        match updated {
            Ok(Some(evolution)) => update_outcome_view(updated) matches Ok(Some(read)) && read
                == evolution@,
            Ok(None) => update_outcome_view(updated) matches Ok(None),
            Err(e) => update_outcome_view(updated) matches Err(read) && read == e,
        },
        match checked {
            Ok((evolution, schema)) => {
                &&& check_outcome_view(checked) matches Ok(read)
                &&& read.0 == evolution@
                &&& read.1 == optional_schema_view(schema)
            },
            Err(CheckError::TooManyColumns(message)) => check_outcome_view(checked) matches Err(
                CheckErrorView::TooManyColumns(read),
            ) && read == message@,
            Err(CheckError::Outside(e)) => check_outcome_view(checked) matches Err(
                CheckErrorView::Outside(read),
            ) && read == e,
        },
{
}

/// A step of an update is read with all that the next call is told.
pub proof fn update_steps_are_read_whole<E>(step: DiffStep<E>)
    ensures
        match step {
            DiffStep::Merge(p) => step@ == DiffStepView::<E>::Merge(p.retries as int),
            DiffStep::SetOwnership(p) => {
                &&& step@ matches DiffStepView::SetOwnership(read)
                &&& read.schema == p.schema@
                &&& read.delta == fields_view(p.delta@)
            },
            DiffStep::ReadSettings(p) => {
                &&& step@ matches DiffStepView::ReadSettings(read)
                &&& read.schema == p.schema@
                &&& read.delta == fields_view(p.delta@)
            },
            DiffStep::EncodeSettings(p) => {
                &&& step@ matches DiffStepView::EncodeSettings(read)
                &&& read.schema == p.schema@
                &&& read.delta == fields_view(p.delta@)
                &&& read.settings == p.settings@
            },
            DiffStep::SaveSettings(p) => {
                &&& step@ matches DiffStepView::SaveSettings(read)
                &&& read.schema == p.schema@
                &&& read.delta == fields_view(p.delta@)
                &&& read.settings == p.settings@
            },
            DiffStep::Publish(p) => {
                &&& step@ matches DiffStepView::Publish(key, read)
                &&& key == p.cache_key@
                &&& read.schema == p.schema@
                &&& read.delta == fields_view(p.delta@)
                &&& read.settings == p.settings@
            },
            DiffStep::Done(outcome) => step@ == DiffStepView::<E>::Done(
                update_outcome_view(outcome),
            ),
        },
{
}

/// A step of a check is read with all that the next call is told.
pub proof fn check_steps_are_read_whole<E>(step: CheckStep<E>)
    ensures
        match step {
            CheckStep::LoadSchema(_) => step@ is LoadSchema,
            CheckStep::InferSchema(_) => step@ is InferSchema,
            CheckStep::ReadColumnSettings(p) => {
                &&& step@ matches CheckStepView::ReadColumnSettings { inferred }
                &&& inferred == p.inferred_schema@
            },
            CheckStep::JudgeWidening(p) => {
                &&& step@ matches CheckStepView::JudgeWidening { inferred, setting, conflicts }
                &&& inferred == p.inferred_schema@
                &&& setting == settings_view(p.setting)
                &&& conflicts == types_view(p.conflicts@)
            },
            CheckStep::ReadStreamSettings(p) => {
                &&& step@ matches CheckStepView::ReadStreamSettings { inferred, delta }
                &&& inferred == p.inferred_schema@
                &&& delta == fields_view(p.delta@)
            },
            CheckStep::UpdateSchema(p) => {
                &&& step@ matches CheckStepView::UpdateSchema {
                    inferred,
                    is_new,
                    need_insert_new_latest,
                }
                &&& inferred == p.inferred_schema@
                &&& is_new == p.is_new
                &&& need_insert_new_latest == p.need_insert_new_latest
            },
            CheckStep::UpdateLatest(p) => {
                &&& step@ matches CheckStepView::UpdateLatest { inferred, is_new, evolution }
                &&& inferred == p.inferred_schema@
                &&& is_new == p.is_new
                &&& evolution == p.evolution@
            },
            CheckStep::Done(outcome) => step@ == CheckStepView::<E>::Done(
                check_outcome_view(outcome),
            ),
        },
{
}

} // verus!
