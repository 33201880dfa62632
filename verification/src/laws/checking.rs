//! Laws on holding new records against the schema of their stream.

use crate::check::{
    after_changes, after_column_settings, after_inference, after_latest, after_load, after_loading,
    after_stream_settings, after_update, first_check_step, first_update, second_update,
    CheckErrorView, CheckStepView,
};
use crate::errors::columns_limit_message;
use crate::evolution::{datatype_delta, defined_by, schema_changed, SchemaEvolutionView};
use crate::field::FieldView;
use crate::laws::columns::{agree, columns_are_found_by_name, same_columns_agree_one_by_one};
use crate::laws::evolving::{
    differing_types_are_judged, judgement, new_columns_change_the_schema,
    other_records_leave_the_schema, told_in_the_order_of_the_records, type_counts, type_differs,
    wider_types_change_the_schema,
};
use crate::runs::{check_after, CheckAnswers};
use crate::schema::{column, has_column, same_columns, SchemaView};
use crate::settings::{stream_path, SchemaConfig, StreamId, StreamSettingsView};
use crate::text::{decimal, decimal_reads_back, i64_in};
use vstd::prelude::*;

verus! {

/// Whether a step ends a check without a change and without a look at the types.
pub open spec fn passes_at_once<E>(step: CheckStepView<E>) -> bool {
    step matches CheckStepView::Done(Ok(told)) && !told.0.is_schema_changed
        && told.0.types_delta is None && told.1 is None
}

/// Whether a step is an update of the stored schema.
pub open spec fn is_update<E>(step: CheckStepView<E>) -> bool {
    step is UpdateSchema || step is UpdateLatest
}

/// A stream that is not at hand is loaded first, and one that is at hand never.
pub proof fn streams_not_at_hand_are_loaded<E>(
    schemas: Map<Seq<char>, SchemaView>,
    stream: StreamId,
    cfg: SchemaConfig,
)
    ensures
        first_check_step::<E>(schemas, stream, cfg) is LoadSchema <==> !schemas.contains_key(
            stream.stream_name@,
        ),
        schemas.contains_key(stream.stream_name@) ==> first_check_step::<E>(schemas, stream, cfg)
            == after_loading::<E>(schemas[stream.stream_name@], cfg),
{
}

/// Validation is skipped for a stream that has a column, where it may be, and the records pass.
/// Else the schema of the records is looked at.
pub proof fn validation_is_skipped_for_streams_with_columns<E>(
    schema: SchemaView,
    cfg: SchemaConfig,
)
    ensures
        cfg.skip_schema_validation && (exists|name: Seq<char>| has_column(schema, name))
            ==> passes_at_once(after_loading::<E>(schema, cfg)),
        !cfg.skip_schema_validation || !(exists|name: Seq<char>| has_column(schema, name))
            ==> after_loading::<E>(schema, cfg) is InferSchema,
{
    lemma_some_column(schema);
}

/// A schema has a column exactly when its list of columns is not empty.
pub proof fn lemma_some_column(schema: SchemaView)
    ensures
        schema.fields.len() > 0 <==> exists|name: Seq<char>| has_column(schema, name),
{
    if schema.fields.len() > 0 {
        columns_are_found_by_name(schema, schema.fields[0].name);
        assert(schema.fields[0].name == schema.fields[0].name);
        assert(has_column(schema, schema.fields[0].name));
    }
    if exists|name: Seq<char>| has_column(schema, name) {
        let name = choose|name: Seq<char>| has_column(schema, name);
        columns_are_found_by_name(schema, name);
    }
}

/// Records with more columns than a record may have are refused, whether or not the stream has
/// columns yet, unless the stream has just these. The message names the stream, the number of
/// columns and the limit, and no update is ever due.
pub proof fn too_many_columns_are_refused<E>(
    schema: SchemaView,
    answers: CheckAnswers<E>,
    stream: StreamId,
    record_ts: int,
    cfg: SchemaConfig,
    inferred: SchemaView,
    calls: nat,
)
    requires
        !cfg.skip_schema_validation || schema.fields.len() == 0,
        answers.inferred == Ok::<SchemaView, E>(inferred),
        !same_columns(schema, inferred),
        inferred.fields.len() > cfg.req_cols_per_record_limit,
    ensures
        after_inference(schema, stream, answers.inferred, cfg) == CheckStepView::<E>::Done(
            Err(
                CheckErrorView::TooManyColumns(
                    columns_limit_message(
                        stream_path(stream),
                        inferred.fields.len() as int,
                        cfg.req_cols_per_record_limit as int,
                    ),
                ),
            ),
        ),
        ({
            let step = check_after(
                after_loading::<E>(schema, cfg),
                calls,
                schema,
                answers,
                stream,
                record_ts,
                cfg,
            );
            &&& !is_update(step)
            &&& calls >= 1 ==> step == CheckStepView::<E>::Done(
                Err(
                    CheckErrorView::TooManyColumns(
                        columns_limit_message(
                            stream_path(stream),
                            inferred.fields.len() as int,
                            cfg.req_cols_per_record_limit as int,
                        ),
                    ),
                ),
            )
        }),
{
    reveal_with_fuel(check_after, 2);
    if calls > 0 {
        let ended = after_inference(schema, stream, answers.inferred, cfg);
        lemma_ended(
            ended->Done_0,
            (calls - 1) as nat,
            schema,
            answers,
            stream,
            record_ts,
            cfg,
        );
    }
}

proof fn lemma_ended<E>(
    outcome: Result<(SchemaEvolutionView, Option<SchemaView>), CheckErrorView<E>>,
    calls: nat,
    schema: SchemaView,
    answers: CheckAnswers<E>,
    stream: StreamId,
    record_ts: int,
    cfg: SchemaConfig,
)
    ensures
        check_after(
            CheckStepView::<E>::Done(outcome),
            calls,
            schema,
            answers,
            stream,
            record_ts,
            cfg,
        ) == CheckStepView::<E>::Done(outcome),
    decreases calls,
{
    if calls > 0 {
        lemma_ended(outcome, (calls - 1) as nat, schema, answers, stream, record_ts, cfg);
    }
}

/// Records with no more columns than a record may have are never refused for their number.
pub proof fn few_columns_are_not_refused<E>(
    schema: SchemaView,
    stream: StreamId,
    cfg: SchemaConfig,
    inferred: SchemaView,
)
    requires
        inferred.fields.len() <= cfg.req_cols_per_record_limit,
    ensures
        !(after_inference::<E>(schema, stream, Ok(inferred), cfg) matches CheckStepView::Done(
            Err(_),
        )),
{
}

/// Records pass at once exactly when their columns agree with those of the stream one by one,
/// however many they are and whatever the metadata of the stream holds.
pub proof fn records_with_the_same_columns_pass<E>(
    schema: SchemaView,
    stream: StreamId,
    cfg: SchemaConfig,
    inferred: SchemaView,
)
    ensures
        passes_at_once(after_inference::<E>(schema, stream, Ok(inferred), cfg))
            <==> schema.fields.len() == inferred.fields.len() && forall|i: int|
            0 <= i < schema.fields.len() ==> agree(#[trigger] schema.fields[i], inferred.fields[i]),
{
    same_columns_agree_one_by_one(schema, inferred);
}

/// Where the schema of the records cannot be told, the error is handed on.
pub proof fn failed_inference_ends_the_check<E>(
    schema: SchemaView,
    stream: StreamId,
    cfg: SchemaConfig,
    error: E,
)
    ensures
        after_inference::<E>(schema, stream, Err(error), cfg) == CheckStepView::<E>::Done(
            Err(CheckErrorView::Outside(error)),
        ),
{
}

/// Records that neither pass at once nor are refused update the stored schema of a stream without
/// columns, as a new one and once, and lead to a look at the settings of a stream that has some.
pub proof fn other_records_are_looked_at<E>(
    schema: SchemaView,
    stream: StreamId,
    cfg: SchemaConfig,
    inferred: SchemaView,
)
    requires
        !same_columns(schema, inferred),
        inferred.fields.len() <= cfg.req_cols_per_record_limit,
    ensures
        !(exists|name: Seq<char>| has_column(schema, name)) ==> after_inference::<E>(
            schema,
            stream,
            Ok(inferred),
            cfg,
        ) == (CheckStepView::<E>::UpdateSchema {
            inferred,
            is_new: true,
            need_insert_new_latest: false,
        }),
        (exists|name: Seq<char>| has_column(schema, name)) ==> after_inference::<E>(
            schema,
            stream,
            Ok(inferred),
            cfg,
        ) == (CheckStepView::<E>::ReadColumnSettings { inferred }),
{
    lemma_some_column(schema);
}

/// Where types may widen, each type that differs and counts is to be judged, and no other. Where
/// they may not, none is.
pub proof fn types_are_judged_where_they_may_widen<E>(
    schema: SchemaView,
    inferred: SchemaView,
    setting: Option<StreamSettingsView>,
    record_ts: int,
    cfg: SchemaConfig,
)
    ensures
        ({
            let step = after_column_settings::<E>(schema, inferred, setting, record_ts, cfg);
            &&& !cfg.widening_schema_evolution ==> step == after_changes::<E>(
                schema,
                inferred,
                setting,
                None,
                record_ts,
            )
            &&& cfg.widening_schema_evolution ==> {
                &&& step matches CheckStepView::JudgeWidening {
                    inferred: columns,
                    setting: kept,
                    conflicts,
                }
                &&& columns == inferred
                &&& kept == setting
                &&& conflicts.len() == inferred.fields.len()
                &&& forall|i: int|
                    0 <= i < conflicts.len() ==> #[trigger] conflicts[i] == (if type_differs(
                        schema,
                        inferred.fields[i],
                    ) && type_counts(setting, inferred.fields[i].name) {
                        Some(column(schema, inferred.fields[i].name).data_type)
                    } else {
                        None
                    })
            }
        }),
{
    differing_types_are_judged(schema, setting, inferred.fields);
}

/// Whether some column of the records is none of the stream's, or of a type that widens one of the
/// stream's and counts.
pub open spec fn brings_something(
    schema: SchemaView,
    inferred: Seq<FieldView>,
    setting: Option<StreamSettingsView>,
    widening: Option<Seq<bool>>,
) -> bool {
    exists|i: int|
        0 <= i < inferred.len() && (!has_column(schema, (#[trigger] inferred[i]).name) || (
        type_differs(schema, inferred[i]) && type_counts(setting, inferred[i].name) && judgement(
            widening,
            i,
        ) == Some(true)))
}

/// Whether some column of the records is in conflict with one of the stream: of another type, which
/// counts.
pub open spec fn some_type_differs(
    schema: SchemaView,
    inferred: Seq<FieldView>,
    setting: Option<StreamSettingsView>,
) -> bool {
    exists|i: int|
        0 <= i < inferred.len() && type_differs(schema, #[trigger] inferred[i]) && type_counts(
            setting,
            inferred[i].name,
        )
}

/// The stored schema of a stream with columns is updated where the records bring something, a new
/// column or a wider type, and then not as that of a new stream. A second update follows where some
/// type differs and the records are of a time before that at which the version starts. Else there
/// is no update.
pub proof fn records_that_bring_something_update_the_schema<E>(
    schema: SchemaView,
    inferred: SchemaView,
    setting: Option<StreamSettingsView>,
    widening: Option<Seq<bool>>,
    record_ts: int,
)
    ensures
        ({
            let step = after_changes::<E>(schema, inferred, setting, widening, record_ts);
            &&& brings_something(schema, inferred.fields, setting, widening) <==> step
                is UpdateSchema
            &&& step matches CheckStepView::UpdateSchema {
                inferred: columns,
                is_new,
                need_insert_new_latest,
            } ==> {
                &&& columns == inferred
                &&& !is_new
                &&& !some_type_differs(schema, inferred.fields, setting) ==> !need_insert_new_latest
                &&& !schema.metadata.contains_key("start_dt"@) ==> !need_insert_new_latest
                &&& some_type_differs(schema, inferred.fields, setting)
                    && schema.metadata.contains_key("start_dt"@) ==> {
                    &&& forall|start: i64|
                        schema.metadata["start_dt"@] == #[trigger] decimal(start as int) ==> (
                        need_insert_new_latest <==> record_ts < start)
                    &&& i64_in(schema.metadata["start_dt"@]) matches Some(start) ==> (
                    need_insert_new_latest <==> record_ts < start)
                    &&& i64_in(schema.metadata["start_dt"@]) is None ==> (need_insert_new_latest
                        <==> record_ts < 0)
                }
            }
        }),
{
    let fields = inferred.fields;
    lemma_changed(schema, fields, setting, widening);
    lemma_delta_is_some(schema, fields, setting, widening);
    assert forall|start: i64|
        schema.metadata["start_dt"@] == #[trigger] decimal(start as int) implies i64_in(
        schema.metadata["start_dt"@],
    ) == Some(start as int) by {
        decimal_reads_back(start);
    }
}

/// Records that bring nothing leave the schema, with one column told for each type that differs and
/// counts: none where all types agree.
pub proof fn records_that_bring_nothing_are_told_of<E>(
    schema: SchemaView,
    inferred: SchemaView,
    setting: Option<StreamSettingsView>,
    widening: Option<Seq<bool>>,
    record_ts: int,
)
    requires
        !brings_something(schema, inferred.fields, setting, widening),
    ensures
        ({
            let step = after_changes::<E>(schema, inferred, setting, widening, record_ts);
            &&& step matches CheckStepView::ReadStreamSettings { inferred: columns, delta }
            &&& columns == inferred
            &&& delta.len() > 0 <==> some_type_differs(schema, inferred.fields, setting)
            &&& delta == datatype_delta(schema, defined_by(setting), inferred.fields, widening)
        }),
{
    lemma_changed(schema, inferred.fields, setting, widening);
    lemma_delta_is_some(schema, inferred.fields, setting, widening);
}

proof fn lemma_changed(
    schema: SchemaView,
    inferred: Seq<FieldView>,
    setting: Option<StreamSettingsView>,
    widening: Option<Seq<bool>>,
)
    ensures
        schema_changed(schema, defined_by(setting), inferred, widening) <==> brings_something(
            schema,
            inferred,
            setting,
            widening,
        ),
{
    if brings_something(schema, inferred, setting, widening) {
        let i = choose|i: int|
            0 <= i < inferred.len() && (!has_column(schema, (#[trigger] inferred[i]).name) || (
            type_differs(schema, inferred[i]) && type_counts(setting, inferred[i].name)
                && judgement(widening, i) == Some(true)));
        if !has_column(schema, inferred[i].name) {
            new_columns_change_the_schema(schema, setting, inferred, widening, i);
        } else {
            wider_types_change_the_schema(schema, setting, inferred, widening->0, i);
        }
    } else {
        other_records_leave_the_schema(schema, setting, inferred, widening);
    }
}

proof fn lemma_delta_is_some(
    schema: SchemaView,
    inferred: Seq<FieldView>,
    setting: Option<StreamSettingsView>,
    widening: Option<Seq<bool>>,
)
    ensures
        datatype_delta(schema, defined_by(setting), inferred, widening).len() > 0
            <==> some_type_differs(schema, inferred, setting),
{
    let places = told_in_the_order_of_the_records(schema, setting, inferred, widening);
    if places.len() > 0 {
        assert(places.contains(places[0]));
        assert(type_differs(schema, inferred[places[0]]));
    }
    if some_type_differs(schema, inferred, setting) {
        let i = choose|i: int|
            0 <= i < inferred.len() && type_differs(schema, #[trigger] inferred[i]) && type_counts(
                setting,
                inferred[i].name,
            );
        assert(places.contains(i));
    }
}

/// Both updates are of the stream of the records and of all their columns, and treat the stream as
/// new alike. The first holds from the time of the records, the second from the present moment.
pub proof fn updates_differ_in_their_time_alone(
    stream: StreamId,
    record_ts: int,
    now: int,
    inferred: SchemaView,
    is_new: bool,
)
    ensures
        ({
            let first = first_update(stream, record_ts, inferred, is_new);
            let second = second_update(stream, now, inferred, is_new);
            &&& first.stream == stream && second.stream == stream
            &&& first.inferred == inferred && second.inferred == inferred
            &&& first.is_new == is_new && second.is_new == is_new
            &&& first.record_ts == record_ts
            &&& second.record_ts == now
        }),
{
}

/// A check that leaves the schema ends in success, tells no change, and gives the columns of the
/// records with the types in conflict.
pub proof fn settings_end_the_check<E>(inferred: SchemaView, delta: Seq<FieldView>)
    ensures
        ({
            let step = after_stream_settings::<E>(inferred, delta);
            &&& step matches CheckStepView::Done(Ok(told))
            &&& !told.0.is_schema_changed
            &&& told.0.types_delta == Some(delta)
            &&& told.1 == Some(inferred)
        }),
{
}

/// Of the second update only a failure counts: it ends the check. Else what the first update told
/// is told, with the columns of the records.
pub proof fn second_update_counts_by_its_failure<E>(
    inferred: SchemaView,
    evolution: SchemaEvolutionView,
    outcome: Result<Option<SchemaEvolutionView>, E>,
)
    ensures
        ({
            let step = after_latest(inferred, evolution, outcome);
            &&& outcome matches Err(e) ==> step == CheckStepView::<E>::Done(
                Err(CheckErrorView::Outside(e)),
            )
            &&& outcome is Ok ==> {
                &&& step matches CheckStepView::Done(Ok(told))
                &&& told.0 == evolution
                &&& told.1 == Some(inferred)
            }
        }),
{
}

/// A stream that cannot be loaded ends the check with the error. One that was loaded is checked as
/// if it had been at hand.
pub proof fn loaded_streams_are_checked_alike<E>(
    schemas: Map<Seq<char>, SchemaView>,
    stream: StreamId,
    outcome: Result<SchemaView, E>,
    cfg: SchemaConfig,
)
    ensures
        outcome matches Err(e) ==> after_load(outcome, cfg) == CheckStepView::<E>::Done(
            Err(CheckErrorView::Outside(e)),
        ),
        outcome matches Ok(schema) ==> after_load(outcome, cfg) == first_check_step::<E>(
            schemas.insert(stream.stream_name@, schema),
            stream,
            cfg,
        ),
{
}

/// A failed update ends the check with its error. After one that succeeded the check tells what it
/// told, no change where it found nothing to do, with the columns of the records; before that the
/// second update is due exactly where it was asked for.
pub proof fn first_update_is_told<E>(
    inferred: SchemaView,
    is_new: bool,
    need_insert_new_latest: bool,
    outcome: Result<Option<SchemaEvolutionView>, E>,
)
    ensures
        ({
            let step = after_update(inferred, is_new, need_insert_new_latest, outcome);
            &&& outcome matches Err(e) ==> step == CheckStepView::<E>::Done(
                Err(CheckErrorView::Outside(e)),
            )
            &&& outcome is Ok ==> (step is UpdateLatest <==> need_insert_new_latest)
            &&& outcome is Ok ==> (step is Done <==> !need_insert_new_latest)
            &&& step matches CheckStepView::Done(Ok(told)) ==> {
                &&& told.1 == Some(inferred)
                &&& outcome matches Ok(Some(evolution)) ==> told.0 == evolution
                &&& outcome == Ok::<Option<SchemaEvolutionView>, E>(None)
                    ==> !told.0.is_schema_changed && told.0.types_delta is None
            }
            &&& step matches CheckStepView::UpdateLatest {
                inferred: columns,
                is_new: is_still_new,
                evolution,
            } ==> {
                &&& columns == inferred
                &&& is_still_new == is_new
                &&& outcome matches Ok(Some(told)) ==> evolution == told
                &&& outcome == Ok::<Option<SchemaEvolutionView>, E>(None)
                    ==> !evolution.is_schema_changed && evolution.types_delta is None
            }
            &&& outcome is Ok && !need_insert_new_latest ==> step matches CheckStepView::Done(Ok(_))
        }),
{
}

} // verus!
