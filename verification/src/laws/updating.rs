//! Laws on bringing the stored schema of a stream up to new records.

use crate::diff::{
    first_step, follows_settings, with_changes, with_encoded_settings, DiffStepView,
    MergeChangesView, MergedView, UpdateView,
};
use crate::effects::{published_update, schemas_at_hand_after_an_update, update_leaves};
use crate::evolution::SchemaEvolutionView;
use crate::laws::choosing::can_be_chosen;
use crate::laws::columns::{columns_are_found_by_name, names_of};
use crate::laws::settings::{
    sets_column, sets_columns, settings_define_what_they_name, stores_originals,
};
use crate::laws::worker::published_columns_reach_the_worker;
use crate::narrowing::{chosen_names, chosen_names_are_some};
use crate::runs::{
    diff_after, merge_result, merged_by, next_diff_step, update_calls,
    update_ends_with_the_result_of_the_merges, DiffAnswers,
};
use crate::schema::{column, has_column, SchemaView};
use crate::settings::{stream_path, SchemaConfig, StreamId, StreamSettingsView};
use vstd::prelude::*;

verus! {

/// Whether all facts hold for which a stream is narrowed on its own: this is allowed, there is a
/// bound, the stream holds logs, its settings name no column, and it has more columns than the
/// bound.
pub open spec fn outgrows_the_bound(
    schema: SchemaView,
    setting: Option<StreamSettingsView>,
    stream: StreamId,
    cfg: SchemaConfig,
) -> bool {
    &&& cfg.allow_user_defined_schemas
    &&& cfg.udschema_max_fields > 0
    &&& stream.stream_type is Logs
    &&& !sets_columns(setting)
    &&& schema.fields.len() > cfg.udschema_max_fields
}

/// A log stream that may be narrowed, whose settings name no column and that has more columns than
/// the bound, is narrowed on its own, whatever its metadata holds: settings are to be encoded that
/// name the columns chosen, each once, and are else as they were.
pub proof fn outgrown_stream_is_narrowed<E>(
    merged: MergedView,
    setting: Option<StreamSettingsView>,
    stream: StreamId,
    cfg: SchemaConfig,
    next: DiffStepView<E>,
)
    requires
        follows_settings(merged, setting, stream, cfg, next),
        cfg.allow_user_defined_schemas,
        cfg.udschema_max_fields > 0,
        stream.stream_type is Logs,
        setting is None || setting->0.defined_schema_fields is None
            || setting->0.defined_schema_fields->0.len() == 0,
        merged.schema.fields.len() > cfg.udschema_max_fields,
    ensures
        next is EncodeSettings,
        next matches DiffStepView::EncodeSettings(update) ==> {
            &&& update.schema == merged.schema
            &&& update.delta == merged.delta
            &&& update.settings.store_original_data == stores_originals(setting)
            &&& update.settings.other == (if setting is Some {
                setting->0.other
            } else {
                Seq::empty()
            })
            &&& update.settings.defined_schema_fields matches Some(names)
            &&& names.no_duplicates()
            &&& forall|name: Seq<char>| #[trigger]
                names.contains(name) <==> chosen_names(merged.schema, cfg).contains(name)
            &&& (exists|name: Seq<char>| #[trigger]
                has_column(merged.schema, name) && can_be_chosen(name, cfg)) ==> names.len() > 0
        },
{
    settings_define_what_they_name(setting);
    let update = next->EncodeSettings_0;
    let names = update.settings.defined_schema_fields->0;
    assert forall|name: Seq<char>| #[trigger] names.contains(name) <==> chosen_names(
        merged.schema,
        cfg,
    ).contains(name) by {
        assert(names.contains(name) == names.to_set().contains(name));
    }
    if exists|name: Seq<char>| #[trigger]
        has_column(merged.schema, name) && can_be_chosen(name, cfg) {
        let name = choose|name: Seq<char>| #[trigger]
            has_column(merged.schema, name) && can_be_chosen(name, cfg);
        columns_are_found_by_name(merged.schema, name);
        let i = choose|i: int|
            0 <= i < merged.schema.fields.len() && (#[trigger] merged.schema.fields[i]).name
                == name;
        assert(merged.schema.fields[i].name == name);
        chosen_names_are_some(merged.schema, cfg);
        let chosen = choose|chosen: Seq<char>| #[trigger]
            chosen_names(merged.schema, cfg).contains(chosen);
        assert(names.contains(chosen));
    }
}

/// Where one of these facts does not hold, nothing is chosen: the merged schema is published as it
/// is, under the path of the stream, with the settings that it holds.
pub proof fn other_streams_are_published_as_they_are<E>(
    merged: MergedView,
    setting: Option<StreamSettingsView>,
    stream: StreamId,
    cfg: SchemaConfig,
    next: DiffStepView<E>,
)
    requires
        follows_settings(merged, setting, stream, cfg, next),
        !cfg.allow_user_defined_schemas || cfg.udschema_max_fields == 0
            || !(stream.stream_type is Logs) || sets_columns(setting) || merged.schema.fields.len()
            <= cfg.udschema_max_fields,
    ensures
        next is Publish,
        next matches DiffStepView::Publish(key, update) ==> {
            &&& key == stream_path(stream)
            &&& update.schema == merged.schema
            &&& update.delta == merged.delta
            &&& setting matches Some(settings) ==> update.settings == settings
            &&& setting is None ==> update.settings.defined_schema_fields is None
                && !update.settings.store_original_data && update.settings.other.len() == 0
        },
{
    settings_define_what_they_name(setting);
}

/// A schema is told with changes exactly when there are some: with the merged columns and the types
/// in conflict, and with the metadata that it had.
pub proof fn changed_schema_keeps_its_metadata(schema: SchemaView, changes: MergeChangesView)
    ensures
        with_changes(schema, changes) is Some <==> changes.is_schema_changed,
        with_changes(schema, changes) matches Some(merged) ==> {
            &&& merged.schema.metadata == schema.metadata
            &&& merged.schema.fields == changes.merged_fields
            &&& merged.delta == changes.field_datatype_delta
        },
{
}

/// Encoded settings can be read from the metadata of the schema, beside all that it held. The
/// columns and the settings stay.
pub proof fn encoded_settings_are_in_the_metadata(update: UpdateView, text: Seq<char>)
    ensures
        ({
            let encoded = with_encoded_settings(update, text);
            &&& encoded.schema.metadata.contains_key("settings"@)
            &&& encoded.schema.metadata["settings"@] == text
            &&& encoded.schema.metadata.remove("settings"@) == update.schema.metadata.remove(
                "settings"@,
            )
            &&& encoded.schema.fields == update.schema.fields
            &&& encoded.delta == update.delta
            &&& encoded.settings == update.settings
        }),
{
    assert(with_encoded_settings(update, text).schema.metadata.remove("settings"@)
        =~= update.schema.metadata.remove("settings"@));
}

/// Whether attempt `attempt` to merge is made and the first that does not fail.
pub open spec fn first_success<E>(
    answers: DiffAnswers<E>,
    cfg: SchemaConfig,
    attempt: int,
) -> bool {
    &&& 0 <= attempt < cfg.meta_transaction_retries
    &&& (answers.merges)(attempt) is Ok
    &&& forall|i: int| 0 <= i < attempt ==> #[trigger] (answers.merges)(i) is Err
}

/// The first merge that does not fail decides an update, within the attempts that are allowed.
/// Where it changed the stored schema, the types in conflict are told with it, and else no change.
pub proof fn first_success_decides<E>(
    answers: DiffAnswers<E>,
    stream: StreamId,
    is_new: bool,
    cfg: SchemaConfig,
    attempt: int,
)
    requires
        first_success(answers, cfg, attempt),
    ensures
        ({
            let ended = diff_after(
                first_step::<E>(cfg.meta_transaction_retries as int),
                update_calls(cfg),
                answers,
                stream,
                is_new,
                cfg,
            );
            &&& (answers.merges)(attempt) matches Ok(Some(merged)) ==> ended == DiffStepView::<
                E,
            >::Done(
                Ok(
                    Some(
                        SchemaEvolutionView {
                            is_schema_changed: true,
                            types_delta: Some(merged.delta),
                        },
                    ),
                ),
            )
            &&& (answers.merges)(attempt) == Ok::<Option<MergedView>, E>(None) ==> ended
                == DiffStepView::<E>::Done(Ok(None))
            &&& Ok::<Option<MergedView>, E>(merged_by(answers, cfg)) == (answers.merges)(attempt)
        }),
{
    update_ends_with_the_result_of_the_merges(answers, stream, is_new, cfg);
    lemma_first_success(answers, cfg, 0, attempt);
}

/// An update whose merges all fail ends with the error of the last one, and one without an attempt
/// ends without a change.
pub proof fn last_failure_is_told<E>(
    answers: DiffAnswers<E>,
    stream: StreamId,
    is_new: bool,
    cfg: SchemaConfig,
)
    requires
        forall|i: int|
            0 <= i < cfg.meta_transaction_retries ==> #[trigger] (answers.merges)(i) is Err,
    ensures
        ({
            let limit = cfg.meta_transaction_retries as int;
            let ended = diff_after(
                first_step::<E>(limit),
                update_calls(cfg),
                answers,
                stream,
                is_new,
                cfg,
            );
            &&& limit > 0 ==> ended == DiffStepView::<E>::Done(
                Err((answers.merges)(limit - 1)->Err_0),
            )
            &&& limit == 0 ==> ended == DiffStepView::<E>::Done(Ok(None))
            &&& merged_by(answers, cfg) is None
        }),
{
    update_ends_with_the_result_of_the_merges(answers, stream, is_new, cfg);
    if cfg.meta_transaction_retries > 0 {
        lemma_all_fail(answers, cfg, 0);
    }
}

proof fn lemma_first_success<E>(
    answers: DiffAnswers<E>,
    cfg: SchemaConfig,
    retries: int,
    attempt: int,
)
    requires
        first_success(answers, cfg, attempt),
        0 <= retries <= attempt,
    ensures
        merge_result(answers.merges, retries, cfg.meta_transaction_retries as int) == (
        answers.merges)(attempt),
    decreases attempt - retries,
{
    if retries < attempt {
        assert((answers.merges)(retries) is Err);
        lemma_first_success(answers, cfg, retries + 1, attempt);
    }
}

proof fn lemma_all_fail<E>(answers: DiffAnswers<E>, cfg: SchemaConfig, retries: int)
    requires
        0 <= retries < cfg.meta_transaction_retries,
        forall|i: int|
            0 <= i < cfg.meta_transaction_retries ==> #[trigger] (answers.merges)(i) is Err,
    ensures
        merge_result(answers.merges, retries, cfg.meta_transaction_retries as int) == (
        answers.merges)(cfg.meta_transaction_retries - 1),
    decreases cfg.meta_transaction_retries - retries,
{
    assert((answers.merges)(retries) is Err);
    if retries + 1 < cfg.meta_transaction_retries {
        lemma_all_fail(answers, cfg, retries + 1);
    }
}

/// Where a merge is repeated, nothing else happens in between: after as many calls as attempts have
/// failed, the next attempt is due.
pub proof fn failed_merges_are_repeated<E>(
    answers: DiffAnswers<E>,
    stream: StreamId,
    is_new: bool,
    cfg: SchemaConfig,
    attempt: int,
)
    requires
        0 <= attempt < cfg.meta_transaction_retries,
        forall|i: int| 0 <= i < attempt ==> #[trigger] (answers.merges)(i) is Err,
    ensures
        diff_after(
            first_step::<E>(cfg.meta_transaction_retries as int),
            attempt as nat,
            answers,
            stream,
            is_new,
            cfg,
        ) == DiffStepView::<E>::Merge(attempt),
    decreases attempt,
{
    if attempt > 0 {
        failed_merges_are_repeated(answers, stream, is_new, cfg, attempt - 1);
        assert((answers.merges)(attempt - 1) is Err);
        lemma_one_more(
            first_step::<E>(cfg.meta_transaction_retries as int),
            (attempt - 1) as nat,
            answers,
            stream,
            is_new,
            cfg,
        );
    }
}

proof fn lemma_one_more<E>(
    step: DiffStepView<E>,
    calls: nat,
    answers: DiffAnswers<E>,
    stream: StreamId,
    is_new: bool,
    cfg: SchemaConfig,
)
    ensures
        diff_after(step, calls + 1, answers, stream, is_new, cfg) == next_diff_step(
            diff_after(step, calls, answers, stream, is_new, cfg),
            answers,
            stream,
            is_new,
            cfg,
        ),
    decreases calls,
{
    reveal_with_fuel(diff_after, 2);
    if calls > 0 {
        lemma_one_more(
            next_diff_step(step, answers, stream, is_new, cfg),
            (calls - 1) as nat,
            answers,
            stream,
            is_new,
            cfg,
        );
    }
}

/// Where a merge changed the stored schema, that schema is published under the path of the stream,
/// with all its columns: with the settings that its metadata holds, or where it outgrows the bound
/// with the columns chosen and the text of the settings beside the rest of its metadata. A new
/// stream gets its owner before.
pub proof fn merged_schema_is_published<E>(
    answers: DiffAnswers<E>,
    stream: StreamId,
    is_new: bool,
    cfg: SchemaConfig,
    attempt: int,
    merged: MergedView,
)
    requires
        first_success(answers, cfg, attempt),
        (answers.merges)(attempt) == Ok::<Option<MergedView>, E>(Some(merged)),
    ensures
        ({
            let outgrown = outgrows_the_bound(merged.schema, answers.settings, stream, cfg);
            let calls = (attempt + 2 + (if is_new {
                1int
            } else {
                0int
            }) + (if outgrown {
                2int
            } else {
                0int
            })) as nat;
            let first = first_step::<E>(cfg.meta_transaction_retries as int);
            let step = diff_after(first, calls, answers, stream, is_new, cfg);
            &&& is_new ==> diff_after(first, (attempt + 1) as nat, answers, stream, is_new, cfg)
                == DiffStepView::<E>::SetOwnership(merged)
            &&& step is Publish
            &&& step matches DiffStepView::Publish(key, update) ==> {
                &&& key == stream_path(stream)
                &&& update.schema.fields == merged.schema.fields
                &&& update.delta == merged.delta
                &&& update.settings.store_original_data == stores_originals(answers.settings)
                &&& !outgrown ==> {
                    &&& update.schema.metadata == merged.schema.metadata
                    &&& answers.settings matches Some(settings) ==> update.settings == settings
                    &&& answers.settings is None ==> update.settings.defined_schema_fields is None
                }
                &&& outgrown ==> {
                    &&& update.schema.metadata == merged.schema.metadata.insert(
                        "settings"@,
                        answers.text,
                    )
                    &&& update.settings.defined_schema_fields == Some(answers.chosen)
                    &&& answers.settings matches Some(settings) ==> update.settings.other
                        == settings.other
                }
            }
        }),
{
    let first = first_step::<E>(cfg.meta_transaction_retries as int);
    settings_define_what_they_name(answers.settings);
    failed_merges_are_repeated(answers, stream, is_new, cfg, attempt);
    let done = attempt as nat;
    lemma_one_more(first, done, answers, stream, is_new, cfg);
    lemma_one_more(first, done + 1, answers, stream, is_new, cfg);
    lemma_one_more(first, done + 2, answers, stream, is_new, cfg);
    lemma_one_more(first, done + 3, answers, stream, is_new, cfg);
    lemma_one_more(first, done + 4, answers, stream, is_new, cfg);
}

/// After an update that changed the stored schema, a worker has the stream at hand with the merged
/// columns: all of them, or where it is narrowed those named by the settings or chosen for it, the
/// time, the text of all columns, and with originals stored the number and the original of a
/// record.
pub proof fn merged_columns_reach_the_worker<E>(
    answers: DiffAnswers<E>,
    stream: StreamId,
    is_new: bool,
    inferred: SchemaView,
    record_ts: int,
    cfg: SchemaConfig,
    before: Map<Seq<char>, SchemaView>,
    after: Map<Seq<char>, SchemaView>,
    attempt: int,
    merged: MergedView,
    name: Seq<char>,
)
    requires
        update_leaves(answers, stream, is_new, inferred, record_ts, cfg, before, after),
        first_success(answers, cfg, attempt),
        (answers.merges)(attempt) == Ok::<Option<MergedView>, E>(Some(merged)),
    ensures
        after.contains_key(stream.stream_name@),
        after.remove(stream.stream_name@) == before.remove(stream.stream_name@),
        ({
            let made = after[stream.stream_name@];
            let outgrown = outgrows_the_bound(merged.schema, answers.settings, stream, cfg);
            let narrowed = if outgrown {
                answers.chosen.len() > 0 && names_of(merged.schema).len() > answers.chosen.len()
                    + 10
            } else {
                sets_columns(answers.settings) && names_of(merged.schema).len()
                    > answers.settings->0.defined_schema_fields->0.len() + 10
            };
            let named = if outgrown {
                answers.chosen.contains(name)
            } else {
                sets_column(answers.settings, name)
            };
            &&& has_column(made, name) <==> has_column(merged.schema, name) && (narrowed ==> named
                || name == cfg.column_timestamp@ || name == cfg.column_all@ || (stores_originals(
                answers.settings,
            ) && (name == cfg.id_column@ || name == cfg.original_column@)))
            &&& has_column(made, name) ==> column(made, name) == column(merged.schema, name)
            &&& !narrowed ==> made.fields == merged.schema.fields
        }),
{
    settings_define_what_they_name(answers.settings);
    first_success_decides(answers, stream, is_new, cfg, attempt);
    schemas_at_hand_after_an_update(
        answers,
        stream,
        is_new,
        inferred,
        record_ts,
        cfg,
        before,
        after,
    );
    let update = published_update(merged, answers, stream, cfg);
    published_columns_reach_the_worker(before, stream, update, cfg, after, name);
    assert(names_of(update.schema) == names_of(merged.schema));
}

} // verus!
