//! What comes of a whole check and of a whole update, whatever the services outside answer.

use crate::check::{
    after_changes, after_column_settings, after_inference, after_latest, after_load, after_loading,
    after_stream_settings, after_update, evolution_or_unchanged, precedes_version, unchanged,
    CheckErrorView, CheckStepView,
};
use crate::diff::{
    after_merge, after_ownership, after_publishing, after_saving, first_step, with_encoded_settings,
    DiffStepView, MergedView, UpdateView,
};
use crate::errors::columns_limit_message;
use crate::evolution::{datatype_delta, defined_by, schema_changed, SchemaEvolutionView};
use crate::narrowing::defines_fields;
use crate::schema::{same_columns, SchemaView};
use crate::settings::{
    defined_in, settings_or_default, stream_path, SchemaConfig, StreamId, StreamSettingsView,
};
use vstd::prelude::*;

verus! {

/// What the services outside answer during an update, where they are asked, and the columns chosen
/// where the stream is narrowed on its own.
pub struct DiffAnswers<E> {
    pub merges: spec_fn(int) -> Result<Option<MergedView>, E>,
    pub settings: Option<StreamSettingsView>,
    pub chosen: Seq<Seq<char>>,
    pub text: Seq<char>,
}

/// The step after `step`.
pub open spec fn next_diff_step<E>(
    step: DiffStepView<E>,
    answers: DiffAnswers<E>,
    stream: StreamId,
    is_new: bool,
    cfg: SchemaConfig,
) -> DiffStepView<E> {
    match step {
        DiffStepView::Merge(retries) => after_merge(
            is_new,
            retries,
            (answers.merges)(retries),
            cfg.meta_transaction_retries as int,
        ),
        DiffStepView::SetOwnership(merged) => after_ownership(merged),
        DiffStepView::ReadSettings(merged) => {
            let found = settings_or_default(answers.settings);
            if defines_fields(merged.schema, stream.stream_type, defined_in(found), cfg) {
                DiffStepView::EncodeSettings(
                    UpdateView {
                        schema: merged.schema,
                        delta: merged.delta,
                        settings: StreamSettingsView {
                            defined_schema_fields: Some(answers.chosen),
                            ..found
                        },
                    },
                )
            } else {
                DiffStepView::Publish(
                    stream_path(stream),
                    UpdateView { schema: merged.schema, delta: merged.delta, settings: found },
                )
            }
        },
        DiffStepView::EncodeSettings(update) => DiffStepView::SaveSettings(
            with_encoded_settings(update, answers.text),
        ),
        DiffStepView::SaveSettings(update) => after_saving(stream, update),
        DiffStepView::Publish(_, update) => after_publishing(update),
        DiffStepView::Done(outcome) => DiffStepView::Done(outcome),
    }
}

/// Where an update stands after `calls` calls.
pub open spec fn diff_after<E>(
    step: DiffStepView<E>,
    calls: nat,
    answers: DiffAnswers<E>,
    stream: StreamId,
    is_new: bool,
    cfg: SchemaConfig,
) -> DiffStepView<E>
    decreases calls,
{
    if calls == 0 {
        step
    } else {
        diff_after(
            next_diff_step(step, answers, stream, is_new, cfg),
            (calls - 1) as nat,
            answers,
            stream,
            is_new,
            cfg,
        )
    }
}

/// What comes of merging, where attempt `retries` is due and `limit` attempts are allowed: the
/// first success counts, and where there is none the last error.
pub open spec fn merge_result<E>(
    merges: spec_fn(int) -> Result<Option<MergedView>, E>,
    retries: int,
    limit: int,
) -> Result<Option<MergedView>, E>
    decreases limit - retries,
{
    if merges(retries) is Ok || retries + 1 >= limit {
        merges(retries)
    } else {
        merge_result(merges, retries + 1, limit)
    }
}

/// How the schema evolved where it was merged: with the types in conflict that the merge found.
pub open spec fn merge_evolution<E>(result: Result<Option<MergedView>, E>) -> Result<
    Option<SchemaEvolutionView>,
    E,
> {
    match result {
        Ok(Some(merged)) => Ok(
            Some(
                SchemaEvolutionView { is_schema_changed: true, types_delta: Some(merged.delta) },
            ),
        ),
        Ok(None) => Ok(None),
        Err(e) => Err(e),
    }
}

/// What comes of an update.
pub open spec fn update_result<E>(answers: DiffAnswers<E>, cfg: SchemaConfig) -> Result<
    Option<SchemaEvolutionView>,
    E,
> {
    if cfg.meta_transaction_retries > 0 {
        merge_evolution(merge_result(answers.merges, 0, cfg.meta_transaction_retries as int))
    } else {
        Ok(None)
    }
}

/// The merged schema of an update, where a merge changed it.
pub open spec fn merged_by<E>(answers: DiffAnswers<E>, cfg: SchemaConfig) -> Option<MergedView> {
    if cfg.meta_transaction_retries > 0 {
        match merge_result(answers.merges, 0, cfg.meta_transaction_retries as int) {
            Ok(merged) => merged,
            Err(_) => None,
        }
    } else {
        None
    }
}

/// The calls within which an update ends.
pub open spec fn update_calls(cfg: SchemaConfig) -> nat {
    (cfg.meta_transaction_retries + 5) as nat
}

/// An update ends within as many calls as merges are allowed and five. Its outcome is that of the
/// merges: neither the settings nor the columns to which a stream is narrowed have a part in it.
pub proof fn update_ends_with_the_result_of_the_merges<E>(
    answers: DiffAnswers<E>,
    stream: StreamId,
    is_new: bool,
    cfg: SchemaConfig,
)
    ensures
        diff_after(
            first_step::<E>(cfg.meta_transaction_retries as int),
            update_calls(cfg),
            answers,
            stream,
            is_new,
            cfg,
        ) == DiffStepView::<E>::Done(update_result(answers, cfg)),
{
    if cfg.meta_transaction_retries > 0 {
        lemma_merges(answers, 0, stream, is_new, cfg);
    } else {
        lemma_done(Ok(None), update_calls(cfg), answers, stream, is_new, cfg);
    }
}

proof fn lemma_done<E>(
    outcome: Result<Option<SchemaEvolutionView>, E>,
    calls: nat,
    answers: DiffAnswers<E>,
    stream: StreamId,
    is_new: bool,
    cfg: SchemaConfig,
)
    ensures
        diff_after(DiffStepView::<E>::Done(outcome), calls, answers, stream, is_new, cfg)
            == DiffStepView::<E>::Done(outcome),
    decreases calls,
{
    if calls > 0 {
        lemma_done(outcome, (calls - 1) as nat, answers, stream, is_new, cfg);
    }
}

proof fn lemma_merges<E>(
    answers: DiffAnswers<E>,
    retries: int,
    stream: StreamId,
    is_new: bool,
    cfg: SchemaConfig,
)
    requires
        0 <= retries < cfg.meta_transaction_retries,
    ensures
        diff_after(
            DiffStepView::<E>::Merge(retries),
            (cfg.meta_transaction_retries - retries + 5) as nat,
            answers,
            stream,
            is_new,
            cfg,
        ) == DiffStepView::<E>::Done(
            merge_evolution(
                merge_result(answers.merges, retries, cfg.meta_transaction_retries as int),
            ),
        ),
    decreases cfg.meta_transaction_retries - retries,
{
    let limit = cfg.meta_transaction_retries as int;
    let result = (answers.merges)(retries);
    let rest = (limit - retries + 4) as nat;
    let outcome = merge_evolution(result);
    match result {
        Err(e) => {
            if retries + 1 < limit {
                lemma_merges(answers, retries + 1, stream, is_new, cfg);
            } else {
                lemma_done(outcome, rest, answers, stream, is_new, cfg);
            }
        },
        Ok(None) => {
            lemma_done(outcome, rest, answers, stream, is_new, cfg);
        },
        Ok(Some(merged)) => {
            reveal_with_fuel(diff_after, 7);
            lemma_done(outcome, (rest - 5) as nat, answers, stream, is_new, cfg);
            lemma_done(outcome, (rest - 4) as nat, answers, stream, is_new, cfg);
            lemma_done(outcome, (rest - 3) as nat, answers, stream, is_new, cfg);
            lemma_done(outcome, (rest - 2) as nat, answers, stream, is_new, cfg);
        },
    }
}

/// What the services outside answer during a check, where they are asked: `now` is what the clock
/// shows at the second update.
pub struct CheckAnswers<E> {
    pub loaded: Result<SchemaView, E>,
    pub inferred: Result<SchemaView, E>,
    pub column_setting: Option<StreamSettingsView>,
    pub widening: Seq<bool>,
    pub stream_setting: Option<StreamSettingsView>,
    pub first_update: DiffAnswers<E>,
    pub second_update: DiffAnswers<E>,
    pub now: int,
}

/// The step after `step`, where `schema` is the schema at hand.
pub open spec fn next_check_step<E>(
    step: CheckStepView<E>,
    schema: SchemaView,
    answers: CheckAnswers<E>,
    stream: StreamId,
    record_ts: int,
    cfg: SchemaConfig,
) -> CheckStepView<E> {
    match step {
        CheckStepView::LoadSchema => after_load(answers.loaded, cfg),
        CheckStepView::InferSchema => after_inference(schema, stream, answers.inferred, cfg),
        CheckStepView::ReadColumnSettings { inferred } => after_column_settings(
            schema,
            inferred,
            answers.column_setting,
            record_ts,
            cfg,
        ),
        CheckStepView::JudgeWidening { inferred, setting, conflicts } => after_changes(
            schema,
            inferred,
            setting,
            Some(answers.widening),
            record_ts,
        ),
        CheckStepView::ReadStreamSettings { inferred, delta } => after_stream_settings(
            inferred,
            delta,
        ),
        CheckStepView::UpdateSchema { inferred, is_new, need_insert_new_latest } => after_update(
            inferred,
            is_new,
            need_insert_new_latest,
            update_result(answers.first_update, cfg),
        ),
        CheckStepView::UpdateLatest { inferred, is_new, evolution } => after_latest(
            inferred,
            evolution,
            update_result(answers.second_update, cfg),
        ),
        CheckStepView::Done(outcome) => CheckStepView::Done(outcome),
    }
}

/// Where a check stands after `calls` calls.
pub open spec fn check_after<E>(
    step: CheckStepView<E>,
    calls: nat,
    schema: SchemaView,
    answers: CheckAnswers<E>,
    stream: StreamId,
    record_ts: int,
    cfg: SchemaConfig,
) -> CheckStepView<E>
    decreases calls,
{
    if calls == 0 {
        step
    } else {
        check_after(
            next_check_step(step, schema, answers, stream, record_ts, cfg),
            (calls - 1) as nat,
            schema,
            answers,
            stream,
            record_ts,
            cfg,
        )
    }
}

/// What comes of holding records against a schema at hand.
///
/// Nothing is looked at where validation is skipped for a stream with columns, and nothing changes
/// where the columns are the same. Records with too many columns are refused. The stored schema is
/// updated for a stream without columns and where the records change the schema; a second time
/// where they come before its version and a type is in conflict. Else the conflicts are told
/// and the schema stays.
pub open spec fn check_result<E>(
    schema: SchemaView,
    answers: CheckAnswers<E>,
    stream: StreamId,
    record_ts: int,
    cfg: SchemaConfig,
) -> Result<(SchemaEvolutionView, Option<SchemaView>), CheckErrorView<E>> {
    let is_new = schema.fields.len() == 0;
    if !is_new && cfg.skip_schema_validation {
        Ok((unchanged(), None))
    } else if answers.inferred is Err {
        Err(CheckErrorView::Outside(answers.inferred->Err_0))
    } else {
        let inferred = answers.inferred->Ok_0;
        let defined = defined_by(answers.column_setting);
        let widening = if cfg.widening_schema_evolution {
            Some(answers.widening)
        } else {
            None
        };
        let delta = datatype_delta(schema, defined, inferred.fields, widening);
        let first_update = update_result(answers.first_update, cfg);
        let second_update = update_result(answers.second_update, cfg);
        let is_late = !is_new && delta.len() > 0 && precedes_version(schema, record_ts);
        if same_columns(schema, inferred) {
            Ok((unchanged(), None))
        } else if inferred.fields.len() > cfg.req_cols_per_record_limit {
            Err(
                CheckErrorView::TooManyColumns(
                    columns_limit_message(
                        stream_path(stream),
                        inferred.fields.len() as int,
                        cfg.req_cols_per_record_limit as int,
                    ),
                ),
            )
        } else if !is_new && !schema_changed(schema, defined, inferred.fields, widening) {
            Ok(
                (
                    SchemaEvolutionView { is_schema_changed: false, types_delta: Some(delta) },
                    Some(inferred),
                ),
            )
        } else if first_update is Err {
            Err(CheckErrorView::Outside(first_update->Err_0))
        } else if is_late && second_update is Err {
            Err(CheckErrorView::Outside(second_update->Err_0))
        } else {
            Ok((evolution_or_unchanged(first_update->Ok_0), Some(inferred)))
        }
    }
}

/// A check of a stream at hand ends within five calls, with the result that its schema and the
/// answers determine.
pub proof fn check_of_a_stream_at_hand<E>(
    schema: SchemaView,
    answers: CheckAnswers<E>,
    stream: StreamId,
    record_ts: int,
    cfg: SchemaConfig,
)
    ensures
        check_after(
            after_loading::<E>(schema, cfg),
            5,
            schema,
            answers,
            stream,
            record_ts,
            cfg,
        ) == CheckStepView::<E>::Done(check_result(schema, answers, stream, record_ts, cfg)),
{
    reveal_with_fuel(check_after, 6);
}

/// A check of a stream that is not at hand ends within six calls: with the error where the stream
/// cannot be loaded, and else as if what was loaded had been at hand.
pub proof fn check_of_a_stream_not_at_hand<E>(
    answers: CheckAnswers<E>,
    stream: StreamId,
    record_ts: int,
    cfg: SchemaConfig,
)
    ensures
        answers.loaded matches Ok(schema) ==> check_after(
            CheckStepView::<E>::LoadSchema,
            6,
            schema,
            answers,
            stream,
            record_ts,
            cfg,
        ) == CheckStepView::<E>::Done(check_result(schema, answers, stream, record_ts, cfg)),
        answers.loaded matches Err(e) ==> forall|schema: SchemaView| #[trigger]
            check_after(
                CheckStepView::<E>::LoadSchema,
                6,
                schema,
                answers,
                stream,
                record_ts,
                cfg,
            ) == CheckStepView::<E>::Done(Err(CheckErrorView::Outside(e))),
{
    reveal_with_fuel(check_after, 7);
    if answers.loaded is Ok {
        check_of_a_stream_at_hand(answers.loaded->Ok_0, answers, stream, record_ts, cfg);
    }
}

/// A check tells of a change only where an update did.
pub proof fn only_updates_change_the_schema<E>(
    schema: SchemaView,
    answers: CheckAnswers<E>,
    stream: StreamId,
    record_ts: int,
    cfg: SchemaConfig,
)
    ensures
        check_result(schema, answers, stream, record_ts, cfg) matches Ok(told)
            ==> told.0.is_schema_changed ==> update_result(answers.first_update, cfg) == Ok::<
            Option<SchemaEvolutionView>,
            E,
        >(Some(told.0)),
{
}

} // verus!
