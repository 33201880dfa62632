//! What a whole check and a whole update leave behind: the owner of a stream, the generators that
//! number its records, and the schemas that a worker has at hand.

use crate::check::{
    after_loading, first_check_step, first_update, is_narrowed_at_hand, loaded_map, second_update,
    CheckErrorView, CheckStepView,
};
use crate::diff::{
    first_step, generators_after, is_published, started_map, DiffRequestView, DiffStepView,
    MergedView, UpdateView,
};
use crate::evolution::SchemaEvolutionView;
use crate::narrowing::defines_fields;
use crate::runs::{
    check_after, check_of_a_stream_not_at_hand, check_result, merge_result, merged_by,
    next_check_step, next_diff_step, update_calls, CheckAnswers, DiffAnswers,
};
use crate::schema::SchemaView;
use crate::settings::{
    defined_in, settings_or_default, stream_path, SchemaConfig, StreamId, StreamSettingsView,
};
use vstd::prelude::*;

verus! {

/// How often a stream is given its owner within `calls` calls of an update.
pub open spec fn ownership_calls<E>(
    step: DiffStepView<E>,
    calls: nat,
    answers: DiffAnswers<E>,
    stream: StreamId,
    is_new: bool,
    cfg: SchemaConfig,
) -> nat
    decreases calls,
{
    if calls == 0 {
        0
    } else {
        let rest = ownership_calls(
            next_diff_step(step, answers, stream, is_new, cfg),
            (calls - 1) as nat,
            answers,
            stream,
            is_new,
            cfg,
        );
        if step is SetOwnership {
            rest + 1
        } else {
            rest
        }
    }
}

/// A stream is given its owner once in an update where it is new and a merge changed its stored
/// schema, and else never.
pub proof fn new_streams_are_owned_once<E>(
    answers: DiffAnswers<E>,
    stream: StreamId,
    is_new: bool,
    cfg: SchemaConfig,
)
    ensures
        ownership_calls(
            first_step::<E>(cfg.meta_transaction_retries as int),
            update_calls(cfg),
            answers,
            stream,
            is_new,
            cfg,
        ) == (if is_new && merged_by(answers, cfg) is Some {
            1nat
        } else {
            0nat
        }),
{
    if cfg.meta_transaction_retries > 0 {
        lemma_ownership(answers, 0, stream, is_new, cfg);
    } else {
        lemma_done_owns_nothing(Ok(None), update_calls(cfg), answers, stream, is_new, cfg);
    }
}

proof fn lemma_done_owns_nothing<E>(
    outcome: Result<Option<SchemaEvolutionView>, E>,
    calls: nat,
    answers: DiffAnswers<E>,
    stream: StreamId,
    is_new: bool,
    cfg: SchemaConfig,
)
    ensures
        ownership_calls(DiffStepView::<E>::Done(outcome), calls, answers, stream, is_new, cfg) == 0,
    decreases calls,
{
    if calls > 0 {
        lemma_done_owns_nothing(outcome, (calls - 1) as nat, answers, stream, is_new, cfg);
    }
}

proof fn lemma_reading_owns_nothing<E>(
    merged: MergedView,
    calls: nat,
    answers: DiffAnswers<E>,
    stream: StreamId,
    is_new: bool,
    cfg: SchemaConfig,
)
    requires
        calls >= 4,
    ensures
        ownership_calls(DiffStepView::<E>::ReadSettings(merged), calls, answers, stream, is_new, cfg)
            == 0,
{
    reveal_with_fuel(ownership_calls, 5);
    let outcome = Ok::<Option<SchemaEvolutionView>, E>(
        Some(SchemaEvolutionView { is_schema_changed: true, types_delta: Some(merged.delta) }),
    );
    lemma_done_owns_nothing(outcome, (calls - 2) as nat, answers, stream, is_new, cfg);
    lemma_done_owns_nothing(outcome, (calls - 4) as nat, answers, stream, is_new, cfg);
}

proof fn lemma_ownership<E>(
    answers: DiffAnswers<E>,
    retries: int,
    stream: StreamId,
    is_new: bool,
    cfg: SchemaConfig,
)
    requires
        0 <= retries < cfg.meta_transaction_retries,
    ensures
        ownership_calls(
            DiffStepView::<E>::Merge(retries),
            (cfg.meta_transaction_retries - retries + 5) as nat,
            answers,
            stream,
            is_new,
            cfg,
        ) == (if is_new && merge_result(
            answers.merges,
            retries,
            cfg.meta_transaction_retries as int,
        ) matches Ok(Some(_)) {
            1nat
        } else {
            0nat
        }),
    decreases cfg.meta_transaction_retries - retries,
{
    let limit = cfg.meta_transaction_retries as int;
    let rest = (limit - retries + 4) as nat;
    match (answers.merges)(retries) {
        Err(e) => {
            if retries + 1 < limit {
                lemma_ownership(answers, retries + 1, stream, is_new, cfg);
            } else {
                lemma_done_owns_nothing(Err(e), rest, answers, stream, is_new, cfg);
            }
        },
        Ok(None) => {
            lemma_done_owns_nothing(Ok(None), rest, answers, stream, is_new, cfg);
        },
        Ok(Some(merged)) => {
            reveal_with_fuel(ownership_calls, 3);
            lemma_reading_owns_nothing(merged, rest, answers, stream, is_new, cfg);
            lemma_reading_owns_nothing(merged, (rest - 1) as nat, answers, stream, is_new, cfg);
        },
    }
}

/// The generators of a node, by stream, after `calls` calls of an update. A generator that the node
/// gains is `fresh`.
pub open spec fn generators_over<E, G>(
    step: DiffStepView<E>,
    calls: nat,
    answers: DiffAnswers<E>,
    stream: StreamId,
    is_new: bool,
    cfg: SchemaConfig,
    generators: Map<Seq<char>, G>,
    fresh: G,
) -> Map<Seq<char>, G>
    decreases calls,
{
    if calls == 0 {
        generators
    } else {
        generators_over(
            next_diff_step(step, answers, stream, is_new, cfg),
            (calls - 1) as nat,
            answers,
            stream,
            is_new,
            cfg,
            match step {
                DiffStepView::Publish(key, update) => generators_after(
                    generators,
                    key,
                    update.settings.store_original_data,
                    fresh,
                ),
                _ => generators,
            },
            fresh,
        )
    }
}

/// The node gains a generator in an update where a merge changed the stored schema, the settings
/// in that schema store originals, and the stream had none. It gains one for that stream alone, and
/// a generator that is there is never replaced.
pub proof fn generators_are_gained_and_kept<E, G>(
    answers: DiffAnswers<E>,
    stream: StreamId,
    is_new: bool,
    cfg: SchemaConfig,
    generators: Map<Seq<char>, G>,
    fresh: G,
)
    ensures
        ({
            let key = stream_path(stream);
            let after = generators_over(
                first_step::<E>(cfg.meta_transaction_retries as int),
                update_calls(cfg),
                answers,
                stream,
                is_new,
                cfg,
                generators,
                fresh,
            );
            let gains = merged_by(answers, cfg) is Some && settings_or_default(
                answers.settings,
            ).store_original_data && !generators.contains_key(key);
            &&& gains ==> after == generators.insert(key, fresh)
            &&& !gains ==> after == generators
            &&& forall|stream_key: Seq<char>|
                generators.contains_key(stream_key) ==> #[trigger] after.contains_key(stream_key)
                    && after[stream_key] == generators[stream_key]
        }),
{
    if cfg.meta_transaction_retries > 0 {
        lemma_generators(answers, 0, stream, is_new, cfg, generators, fresh);
    } else {
        lemma_done_numbers_nothing(
            Ok(None),
            update_calls(cfg),
            answers,
            stream,
            is_new,
            cfg,
            generators,
            fresh,
        );
    }
}

proof fn lemma_done_numbers_nothing<E, G>(
    outcome: Result<Option<SchemaEvolutionView>, E>,
    calls: nat,
    answers: DiffAnswers<E>,
    stream: StreamId,
    is_new: bool,
    cfg: SchemaConfig,
    generators: Map<Seq<char>, G>,
    fresh: G,
)
    ensures
        generators_over(
            DiffStepView::<E>::Done(outcome),
            calls,
            answers,
            stream,
            is_new,
            cfg,
            generators,
            fresh,
        ) == generators,
    decreases calls,
{
    if calls > 0 {
        lemma_done_numbers_nothing(
            outcome,
            (calls - 1) as nat,
            answers,
            stream,
            is_new,
            cfg,
            generators,
            fresh,
        );
    }
}

proof fn lemma_reading_numbers<E, G>(
    merged: MergedView,
    calls: nat,
    answers: DiffAnswers<E>,
    stream: StreamId,
    is_new: bool,
    cfg: SchemaConfig,
    generators: Map<Seq<char>, G>,
    fresh: G,
)
    requires
        calls >= 4,
    ensures
        generators_over(
            DiffStepView::<E>::ReadSettings(merged),
            calls,
            answers,
            stream,
            is_new,
            cfg,
            generators,
            fresh,
        ) == generators_after(
            generators,
            stream_path(stream),
            settings_or_default(answers.settings).store_original_data,
            fresh,
        ),
{
    reveal_with_fuel(generators_over, 5);
    let outcome = Ok::<Option<SchemaEvolutionView>, E>(
        Some(SchemaEvolutionView { is_schema_changed: true, types_delta: Some(merged.delta) }),
    );
    let after = generators_after(
        generators,
        stream_path(stream),
        settings_or_default(answers.settings).store_original_data,
        fresh,
    );
    lemma_done_numbers_nothing(
        outcome,
        (calls - 2) as nat,
        answers,
        stream,
        is_new,
        cfg,
        after,
        fresh,
    );
    lemma_done_numbers_nothing(
        outcome,
        (calls - 4) as nat,
        answers,
        stream,
        is_new,
        cfg,
        after,
        fresh,
    );
}

proof fn lemma_generators<E, G>(
    answers: DiffAnswers<E>,
    retries: int,
    stream: StreamId,
    is_new: bool,
    cfg: SchemaConfig,
    generators: Map<Seq<char>, G>,
    fresh: G,
)
    requires
        0 <= retries < cfg.meta_transaction_retries,
    ensures
        generators_over(
            DiffStepView::<E>::Merge(retries),
            (cfg.meta_transaction_retries - retries + 5) as nat,
            answers,
            stream,
            is_new,
            cfg,
            generators,
            fresh,
        ) == (if merge_result(
            answers.merges,
            retries,
            cfg.meta_transaction_retries as int,
        ) matches Ok(Some(_)) {
            generators_after(
                generators,
                stream_path(stream),
                settings_or_default(answers.settings).store_original_data,
                fresh,
            )
        } else {
            generators
        }),
    decreases cfg.meta_transaction_retries - retries,
{
    let limit = cfg.meta_transaction_retries as int;
    let rest = (limit - retries + 4) as nat;
    match (answers.merges)(retries) {
        Err(e) => {
            if retries + 1 < limit {
                lemma_generators(answers, retries + 1, stream, is_new, cfg, generators, fresh);
            } else {
                lemma_done_numbers_nothing(
                    Err(e),
                    rest,
                    answers,
                    stream,
                    is_new,
                    cfg,
                    generators,
                    fresh,
                );
            }
        },
        Ok(None) => {
            lemma_done_numbers_nothing(
                Ok(None),
                rest,
                answers,
                stream,
                is_new,
                cfg,
                generators,
                fresh,
            );
        },
        Ok(Some(merged)) => {
            reveal_with_fuel(generators_over, 3);
            lemma_reading_numbers(merged, rest, answers, stream, is_new, cfg, generators, fresh);
            lemma_reading_numbers(
                merged,
                (rest - 1) as nat,
                answers,
                stream,
                is_new,
                cfg,
                generators,
                fresh,
            );
        },
    }
}

/// What is published of a merged schema: with the text of the settings in its metadata where
/// columns were chosen for the stream.
pub open spec fn published_update<E>(
    merged: MergedView,
    answers: DiffAnswers<E>,
    stream: StreamId,
    cfg: SchemaConfig,
) -> UpdateView {
    let found = settings_or_default(answers.settings);
    if defines_fields(merged.schema, stream.stream_type, defined_in(found), cfg) {
        UpdateView {
            schema: SchemaView {
                fields: merged.schema.fields,
                metadata: merged.schema.metadata.insert("settings"@, answers.text),
            },
            delta: merged.delta,
            settings: StreamSettingsView { defined_schema_fields: Some(answers.chosen), ..found },
        }
    } else {
        UpdateView { schema: merged.schema, delta: merged.delta, settings: found }
    }
}

/// Whether one call of an update may turn the schemas at hand from `before` into `after`.
pub open spec fn diff_step_leaves<E>(
    step: DiffStepView<E>,
    stream: StreamId,
    cfg: SchemaConfig,
    before: Map<Seq<char>, SchemaView>,
    after: Map<Seq<char>, SchemaView>,
) -> bool {
    match step {
        DiffStepView::Publish(_, update) => is_published(before, stream, update, cfg, after),
        _ => after == before,
    }
}

/// Whether `calls` calls of an update may turn the schemas at hand from `before` into `after`.
pub open spec fn diff_leaves<E>(
    step: DiffStepView<E>,
    calls: nat,
    answers: DiffAnswers<E>,
    stream: StreamId,
    is_new: bool,
    cfg: SchemaConfig,
    before: Map<Seq<char>, SchemaView>,
    after: Map<Seq<char>, SchemaView>,
) -> bool
    decreases calls,
{
    if calls == 0 {
        after == before
    } else {
        exists|between: Map<Seq<char>, SchemaView>| #[trigger]
            diff_step_leaves(step, stream, cfg, before, between) && diff_leaves(
                next_diff_step(step, answers, stream, is_new, cfg),
                (calls - 1) as nat,
                answers,
                stream,
                is_new,
                cfg,
                between,
                after,
            )
    }
}

/// Whether an update, from its start to its end, may turn the schemas at hand from `before` into
/// `after`.
pub open spec fn update_leaves<E>(
    answers: DiffAnswers<E>,
    stream: StreamId,
    is_new: bool,
    inferred: SchemaView,
    record_ts: int,
    cfg: SchemaConfig,
    before: Map<Seq<char>, SchemaView>,
    after: Map<Seq<char>, SchemaView>,
) -> bool {
    diff_leaves(
        first_step::<E>(cfg.meta_transaction_retries as int),
        update_calls(cfg),
        answers,
        stream,
        is_new,
        cfg,
        started_map(before, stream, is_new, inferred, record_ts),
        after,
    )
}

/// After an update a worker has the published schema at hand, narrowed to the columns that are
/// defined, where a merge changed the stored one. Where none did, a new stream is known by its
/// first records, and another as before.
pub proof fn schemas_at_hand_after_an_update<E>(
    answers: DiffAnswers<E>,
    stream: StreamId,
    is_new: bool,
    inferred: SchemaView,
    record_ts: int,
    cfg: SchemaConfig,
    before: Map<Seq<char>, SchemaView>,
    after: Map<Seq<char>, SchemaView>,
)
    requires
        update_leaves(answers, stream, is_new, inferred, record_ts, cfg, before, after),
    ensures
        match merged_by(answers, cfg) {
            Some(merged) => is_published(
                before,
                stream,
                published_update(merged, answers, stream, cfg),
                cfg,
                after,
            ),
            None => after == started_map(before, stream, is_new, inferred, record_ts),
        },
{
    let started = started_map(before, stream, is_new, inferred, record_ts);
    if cfg.meta_transaction_retries > 0 {
        lemma_schemas(answers, 0, stream, is_new, cfg, started, after);
        let name = stream.stream_name@;
        assert(started.insert(name, after[name]) =~= before.insert(name, after[name]));
    } else {
        lemma_done_leaves(
            Ok(None),
            update_calls(cfg),
            answers,
            stream,
            is_new,
            cfg,
            started,
            after,
        );
    }
}

proof fn lemma_done_leaves<E>(
    outcome: Result<Option<SchemaEvolutionView>, E>,
    calls: nat,
    answers: DiffAnswers<E>,
    stream: StreamId,
    is_new: bool,
    cfg: SchemaConfig,
    before: Map<Seq<char>, SchemaView>,
    after: Map<Seq<char>, SchemaView>,
)
    requires
        diff_leaves(
            DiffStepView::<E>::Done(outcome),
            calls,
            answers,
            stream,
            is_new,
            cfg,
            before,
            after,
        ),
    ensures
        after == before,
    decreases calls,
{
    if calls > 0 {
        lemma_done_leaves(
            outcome,
            (calls - 1) as nat,
            answers,
            stream,
            is_new,
            cfg,
            before,
            after,
        );
    }
}

/// A call that does not publish leaves the schemas at hand to the calls that follow.
proof fn lemma_next_leaves<E>(
    step: DiffStepView<E>,
    calls: nat,
    answers: DiffAnswers<E>,
    stream: StreamId,
    is_new: bool,
    cfg: SchemaConfig,
    before: Map<Seq<char>, SchemaView>,
    after: Map<Seq<char>, SchemaView>,
)
    requires
        calls > 0,
        !(step is Publish),
        diff_leaves(step, calls, answers, stream, is_new, cfg, before, after),
    ensures
        diff_leaves(
            next_diff_step(step, answers, stream, is_new, cfg),
            (calls - 1) as nat,
            answers,
            stream,
            is_new,
            cfg,
            before,
            after,
        ),
{
}

proof fn lemma_publishing_leaves<E>(
    update: UpdateView,
    calls: nat,
    answers: DiffAnswers<E>,
    stream: StreamId,
    is_new: bool,
    cfg: SchemaConfig,
    before: Map<Seq<char>, SchemaView>,
    after: Map<Seq<char>, SchemaView>,
)
    requires
        calls > 0,
        diff_leaves(
            DiffStepView::<E>::Publish(stream_path(stream), update),
            calls,
            answers,
            stream,
            is_new,
            cfg,
            before,
            after,
        ),
    ensures
        is_published(before, stream, update, cfg, after),
{
    let step = DiffStepView::<E>::Publish(stream_path(stream), update);
    let next = next_diff_step(step, answers, stream, is_new, cfg);
    let rest = (calls - 1) as nat;
    let between = choose|between: Map<Seq<char>, SchemaView>| #[trigger]
        diff_step_leaves(step, stream, cfg, before, between) && diff_leaves(
            next,
            rest,
            answers,
            stream,
            is_new,
            cfg,
            between,
            after,
        );
    lemma_done_leaves(next->Done_0, rest, answers, stream, is_new, cfg, between, after);
}

proof fn lemma_reading_leaves<E>(
    merged: MergedView,
    calls: nat,
    answers: DiffAnswers<E>,
    stream: StreamId,
    is_new: bool,
    cfg: SchemaConfig,
    before: Map<Seq<char>, SchemaView>,
    after: Map<Seq<char>, SchemaView>,
)
    requires
        calls >= 4,
        diff_leaves(
            DiffStepView::<E>::ReadSettings(merged),
            calls,
            answers,
            stream,
            is_new,
            cfg,
            before,
            after,
        ),
    ensures
        is_published(
            before,
            stream,
            published_update(merged, answers, stream, cfg),
            cfg,
            after,
        ),
{
    let reading = DiffStepView::<E>::ReadSettings(merged);
    let update = published_update(merged, answers, stream, cfg);
    lemma_next_leaves(reading, calls, answers, stream, is_new, cfg, before, after);
    let second = next_diff_step(reading, answers, stream, is_new, cfg);
    if second is Publish {
        lemma_publishing_leaves(
            update,
            (calls - 1) as nat,
            answers,
            stream,
            is_new,
            cfg,
            before,
            after,
        );
    } else {
        let rest = (calls - 1) as nat;
        lemma_next_leaves(second, rest, answers, stream, is_new, cfg, before, after);
        let third = next_diff_step(second, answers, stream, is_new, cfg);
        let rest = (calls - 2) as nat;
        lemma_next_leaves(third, rest, answers, stream, is_new, cfg, before, after);
        let rest = (calls - 3) as nat;
        lemma_publishing_leaves(update, rest, answers, stream, is_new, cfg, before, after);
    }
}

proof fn lemma_schemas<E>(
    answers: DiffAnswers<E>,
    retries: int,
    stream: StreamId,
    is_new: bool,
    cfg: SchemaConfig,
    before: Map<Seq<char>, SchemaView>,
    after: Map<Seq<char>, SchemaView>,
)
    requires
        0 <= retries < cfg.meta_transaction_retries,
        diff_leaves(
            DiffStepView::<E>::Merge(retries),
            (cfg.meta_transaction_retries - retries + 5) as nat,
            answers,
            stream,
            is_new,
            cfg,
            before,
            after,
        ),
    ensures
        match merge_result(answers.merges, retries, cfg.meta_transaction_retries as int) {
            Ok(Some(merged)) => is_published(
                before,
                stream,
                published_update(merged, answers, stream, cfg),
                cfg,
                after,
            ),
            _ => after == before,
        },
    decreases cfg.meta_transaction_retries - retries,
{
    let limit = cfg.meta_transaction_retries as int;
    let rest = (limit - retries + 4) as nat;
    let step = DiffStepView::<E>::Merge(retries);
    lemma_next_leaves(step, rest + 1, answers, stream, is_new, cfg, before, after);
    let next = next_diff_step(step, answers, stream, is_new, cfg);
    match (answers.merges)(retries) {
        Err(e) => {
            if retries + 1 < limit {
                lemma_schemas(answers, retries + 1, stream, is_new, cfg, before, after);
            } else {
                lemma_done_leaves(Err(e), rest, answers, stream, is_new, cfg, before, after);
            }
        },
        Ok(None) => {
            lemma_done_leaves(Ok(None), rest, answers, stream, is_new, cfg, before, after);
        },
        Ok(Some(merged)) => {
            if is_new {
                lemma_next_leaves(next, rest, answers, stream, is_new, cfg, before, after);
                let rest = (rest - 1) as nat;
                lemma_reading_leaves(merged, rest, answers, stream, is_new, cfg, before, after);
            } else {
                lemma_reading_leaves(merged, rest, answers, stream, is_new, cfg, before, after);
            }
        },
    }
}

/// Whether the update that is requested may turn the schemas at hand from `before` into `after`.
pub open spec fn request_leaves<E>(
    answers: DiffAnswers<E>,
    request: DiffRequestView,
    cfg: SchemaConfig,
    before: Map<Seq<char>, SchemaView>,
    after: Map<Seq<char>, SchemaView>,
) -> bool {
    update_leaves(
        answers,
        request.stream,
        request.is_new,
        request.inferred,
        request.record_ts,
        cfg,
        before,
        after,
    )
}

/// Whether one call of a check may turn the schemas at hand from `before` into `after`.
pub open spec fn check_step_leaves<E>(
    step: CheckStepView<E>,
    answers: CheckAnswers<E>,
    stream: StreamId,
    record_ts: int,
    cfg: SchemaConfig,
    before: Map<Seq<char>, SchemaView>,
    after: Map<Seq<char>, SchemaView>,
) -> bool {
    match step {
        CheckStepView::LoadSchema => after == loaded_map(before, stream, answers.loaded),
        CheckStepView::ReadStreamSettings { .. } => is_narrowed_at_hand(
            before,
            stream,
            answers.stream_setting,
            cfg,
            after,
        ),
        CheckStepView::UpdateSchema { inferred, is_new, .. } => request_leaves(
            answers.first_update,
            first_update(stream, record_ts, inferred, is_new),
            cfg,
            before,
            after,
        ),
        CheckStepView::UpdateLatest { inferred, is_new, .. } => request_leaves(
            answers.second_update,
            second_update(stream, answers.now, inferred, is_new),
            cfg,
            before,
            after,
        ),
        _ => after == before,
    }
}

/// Whether `calls` calls of a check may turn the schemas at hand from `before` into `after`, where
/// `schema` is what the records are held against.
pub open spec fn check_leaves<E>(
    step: CheckStepView<E>,
    calls: nat,
    schema: SchemaView,
    answers: CheckAnswers<E>,
    stream: StreamId,
    record_ts: int,
    cfg: SchemaConfig,
    before: Map<Seq<char>, SchemaView>,
    after: Map<Seq<char>, SchemaView>,
) -> bool
    decreases calls,
{
    if calls == 0 {
        after == before
    } else {
        exists|between: Map<Seq<char>, SchemaView>| #[trigger]
            check_step_leaves(step, answers, stream, record_ts, cfg, before, between)
                && check_leaves(
                next_check_step(step, schema, answers, stream, record_ts, cfg),
                (calls - 1) as nat,
                schema,
                answers,
                stream,
                record_ts,
                cfg,
                between,
                after,
            )
    }
}

/// Whether every stream but that of `name` is as before, and that one still at hand where it was.
pub open spec fn leaves_others_alone(
    name: Seq<char>,
    before: Map<Seq<char>, SchemaView>,
    after: Map<Seq<char>, SchemaView>,
) -> bool {
    &&& after.remove(name) == before.remove(name)
    &&& before.contains_key(name) ==> after.contains_key(name)
}

/// A check leaves every other stream as it is. A stream at hand stays at hand, whatever the
/// services outside answer, and a stream whose check succeeds is at hand afterwards.
pub proof fn schemas_at_hand_after_a_check<E>(
    schema: SchemaView,
    answers: CheckAnswers<E>,
    stream: StreamId,
    record_ts: int,
    cfg: SchemaConfig,
    before: Map<Seq<char>, SchemaView>,
    after: Map<Seq<char>, SchemaView>,
)
    requires
        check_leaves(
            first_check_step::<E>(before, stream, cfg),
            6,
            schema,
            answers,
            stream,
            record_ts,
            cfg,
            before,
            after,
        ),
    ensures
        leaves_others_alone(stream.stream_name@, before, after),
        check_after(
            first_check_step::<E>(before, stream, cfg),
            6,
            schema,
            answers,
            stream,
            record_ts,
            cfg,
        ) matches CheckStepView::Done(Ok(_)) ==> after.contains_key(stream.stream_name@),
{
    let name = stream.stream_name@;
    let first = first_check_step::<E>(before, stream, cfg);
    lemma_check_leaves(first, 6, schema, answers, stream, record_ts, cfg, before, after);
    if !before.contains_key(name) {
        if answers.loaded is Ok {
            let between = loaded_map(before, stream, answers.loaded);
            lemma_check_leaves(
                next_check_step(first, schema, answers, stream, record_ts, cfg),
                5,
                schema,
                answers,
                stream,
                record_ts,
                cfg,
                between,
                after,
            );
        } else {
            check_of_a_stream_not_at_hand(answers, stream, record_ts, cfg);
        }
    }
}

proof fn lemma_update_leaves<E>(
    answers: DiffAnswers<E>,
    stream: StreamId,
    is_new: bool,
    inferred: SchemaView,
    record_ts: int,
    cfg: SchemaConfig,
    before: Map<Seq<char>, SchemaView>,
    after: Map<Seq<char>, SchemaView>,
)
    requires
        update_leaves(answers, stream, is_new, inferred, record_ts, cfg, before, after),
    ensures
        leaves_others_alone(stream.stream_name@, before, after),
{
    let name = stream.stream_name@;
    schemas_at_hand_after_an_update(
        answers,
        stream,
        is_new,
        inferred,
        record_ts,
        cfg,
        before,
        after,
    );
    assert(after.remove(name) =~= before.remove(name));
}

proof fn lemma_check_leaves<E>(
    step: CheckStepView<E>,
    calls: nat,
    schema: SchemaView,
    answers: CheckAnswers<E>,
    stream: StreamId,
    record_ts: int,
    cfg: SchemaConfig,
    before: Map<Seq<char>, SchemaView>,
    after: Map<Seq<char>, SchemaView>,
)
    requires
        check_leaves(step, calls, schema, answers, stream, record_ts, cfg, before, after),
    ensures
        leaves_others_alone(stream.stream_name@, before, after),
    decreases calls,
{
    if calls > 0 {
        let name = stream.stream_name@;
        let next = next_check_step(step, schema, answers, stream, record_ts, cfg);
        let rest = (calls - 1) as nat;
        let between = choose|between: Map<Seq<char>, SchemaView>| #[trigger]
            check_step_leaves(step, answers, stream, record_ts, cfg, before, between)
                && check_leaves(
                next,
                rest,
                schema,
                answers,
                stream,
                record_ts,
                cfg,
                between,
                after,
            );
        match step {
            CheckStepView::UpdateSchema { inferred, is_new, .. } => {
                lemma_update_leaves(
                    answers.first_update,
                    stream,
                    is_new,
                    inferred,
                    record_ts,
                    cfg,
                    before,
                    between,
                );
            },
            CheckStepView::UpdateLatest { inferred, is_new, .. } => {
                lemma_update_leaves(
                    answers.second_update,
                    stream,
                    is_new,
                    inferred,
                    answers.now,
                    cfg,
                    before,
                    between,
                );
            },
            _ => {
                assert(between.remove(name) =~= before.remove(name));
            },
        }
        lemma_check_leaves(next, rest, schema, answers, stream, record_ts, cfg, between, after);
    }
}

/// Records that are refused for their columns, or pass at once, leave every schema at hand as it
/// is.
pub proof fn refused_records_leave_the_schemas_at_hand<E>(
    schema: SchemaView,
    answers: CheckAnswers<E>,
    stream: StreamId,
    record_ts: int,
    cfg: SchemaConfig,
    before: Map<Seq<char>, SchemaView>,
    after: Map<Seq<char>, SchemaView>,
)
    requires
        check_leaves(
            after_loading::<E>(schema, cfg),
            5,
            schema,
            answers,
            stream,
            record_ts,
            cfg,
            before,
            after,
        ),
        match check_result(schema, answers, stream, record_ts, cfg) {
            Ok((_, inferred)) => inferred is None,
            Err(e) => e is TooManyColumns,
        },
    ensures
        after == before,
{
    let first = after_loading::<E>(schema, cfg);
    if first is Done {
        lemma_ended_check_leaves(
            first->Done_0,
            5,
            schema,
            answers,
            stream,
            record_ts,
            cfg,
            before,
            after,
        );
    } else {
        let next = next_check_step(first, schema, answers, stream, record_ts, cfg);
        lemma_ended_check_leaves(
            next->Done_0,
            4,
            schema,
            answers,
            stream,
            record_ts,
            cfg,
            before,
            after,
        );
    }
}

proof fn lemma_ended_check_leaves<E>(
    outcome: Result<(SchemaEvolutionView, Option<SchemaView>), CheckErrorView<E>>,
    calls: nat,
    schema: SchemaView,
    answers: CheckAnswers<E>,
    stream: StreamId,
    record_ts: int,
    cfg: SchemaConfig,
    before: Map<Seq<char>, SchemaView>,
    after: Map<Seq<char>, SchemaView>,
)
    requires
        check_leaves(
            CheckStepView::<E>::Done(outcome),
            calls,
            schema,
            answers,
            stream,
            record_ts,
            cfg,
            before,
            after,
        ),
    ensures
        after == before,
    decreases calls,
{
    if calls > 0 {
        lemma_ended_check_leaves(
            outcome,
            (calls - 1) as nat,
            schema,
            answers,
            stream,
            record_ts,
            cfg,
            before,
            after,
        );
    }
}

} // verus!
