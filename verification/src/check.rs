//! Holding new records against the schema of their stream.
//!
//! As in [`crate::diff`], each [`CheckStep`] says which call to the services outside is due and
//! takes its outcome.

use crate::diff::{first_schema, update_outcome_view, DiffRequest, DiffRequestView};
use crate::errors::{columns_limit_message, get_request_columns_limit_error};
use crate::evolution::{
    answers_view, datatype_delta, defined_by, fitting_records_change_nothing, fits,
    get_schema_changes, is_conflict, optional_type_view, schema_changed, type_conflicts,
    SchemaEvolution, SchemaEvolutionView,
};
use crate::field::{fields_view, lemma_fields_view, DataType, DataTypeView, Field, FieldView};
use crate::narrowing::{generate_schema_for_defined_schema_fields, is_generated};
use crate::schema::{column, same_columns, Schema, SchemaCache, SchemaView, StreamSchemaMap};
use crate::settings::{
    defined_in, settings_or_default, settings_view, stream_path, SchemaConfig, StreamId,
    StreamSettings, StreamSettingsView,
};
use crate::text::{decimal, decimal_reads_back, i64_in, parse_i64};
use vstd::prelude::*;

verus! {

/// Records of a stream, the earliest of which is of `record_ts`.
pub struct CheckRequest {
    pub stream: StreamId,
    pub record_ts: i64,
}

/// Why records are refused.
#[derive(Debug)]
pub enum CheckError<E> {
    /// They have more columns than a record may have. The text says so.
    TooManyColumns(String),
    /// A service outside failed.
    Outside(E),
}

/// The schema of the stream is to be loaded.
pub struct SchemaPending {}

/// The schema of the records is to be inferred.
pub struct InferencePending {}

/// The settings are to be read that the metadata of the stream's schema holds.
pub struct ColumnSettingsPending {
    pub inferred_schema: Schema,
}

/// Each type in `conflicts` is to be judged against that of the column of `inferred_schema` in the
/// same place: whether turning the first into the second widens it.
pub struct WideningPending {
    pub inferred_schema: Schema,
    pub setting: Option<StreamSettings>,
    pub conflicts: Vec<Option<DataType>>,
}

/// The settings of the stream are to be looked up.
pub struct StreamSettingsPending {
    pub inferred_schema: Schema,
    pub delta: Vec<Field>,
}

/// The stored schema is to be brought up to the records, from their time on.
pub struct UpdatePending {
    pub inferred_schema: Schema,
    pub is_new: bool,
    /// The records come before the version of the schema that holds now, so that the schema is to
    /// be brought up to them from now on too.
    pub need_insert_new_latest: bool,
}

/// The stored schema is to be brought up to the records, from now on.
pub struct LatestPending {
    pub inferred_schema: Schema,
    pub is_new: bool,
    pub evolution: SchemaEvolution,
}

/// The call that is due, or what came of it all: how the schema evolved, and the schema of the
/// records where it was looked at.
pub enum CheckStep<E> {
    LoadSchema(SchemaPending),
    InferSchema(InferencePending),
    ReadColumnSettings(ColumnSettingsPending),
    JudgeWidening(WideningPending),
    ReadStreamSettings(StreamSettingsPending),
    UpdateSchema(UpdatePending),
    UpdateLatest(LatestPending),
    Done(Result<(SchemaEvolution, Option<Schema>), CheckError<E>>),
}

/// What a [`CheckError`] is.
pub enum CheckErrorView<E> {
    TooManyColumns(Seq<char>),
    Outside(E),
}

/// What a [`CheckStep`] is.
pub enum CheckStepView<E> {
    LoadSchema,
    InferSchema,
    ReadColumnSettings { inferred: SchemaView },
    JudgeWidening {
        inferred: SchemaView,
        setting: Option<StreamSettingsView>,
        conflicts: Seq<Option<DataTypeView>>,
    },
    ReadStreamSettings { inferred: SchemaView, delta: Seq<FieldView> },
    UpdateSchema { inferred: SchemaView, is_new: bool, need_insert_new_latest: bool },
    UpdateLatest { inferred: SchemaView, is_new: bool, evolution: SchemaEvolutionView },
    Done(Result<(SchemaEvolutionView, Option<SchemaView>), CheckErrorView<E>>),
}

/// What the outcome of a check is.
pub open spec fn check_outcome_view<E>(
    outcome: Result<(SchemaEvolution, Option<Schema>), CheckError<E>>,
) -> Result<(SchemaEvolutionView, Option<SchemaView>), CheckErrorView<E>> {
    match outcome {
        Ok((evolution, Some(schema))) => Ok((evolution@, Some(schema@))),
        Ok((evolution, None)) => Ok((evolution@, None)),
        Err(CheckError::TooManyColumns(message)) => Err(CheckErrorView::TooManyColumns(message@)),
        Err(CheckError::Outside(e)) => Err(CheckErrorView::Outside(e)),
    }
}

/// What the outcome of loading a schema is.
pub open spec fn load_outcome_view<E>(outcome: Result<SchemaCache, E>) -> Result<SchemaView, E> {
    match outcome {
        Ok(schema) => Ok(schema@),
        Err(e) => Err(e),
    }
}

/// What a list of optional types is.
pub open spec fn types_view(types: Seq<Option<DataType>>) -> Seq<Option<DataTypeView>> {
    types.map_values(|t: Option<DataType>| optional_type_view(t))
}

impl<E> View for CheckStep<E> {
    type V = CheckStepView<E>;

    open spec fn view(&self) -> CheckStepView<E> {
        match *self {
            CheckStep::LoadSchema(_) => CheckStepView::LoadSchema,
            CheckStep::InferSchema(_) => CheckStepView::InferSchema,
            CheckStep::ReadColumnSettings(p) => CheckStepView::ReadColumnSettings {
                inferred: p.inferred_schema@,
            },
            CheckStep::JudgeWidening(p) => CheckStepView::JudgeWidening {
                inferred: p.inferred_schema@,
                setting: settings_view(p.setting),
                conflicts: types_view(p.conflicts@),
            },
            CheckStep::ReadStreamSettings(p) => CheckStepView::ReadStreamSettings {
                inferred: p.inferred_schema@,
                delta: fields_view(p.delta@),
            },
            CheckStep::UpdateSchema(p) => CheckStepView::UpdateSchema {
                inferred: p.inferred_schema@,
                is_new: p.is_new,
                need_insert_new_latest: p.need_insert_new_latest,
            },
            CheckStep::UpdateLatest(p) => CheckStepView::UpdateLatest {
                inferred: p.inferred_schema@,
                is_new: p.is_new,
                evolution: p.evolution@,
            },
            CheckStep::Done(outcome) => CheckStepView::Done(check_outcome_view(outcome)),
        }
    }
}

/// The outcome for a schema that stays as it is, without a look at the types.
pub open spec fn unchanged() -> SchemaEvolutionView {
    SchemaEvolutionView { is_schema_changed: false, types_delta: None }
}

/// What is due once the schema of the stream is at hand.
pub open spec fn after_loading<E>(schema: SchemaView, cfg: SchemaConfig) -> CheckStepView<E> {
    if schema.fields.len() > 0 && cfg.skip_schema_validation {
        CheckStepView::Done(Ok((unchanged(), None)))
    } else {
        CheckStepView::InferSchema
    }
}

/// What is due once the schema of the stream was loaded, or could not be.
pub open spec fn after_load<E>(
    outcome: Result<SchemaView, E>,
    cfg: SchemaConfig,
) -> CheckStepView<E> {
    match outcome {
        Ok(schema) => after_loading(schema, cfg),
        Err(e) => CheckStepView::Done(Err(CheckErrorView::Outside(e))),
    }
}

/// What is due at the start, where a worker has `schemas` at hand.
pub open spec fn first_check_step<E>(
    schemas: Map<Seq<char>, SchemaView>,
    stream: StreamId,
    cfg: SchemaConfig,
) -> CheckStepView<E> {
    if schemas.contains_key(stream.stream_name@) {
        after_loading(schemas[stream.stream_name@], cfg)
    } else {
        CheckStepView::LoadSchema
    }
}

/// What is due once the schema of the records is inferred.
pub open spec fn after_inference<E>(
    schema: SchemaView,
    stream: StreamId,
    outcome: Result<SchemaView, E>,
    cfg: SchemaConfig,
) -> CheckStepView<E> {
    match outcome {
        Err(e) => CheckStepView::Done(Err(CheckErrorView::Outside(e))),
        Ok(inferred) => if same_columns(schema, inferred) {
            CheckStepView::Done(Ok((unchanged(), None)))
        } else if inferred.fields.len() > cfg.req_cols_per_record_limit {
            CheckStepView::Done(
                Err(
                    CheckErrorView::TooManyColumns(
                        columns_limit_message(
                            stream_path(stream),
                            inferred.fields.len() as int,
                            cfg.req_cols_per_record_limit as int,
                        ),
                    ),
                ),
            )
        } else if schema.fields.len() == 0 {
            CheckStepView::UpdateSchema { inferred, is_new: true, need_insert_new_latest: false }
        } else {
            CheckStepView::ReadColumnSettings { inferred }
        },
    }
}

/// The types that the stream has for those columns of `inferred` with which it is in conflict.
pub open spec fn conflict_types(
    schema: SchemaView,
    defined: Seq<Seq<char>>,
    inferred: Seq<FieldView>,
) -> Seq<Option<DataTypeView>> {
    Seq::new(
        inferred.len(),
        |i: int|
            if is_conflict(schema, defined, inferred[i]) {
                Some(column(schema, inferred[i].name).data_type)
            } else {
                None
            },
    )
}

/// What is due once the settings in the metadata of the stream's schema are read.
pub open spec fn after_column_settings<E>(
    schema: SchemaView,
    inferred: SchemaView,
    setting: Option<StreamSettingsView>,
    record_ts: int,
    cfg: SchemaConfig,
) -> CheckStepView<E> {
    if cfg.widening_schema_evolution {
        CheckStepView::JudgeWidening {
            inferred,
            setting,
            conflicts: conflict_types(schema, defined_by(setting), inferred.fields),
        }
    } else {
        after_changes(schema, inferred, setting, None, record_ts)
    }
}

/// The time from which a version of a schema holds, as its metadata says; zero where that is not a
/// number.
pub open spec fn version_start(schema: SchemaView) -> Option<int> {
    if schema.metadata.contains_key("start_dt"@) {
        match i64_in(schema.metadata["start_dt"@]) {
            Some(start) => Some(start),
            None => Some(0),
        }
    } else {
        None
    }
}

/// Whether records of that time come before the version of the schema.
pub open spec fn precedes_version(schema: SchemaView, record_ts: int) -> bool {
    version_start(schema) matches Some(start) && record_ts < start
}

/// What is due once it is known how the records differ from the schema of a stream that has
/// columns.
pub open spec fn after_changes<E>(
    schema: SchemaView,
    inferred: SchemaView,
    setting: Option<StreamSettingsView>,
    widening: Option<Seq<bool>>,
    record_ts: int,
) -> CheckStepView<E> {
    let defined = defined_by(setting);
    let delta = datatype_delta(schema, defined, inferred.fields, widening);
    if schema_changed(schema, defined, inferred.fields, widening) {
        CheckStepView::UpdateSchema {
            inferred,
            is_new: false,
            need_insert_new_latest: delta.len() > 0 && precedes_version(schema, record_ts),
        }
    } else {
        CheckStepView::ReadStreamSettings { inferred, delta }
    }
}

/// The first update that is due: the columns of the records, from their time on.
pub open spec fn first_update(
    stream: StreamId,
    record_ts: int,
    inferred: SchemaView,
    is_new: bool,
) -> DiffRequestView {
    DiffRequestView { stream, is_new, inferred, record_ts }
}

/// The second update that is due: the columns of the records, from `now` on.
pub open spec fn second_update(
    stream: StreamId,
    now: int,
    inferred: SchemaView,
    is_new: bool,
) -> DiffRequestView {
    DiffRequestView { stream, is_new, inferred, record_ts: now }
}

/// The schemas that a worker has at hand once that of `stream` was loaded, or could not be.
pub open spec fn loaded_map<E>(
    schemas: Map<Seq<char>, SchemaView>,
    stream: StreamId,
    outcome: Result<SchemaView, E>,
) -> Map<Seq<char>, SchemaView> {
    match outcome {
        Ok(schema) => schemas.insert(stream.stream_name@, schema),
        Err(_) => schemas,
    }
}

/// Whether `after` is what a worker has at hand once the settings of `stream` were looked up: its
/// schema, narrowed to the columns that are defined, and every other stream as before.
pub open spec fn is_narrowed_at_hand(
    before: Map<Seq<char>, SchemaView>,
    stream: StreamId,
    setting: Option<StreamSettingsView>,
    cfg: SchemaConfig,
    after: Map<Seq<char>, SchemaView>,
) -> bool {
    let name = stream.stream_name@;
    let settings = settings_or_default(setting);
    &&& after == before.insert(name, after[name])
    &&& is_generated(
        before[name],
        defined_in(settings),
        settings.store_original_data,
        cfg,
        after[name],
    )
}

/// How the schema evolved by an update: not at all where the update found nothing to do.
pub open spec fn evolution_or_unchanged(
    evolution: Option<SchemaEvolutionView>,
) -> SchemaEvolutionView {
    match evolution {
        Some(evolution) => evolution,
        None => unchanged(),
    }
}

/// What is due after the first update.
pub open spec fn after_update<E>(
    inferred: SchemaView,
    is_new: bool,
    need_insert_new_latest: bool,
    outcome: Result<Option<SchemaEvolutionView>, E>,
) -> CheckStepView<E> {
    match outcome {
        Err(e) => CheckStepView::Done(Err(CheckErrorView::Outside(e))),
        Ok(evolution) => if need_insert_new_latest {
            CheckStepView::UpdateLatest {
                inferred,
                is_new,
                evolution: evolution_or_unchanged(evolution),
            }
        } else {
            CheckStepView::Done(Ok((evolution_or_unchanged(evolution), Some(inferred))))
        },
    }
}

/// What comes of a check that leaves the schema, once the settings of the stream are looked up.
pub open spec fn after_stream_settings<E>(
    inferred: SchemaView,
    delta: Seq<FieldView>,
) -> CheckStepView<E> {
    CheckStepView::Done(
        Ok(
            (
                SchemaEvolutionView { is_schema_changed: false, types_delta: Some(delta) },
                Some(inferred),
            ),
        ),
    )
}

/// What comes of a check after the second update.
pub open spec fn after_latest<E>(
    inferred: SchemaView,
    evolution: SchemaEvolutionView,
    outcome: Result<Option<SchemaEvolutionView>, E>,
) -> CheckStepView<E> {
    CheckStepView::Done(
        match outcome {
            Ok(_) => Ok((evolution, Some(inferred))),
            Err(e) => Err(CheckErrorView::Outside(e)),
        },
    )
}

fn unchanged_outcome<E>() -> (r: CheckStep<E>)
    ensures
        r@ == CheckStepView::<E>::Done(Ok((unchanged(), None))),
{
    CheckStep::Done(
        Ok((SchemaEvolution { is_schema_changed: false, types_delta: None }, None)),
    )
}

fn loaded_step<E>(schema: &Schema, cfg: &SchemaConfig) -> (r: CheckStep<E>)
    ensures
        r@ == after_loading::<E>(schema@, *cfg),
{
    proof {
        lemma_fields_view(schema.fields@);
    }
    if schema.fields.len() > 0 && cfg.skip_schema_validation {
        unchanged_outcome()
    } else {
        CheckStep::InferSchema(InferencePending {  })
    }
}

/// Starts to hold records against the schema of their stream.
pub fn check_for_schema<E>(
    request: &CheckRequest,
    stream_schema_map: &StreamSchemaMap,
    cfg: &SchemaConfig,
) -> (r: CheckStep<E>)
    ensures
        r@ == first_check_step::<E>(stream_schema_map@, request.stream, *cfg),
{
    match stream_schema_map.get(request.stream.stream_name.as_str()) {
        Some(schema) => loaded_step(schema.schema(), cfg),
        None => CheckStep::LoadSchema(SchemaPending {  }),
    }
}

impl SchemaPending {
    /// Takes the schema that was loaded and puts it at hand.
    pub fn loaded<E>(
        self,
        outcome: Result<SchemaCache, E>,
        request: &CheckRequest,
        stream_schema_map: &mut StreamSchemaMap,
        cfg: &SchemaConfig,
    ) -> (r: CheckStep<E>)
        ensures
            final(stream_schema_map)@ == loaded_map(
                old(stream_schema_map)@,
                request.stream,
                load_outcome_view(outcome),
            ),
            r@ == after_load(load_outcome_view(outcome), *cfg),
    {
        match outcome {
            Ok(schema) => {
                let step = loaded_step(schema.schema(), cfg);
                stream_schema_map.insert(request.stream.stream_name.clone(), schema);
                step
            },
            Err(e) => CheckStep::Done(Err(CheckError::Outside(e))),
        }
    }
}

impl InferencePending {
    /// Takes the schema that was inferred from the records.
    pub fn inferred<E>(
        self,
        outcome: Result<Schema, E>,
        request: &CheckRequest,
        stream_schema_map: &StreamSchemaMap,
        cfg: &SchemaConfig,
    ) -> (r: CheckStep<E>)
        requires
            stream_schema_map@.contains_key(request.stream.stream_name@),
        ensures
            r@ == after_inference(
                stream_schema_map@[request.stream.stream_name@],
                request.stream,
                match outcome {
                    Ok(inferred) => Ok(inferred@),
                    Err(e) => Err(e),
                },
                *cfg,
            ),
    {
        let inferred_schema = match outcome {
            Ok(inferred_schema) => inferred_schema,
            Err(e) => {
                return CheckStep::Done(Err(CheckError::Outside(e)));
            },
        };
        let schema = stream_schema_map.get(
            request.stream.stream_name.as_str(),
        ).unwrap().schema();
        proof {
            lemma_fields_view(schema.fields@);
            lemma_fields_view(inferred_schema.fields@);
        }
        if schema.same_columns(&inferred_schema) {
            return unchanged_outcome();
        }
        if inferred_schema.fields.len() > cfg.req_cols_per_record_limit {
            return CheckStep::Done(
                Err(
                    CheckError::TooManyColumns(
                        get_request_columns_limit_error(
                            request.stream.path().as_str(),
                            inferred_schema.fields.len(),
                            cfg.req_cols_per_record_limit,
                        ),
                    ),
                ),
            );
        }
        if schema.fields.len() == 0 {
            CheckStep::UpdateSchema(
                UpdatePending { inferred_schema, is_new: true, need_insert_new_latest: false },
            )
        } else {
            CheckStep::ReadColumnSettings(ColumnSettingsPending { inferred_schema })
        }
    }
}

/// Calls `chrono::Utc::now` and `timestamp_micros` on what it gives. Trusted: the moment is not
/// before the start of 1970, which `chrono` takes for granted of the system clock. Nothing else is
/// stated of it.
#[verifier::external_body]
fn now_micros() -> (r: i64)
    ensures
        r >= 0,
{
    chrono::Utc::now().timestamp_micros()
}

/// Whether records of that time come before the version of the schema.
fn comes_before_version(schema: &Schema, record_ts: i64) -> (r: bool)
    ensures
        r == precedes_version(schema@, record_ts as int),
{
    match schema.metadata.get("start_dt") {
        Some(start_dt) => {
            let created_at: i64 = match parse_i64(start_dt.as_str()) {
                Some(start) => start,
                None => 0,
            };
            record_ts < created_at
        },
        None => false,
    }
}

fn changes_step<E>(
    schema: &SchemaCache,
    inferred_schema: Schema,
    setting: &Option<StreamSettings>,
    widening: &Option<Vec<bool>>,
    record_ts: i64,
) -> (r: CheckStep<E>)
    requires
        widening matches Some(answers) ==> answers@.len() == inferred_schema@.fields.len(),
    ensures
        r@ == after_changes::<E>(
            schema@,
            inferred_schema@,
            settings_view(*setting),
            answers_view(*widening),
            record_ts as int,
        ),
{
    let (is_schema_changed, delta) = get_schema_changes(
        schema,
        &inferred_schema,
        setting,
        widening,
    );
    proof {
        lemma_fields_view(delta@);
    }
    if is_schema_changed {
        let need_insert_new_latest = delta.len() > 0 && comes_before_version(
            schema.schema(),
            record_ts,
        );
        CheckStep::UpdateSchema(
            UpdatePending { inferred_schema, is_new: false, need_insert_new_latest },
        )
    } else {
        CheckStep::ReadStreamSettings(StreamSettingsPending { inferred_schema, delta })
    }
}

impl ColumnSettingsPending {
    /// Takes the settings that the metadata of the stream's schema holds.
    pub fn settings_read<E>(
        self,
        setting: Option<StreamSettings>,
        request: &CheckRequest,
        stream_schema_map: &StreamSchemaMap,
        cfg: &SchemaConfig,
    ) -> (r: CheckStep<E>)
        requires
            stream_schema_map@.contains_key(request.stream.stream_name@),
        ensures
            r@ == after_column_settings::<E>(
                stream_schema_map@[request.stream.stream_name@],
                self.inferred_schema@,
                settings_view(setting),
                request.record_ts as int,
                *cfg,
            ),
    {
        let schema = stream_schema_map.get(request.stream.stream_name.as_str()).unwrap();
        if cfg.widening_schema_evolution {
            let conflicts = type_conflicts(schema, &self.inferred_schema, &setting);
            assert(types_view(conflicts@) =~= conflict_types(
                schema@,
                defined_by(settings_view(setting)),
                self.inferred_schema@.fields,
            ));
            CheckStep::JudgeWidening(
                WideningPending { inferred_schema: self.inferred_schema, setting, conflicts },
            )
        } else {
            changes_step(schema, self.inferred_schema, &setting, &None, request.record_ts)
        }
    }
}

impl WideningPending {
    /// Takes the judgement on each column of the records.
    pub fn judged<E>(
        self,
        widening: Vec<bool>,
        request: &CheckRequest,
        stream_schema_map: &StreamSchemaMap,
    ) -> (r: CheckStep<E>)
        requires
            stream_schema_map@.contains_key(request.stream.stream_name@),
            widening@.len() == self.inferred_schema@.fields.len(),
        ensures
            r@ == after_changes::<E>(
                stream_schema_map@[request.stream.stream_name@],
                self.inferred_schema@,
                settings_view(self.setting),
                Some(widening@),
                request.record_ts as int,
            ),
    {
        let schema = stream_schema_map.get(request.stream.stream_name.as_str()).unwrap();
        changes_step(
            schema,
            self.inferred_schema,
            &self.setting,
            &Some(widening),
            request.record_ts,
        )
    }
}

impl StreamSettingsPending {
    /// Takes the settings of the stream and ends the check. Where they define columns, the schema
    /// at hand is narrowed to these.
    pub fn settings_read<E>(
        self,
        setting: Option<StreamSettings>,
        request: &CheckRequest,
        stream_schema_map: &mut StreamSchemaMap,
        cfg: &SchemaConfig,
    ) -> (r: CheckStep<E>)
        requires
            old(stream_schema_map)@.contains_key(request.stream.stream_name@),
        ensures
            is_narrowed_at_hand(
                old(stream_schema_map)@,
                request.stream,
                settings_view(setting),
                *cfg,
                final(stream_schema_map)@,
            ),
            r@ == after_stream_settings::<E>(self.inferred_schema@, fields_view(self.delta@)),
    {
        let settings = match setting {
            Some(settings) => settings,
            None => StreamSettings::default(),
        };
        let defined_schema_fields = settings.defined_fields();
        let need_original = settings.store_original_data;
        if defined_schema_fields.len() > 0 {
            let schema = generate_schema_for_defined_schema_fields(
                stream_schema_map.get(request.stream.stream_name.as_str()).unwrap(),
                defined_schema_fields.as_slice(),
                need_original,
                cfg,
            );
            stream_schema_map.insert(request.stream.stream_name.clone(), schema);
        } else {
            assert(stream_schema_map@ =~= stream_schema_map@.insert(
                request.stream.stream_name@,
                stream_schema_map@[request.stream.stream_name@],
            ));
        }
        CheckStep::Done(
            Ok(
                (
                    SchemaEvolution { is_schema_changed: false, types_delta: Some(self.delta) },
                    Some(self.inferred_schema),
                ),
            ),
        )
    }
}

impl UpdatePending {
    /// The update that is due: the columns of the records, from their time on.
    pub fn request(&self, request: &CheckRequest) -> (r: DiffRequest)
        ensures
            r.stream == request.stream,
            r.is_new == self.is_new,
            r.inferred_schema@ == self.inferred_schema@,
            r.record_ts == request.record_ts,
            r@ == first_update(
                request.stream,
                request.record_ts as int,
                self.inferred_schema@,
                self.is_new,
            ),
    {
        DiffRequest {
            stream: request.stream.clone(),
            is_new: self.is_new,
            inferred_schema: self.inferred_schema.clone(),
            record_ts: request.record_ts,
        }
    }

    /// Takes the outcome of the update.
    pub fn updated<E>(self, outcome: Result<Option<SchemaEvolution>, E>) -> (r: CheckStep<E>)
        ensures
            r@ == after_update(
                self.inferred_schema@,
                self.is_new,
                self.need_insert_new_latest,
                update_outcome_view(outcome),
            ),
    {
        let evolution = match outcome {
            Ok(Some(evolution)) => evolution,
            Ok(None) => SchemaEvolution { is_schema_changed: false, types_delta: None },
            Err(e) => {
                return CheckStep::Done(Err(CheckError::Outside(e)));
            },
        };
        if self.need_insert_new_latest {
            CheckStep::UpdateLatest(
                LatestPending {
                    inferred_schema: self.inferred_schema,
                    is_new: self.is_new,
                    evolution,
                },
            )
        } else {
            CheckStep::Done(Ok((evolution, Some(self.inferred_schema))))
        }
    }
}

impl LatestPending {
    /// The update that is due: the columns of the records, from `now` on.
    pub fn request(&self, request: &CheckRequest, now: i64) -> (r: DiffRequest)
        ensures
            r.stream == request.stream,
            r.is_new == self.is_new,
            r.inferred_schema@ == self.inferred_schema@,
            r.record_ts == now,
            r@ == second_update(request.stream, now as int, self.inferred_schema@, self.is_new),
    {
        DiffRequest {
            stream: request.stream.clone(),
            is_new: self.is_new,
            inferred_schema: self.inferred_schema.clone(),
            record_ts: now,
        }
    }

    /// The same from the present moment on. Which moment that is, is left open.
    pub fn request_from_now(&self, request: &CheckRequest) -> (r: DiffRequest)
        ensures
            r.stream == request.stream,
            r.is_new == self.is_new,
            r.inferred_schema@ == self.inferred_schema@,
            r.record_ts >= 0,
    {
        self.request(request, now_micros())
    }

    /// Takes the outcome of the second update, of which only a failure counts, and ends the check.
    pub fn updated<E>(self, outcome: Result<Option<SchemaEvolution>, E>) -> (r: CheckStep<E>)
        ensures
            r@ == after_latest(
                self.inferred_schema@,
                self.evolution@,
                update_outcome_view(outcome),
            ),
    {
        match outcome {
            Ok(_) => CheckStep::Done(Ok((self.evolution, Some(self.inferred_schema)))),
            Err(e) => CheckStep::Done(Err(CheckError::Outside(e))),
        }
    }
}

/// Records that fit the schema of a stream leave it as it is: the check goes on to the settings,
/// without a conflict, whatever the metadata sets and however types may widen.
pub proof fn fitting_records_leave_the_schema<E>(
    schema: SchemaView,
    inferred: SchemaView,
    setting: Option<StreamSettingsView>,
    widening: Option<Seq<bool>>,
    record_ts: int,
)
    requires
        forall|i: int|
            0 <= i < inferred.fields.len() ==> fits(schema, #[trigger] inferred.fields[i]),
    ensures
        after_changes::<E>(schema, inferred, setting, widening, record_ts) == (
        CheckStepView::<E>::ReadStreamSettings { inferred, delta: Seq::empty() }),
{
    fitting_records_change_nothing(schema, defined_by(setting), inferred.fields, widening);
    assert(datatype_delta(schema, defined_by(setting), inferred.fields, widening) =~= Seq::empty());
}

/// The schema is updated a second time, from now on, exactly when some type is in conflict and the
/// records come before the version that holds, provided that the first update succeeded.
/// What is told of the evolution is that of the first update.
pub proof fn late_records_update_the_schema_twice<E>(
    schema: SchemaView,
    inferred: SchemaView,
    setting: Option<StreamSettingsView>,
    widening: Option<Seq<bool>>,
    record_ts: int,
    evolution: Option<SchemaEvolutionView>,
)
    requires
        schema_changed(schema, defined_by(setting), inferred.fields, widening),
    ensures
        ({
            let delta = datatype_delta(schema, defined_by(setting), inferred.fields, widening);
            &&& after_changes::<E>(schema, inferred, setting, widening, record_ts) matches
                CheckStepView::UpdateSchema { inferred: columns, is_new, need_insert_new_latest }
            &&& columns == inferred
            &&& !is_new
            &&& after_update::<E>(columns, is_new, need_insert_new_latest, Ok(evolution)) == (
            if delta.len() > 0 && precedes_version(schema, record_ts) {
                CheckStepView::<E>::UpdateLatest {
                    inferred,
                    is_new: false,
                    evolution: evolution_or_unchanged(evolution),
                }
            } else {
                CheckStepView::<E>::Done(Ok((evolution_or_unchanged(evolution), Some(inferred))))
            })
        }),
{
}

/// While a new stream is known by its first records alone, records with the same columns pass at
/// once.
pub proof fn first_records_pass_again<E>(
    inferred: SchemaView,
    record_ts: int,
    stream: StreamId,
    cfg: SchemaConfig,
)
    ensures
        after_inference::<E>(first_schema(inferred, record_ts), stream, Ok(inferred), cfg)
            == CheckStepView::<E>::Done(Ok((unchanged(), None))),
{
}

/// A version whose metadata gives its time in decimal holds from that time on.
pub proof fn version_start_reads_back(schema: SchemaView, start: i64, record_ts: int)
    requires
        schema.metadata.contains_key("start_dt"@),
        schema.metadata["start_dt"@] == decimal(start as int),
    ensures
        version_start(schema) == Some(start as int),
        precedes_version(schema, record_ts) <==> record_ts < start,
{
    decimal_reads_back(start);
}

} // verus!
