//! Bringing the stored schema of a stream up to the columns of new records.
//!
//! The work alternates between decisions, which are made here, and calls to the services that
//! store schemas, which the caller makes. Each [`DiffStep`] says which call is due and takes its
//! outcome.

use crate::evolution::{SchemaEvolution, SchemaEvolutionView};
use crate::field::{fields_view, lemma_fields_view, Field, FieldView};
use crate::metadata::Metadata;
use crate::narrowing::{
    choose_defined_fields, chosen_names, chosen_names_are_columns, chosen_names_are_some,
    chosen_names_meet_the_bound, defines_fields, generate_schema_for_defined_schema_fields,
    is_common, is_generated, is_narrowed, narrowed_schema_is_small, narrowing_keeps_columns,
    searched_names,
};
use crate::schema::{
    column, column_index, has_column, lemma_column_index, Schema, SchemaCache, SchemaView,
    StreamSchemaMap,
};
use crate::settings::{
    defined_in, settings_or_default, settings_view, stream_path, SchemaConfig, StreamId,
    StreamSettings, StreamSettingsView, StreamType,
};
use crate::text::{decimal, decimal_reads_back, i64_in, i64_text};
use vstd::prelude::*;

verus! {

/// What merging the columns of new records into a stored schema would change.
#[derive(Debug)]
pub struct MergeChanges {
    pub is_schema_changed: bool,
    pub field_datatype_delta: Vec<Field>,
    pub merged_fields: Vec<Field>,
}

/// What [`MergeChanges`] are.
pub struct MergeChangesView {
    pub is_schema_changed: bool,
    pub field_datatype_delta: Seq<FieldView>,
    pub merged_fields: Seq<FieldView>,
}

impl View for MergeChanges {
    type V = MergeChangesView;

    open spec fn view(&self) -> MergeChangesView {
        MergeChangesView {
            is_schema_changed: self.is_schema_changed,
            field_datatype_delta: fields_view(self.field_datatype_delta@),
            merged_fields: fields_view(self.merged_fields@),
        }
    }
}

/// What a schema is after changes, with the columns whose types are in conflict; nothing where
/// there is no change.
pub open spec fn with_changes(schema: SchemaView, changes: MergeChangesView) -> Option<MergedView> {
    if changes.is_schema_changed {
        Some(
            MergedView {
                schema: SchemaView { fields: changes.merged_fields, metadata: schema.metadata },
                delta: changes.field_datatype_delta,
            },
        )
    } else {
        None
    }
}

/// The stored schema with the changes made, and the columns whose types are in conflict; nothing
/// where nothing changes. The metadata stays that of the stored schema.
pub fn get_merged_schema(db_schema: Schema, changes: MergeChanges) -> (r: Option<
    (Vec<Field>, Schema),
>)
    ensures
        r is Some <==> changes.is_schema_changed,
        r matches Some(merged) ==> {
            &&& fields_view(merged.0@) == fields_view(changes.field_datatype_delta@)
            &&& merged.1@.fields == fields_view(changes.merged_fields@)
            &&& merged.1@.metadata == db_schema@.metadata
        },
        (match r {
            Some(merged) => Some(
                MergedView { schema: merged.1@, delta: fields_view(merged.0@) },
            ),
            None => None,
        }) == with_changes(db_schema@, changes@),
{
    if !changes.is_schema_changed {
        return None;
    }
    let metadata = db_schema.metadata;
    Some((changes.field_datatype_delta, Schema::new(changes.merged_fields).with_metadata(metadata)))
}

/// The columns of new records of a stream, and the time from which they are to count.
pub struct DiffRequest {
    pub stream: StreamId,
    /// The stream has no columns yet.
    pub is_new: bool,
    pub inferred_schema: Schema,
    pub record_ts: i64,
}

/// What a [`DiffRequest`] is.
pub struct DiffRequestView {
    pub stream: StreamId,
    pub is_new: bool,
    pub inferred: SchemaView,
    pub record_ts: int,
}

impl View for DiffRequest {
    type V = DiffRequestView;

    open spec fn view(&self) -> DiffRequestView {
        DiffRequestView {
            stream: self.stream,
            is_new: self.is_new,
            inferred: self.inferred_schema@,
            record_ts: self.record_ts as int,
        }
    }
}

/// The columns of [`DiffRequest::inferred_schema`] are to be merged into the stored schema.
pub struct MergePending {
    /// The attempts that have failed so far.
    pub retries: usize,
}

/// The stream is to be given its owner.
pub struct OwnershipPending {
    pub schema: Schema,
    pub delta: Vec<Field>,
}

/// The settings are to be read that the metadata of `schema` holds.
pub struct ReadingPending {
    pub schema: Schema,
    pub delta: Vec<Field>,
}

/// The settings are to be encoded as text.
pub struct EncodingPending {
    pub schema: Schema,
    pub delta: Vec<Field>,
    pub settings: StreamSettings,
}

/// The settings are to be stored.
pub struct SavingPending {
    pub schema: Schema,
    pub delta: Vec<Field>,
    pub settings: StreamSettings,
}

/// Schema and settings are to be put into the caches of this node, under `cache_key`.
pub struct PublishingPending {
    pub cache_key: String,
    pub schema: SchemaCache,
    pub delta: Vec<Field>,
    pub settings: StreamSettings,
}

/// The call that is due, or what came of it all: nothing where the stored schema already had the
/// columns.
pub enum DiffStep<E> {
    Merge(MergePending),
    SetOwnership(OwnershipPending),
    ReadSettings(ReadingPending),
    EncodeSettings(EncodingPending),
    SaveSettings(SavingPending),
    Publish(PublishingPending),
    Done(Result<Option<SchemaEvolution>, E>),
}

/// A merged schema with the columns whose types are in conflict.
pub struct MergedView {
    pub schema: SchemaView,
    pub delta: Seq<FieldView>,
}

/// The same with the settings of the stream.
pub struct UpdateView {
    pub schema: SchemaView,
    pub delta: Seq<FieldView>,
    pub settings: StreamSettingsView,
}

/// What a [`DiffStep`] is.
pub enum DiffStepView<E> {
    Merge(int),
    SetOwnership(MergedView),
    ReadSettings(MergedView),
    EncodeSettings(UpdateView),
    SaveSettings(UpdateView),
    Publish(Seq<char>, UpdateView),
    Done(Result<Option<SchemaEvolutionView>, E>),
}

impl View for OwnershipPending {
    type V = MergedView;

    open spec fn view(&self) -> MergedView {
        MergedView { schema: self.schema@, delta: fields_view(self.delta@) }
    }
}

impl View for ReadingPending {
    type V = MergedView;

    open spec fn view(&self) -> MergedView {
        MergedView { schema: self.schema@, delta: fields_view(self.delta@) }
    }
}

impl View for EncodingPending {
    type V = UpdateView;

    open spec fn view(&self) -> UpdateView {
        UpdateView {
            schema: self.schema@,
            delta: fields_view(self.delta@),
            settings: self.settings@,
        }
    }
}

impl View for SavingPending {
    type V = UpdateView;

    open spec fn view(&self) -> UpdateView {
        UpdateView {
            schema: self.schema@,
            delta: fields_view(self.delta@),
            settings: self.settings@,
        }
    }
}

impl View for PublishingPending {
    type V = UpdateView;

    open spec fn view(&self) -> UpdateView {
        UpdateView {
            schema: self.schema@,
            delta: fields_view(self.delta@),
            settings: self.settings@,
        }
    }
}

/// What an optional evolution is.
pub open spec fn evolution_view(evolution: Option<SchemaEvolution>) -> Option<SchemaEvolutionView> {
    match evolution {
        Some(evolution) => Some(evolution@),
        None => None,
    }
}

/// What the outcome of an update is.
pub open spec fn update_outcome_view<E>(outcome: Result<Option<SchemaEvolution>, E>) -> Result<
    Option<SchemaEvolutionView>,
    E,
> {
    match outcome {
        Ok(evolution) => Ok(evolution_view(evolution)),
        Err(e) => Err(e),
    }
}

/// What the outcome of a merge is.
pub open spec fn merge_outcome_view<E>(outcome: Result<Option<(Schema, Vec<Field>)>, E>) -> Result<
    Option<MergedView>,
    E,
> {
    match outcome {
        Ok(Some(merged)) => Ok(
            Some(MergedView { schema: merged.0@, delta: fields_view(merged.1@) }),
        ),
        Ok(None) => Ok(None),
        Err(e) => Err(e),
    }
}

impl<E> View for DiffStep<E> {
    type V = DiffStepView<E>;

    open spec fn view(&self) -> DiffStepView<E> {
        match *self {
            DiffStep::Merge(p) => DiffStepView::Merge(p.retries as int),
            DiffStep::SetOwnership(p) => DiffStepView::SetOwnership(p@),
            DiffStep::ReadSettings(p) => DiffStepView::ReadSettings(p@),
            DiffStep::EncodeSettings(p) => DiffStepView::EncodeSettings(p@),
            DiffStep::SaveSettings(p) => DiffStepView::SaveSettings(p@),
            DiffStep::Publish(p) => DiffStepView::Publish(p.cache_key@, p@),
            DiffStep::Done(outcome) => DiffStepView::Done(update_outcome_view(outcome)),
        }
    }
}

/// The schema under which a worker knows a new stream until the stored one is there.
pub open spec fn first_schema(inferred: SchemaView, record_ts: int) -> SchemaView {
    SchemaView {
        fields: inferred.fields,
        metadata: Map::<Seq<char>, Seq<char>>::empty().insert("created_at"@, decimal(record_ts)),
    }
}

/// What is due at the start, where an update is tried up to `limit` times.
pub open spec fn first_step<E>(limit: int) -> DiffStepView<E> {
    if limit > 0 {
        DiffStepView::Merge(0)
    } else {
        DiffStepView::Done(Ok(None))
    }
}

/// What is due after a merge for which `retries` attempts had failed before.
pub open spec fn after_merge<E>(
    is_new: bool,
    retries: int,
    outcome: Result<Option<MergedView>, E>,
    limit: int,
) -> DiffStepView<E> {
    match outcome {
        Err(e) => if retries + 1 < limit {
            DiffStepView::Merge(retries + 1)
        } else {
            DiffStepView::Done(Err(e))
        },
        Ok(None) => DiffStepView::Done(Ok(None)),
        Ok(Some(merged)) => if is_new {
            DiffStepView::SetOwnership(merged)
        } else {
            DiffStepView::ReadSettings(merged)
        },
    }
}

/// The settings once the columns of a stream were chosen for it: nothing but these is set anew.
pub open spec fn with_chosen_fields(
    settings: StreamSettingsView,
    schema: SchemaView,
    cfg: SchemaConfig,
    updated: StreamSettingsView,
) -> bool {
    &&& updated.store_original_data == settings.store_original_data
    &&& updated.other == settings.other
    &&& updated.defined_schema_fields is Some
    &&& updated.defined_schema_fields->0.no_duplicates()
    &&& updated.defined_schema_fields->0.to_set() == chosen_names(schema, cfg)
}

/// What is due once a stream has its owner.
pub open spec fn after_ownership<E>(merged: MergedView) -> DiffStepView<E> {
    DiffStepView::ReadSettings(merged)
}

/// What is due once the settings are stored, or could not be.
pub open spec fn after_saving<E>(stream: StreamId, update: UpdateView) -> DiffStepView<E> {
    DiffStepView::Publish(stream_path(stream), update)
}

/// What comes of an update that is published.
pub open spec fn after_publishing<E>(update: UpdateView) -> DiffStepView<E> {
    DiffStepView::Done(
        Ok(
            Some(
                SchemaEvolutionView { is_schema_changed: true, types_delta: Some(update.delta) },
            ),
        ),
    )
}

/// Whether `next` is due once the settings in the metadata of a merged schema are read: these are
/// to be encoded with the columns chosen where the stream is narrowed on its own, and else
/// published.
pub open spec fn follows_settings<E>(
    merged: MergedView,
    setting: Option<StreamSettingsView>,
    stream: StreamId,
    cfg: SchemaConfig,
    next: DiffStepView<E>,
) -> bool {
    let found = settings_or_default(setting);
    if defines_fields(merged.schema, stream.stream_type, defined_in(found), cfg) {
        &&& next matches DiffStepView::EncodeSettings(update)
        &&& update.schema == merged.schema
        &&& update.delta == merged.delta
        &&& with_chosen_fields(found, merged.schema, cfg, update.settings)
    } else {
        next == DiffStepView::<E>::Publish(
            stream_path(stream),
            UpdateView { schema: merged.schema, delta: merged.delta, settings: found },
        )
    }
}

/// What is to be stored once the settings are encoded as `text`: the schema with the text in its
/// metadata.
pub open spec fn with_encoded_settings(update: UpdateView, text: Seq<char>) -> UpdateView {
    UpdateView {
        schema: SchemaView {
            fields: update.schema.fields,
            metadata: update.schema.metadata.insert("settings"@, text),
        },
        ..update
    }
}

/// Whether a node gains a generator for a stream: where originals are stored and it has none.
pub open spec fn gains_generator(store_original_data: bool, numbered: bool) -> bool {
    store_original_data && !numbered
}

/// The generators of a node, by stream, once the stream under `key` is published: with a fresh one
/// where originals are stored and there was none.
pub open spec fn generators_after<G>(
    generators: Map<Seq<char>, G>,
    key: Seq<char>,
    store_original_data: bool,
    fresh: G,
) -> Map<Seq<char>, G> {
    if gains_generator(store_original_data, generators.contains_key(key)) {
        generators.insert(key, fresh)
    } else {
        generators
    }
}

/// The schemas that a worker has at hand once an update has started.
pub open spec fn started_map(
    schemas: Map<Seq<char>, SchemaView>,
    stream: StreamId,
    is_new: bool,
    inferred: SchemaView,
    record_ts: int,
) -> Map<Seq<char>, SchemaView> {
    if is_new {
        schemas.insert(stream.stream_name@, first_schema(inferred, record_ts))
    } else {
        schemas
    }
}

/// Whether `after` is what a worker has at hand once an update of `stream` was published: its
/// schema, narrowed to the columns that are defined, and every other stream as before.
pub open spec fn is_published(
    before: Map<Seq<char>, SchemaView>,
    stream: StreamId,
    update: UpdateView,
    cfg: SchemaConfig,
    after: Map<Seq<char>, SchemaView>,
) -> bool {
    let name = stream.stream_name@;
    &&& after == before.insert(name, after[name])
    &&& is_generated(
        update.schema,
        defined_in(update.settings),
        update.settings.store_original_data,
        cfg,
        after[name],
    )
}

/// Starts to bring the stored schema of a stream up to `request`. A new stream is put at hand at
/// once.
pub fn handle_diff_schema<E>(
    request: &DiffRequest,
    stream_schema_map: &mut StreamSchemaMap,
    cfg: &SchemaConfig,
) -> (r: DiffStep<E>)
    ensures
        final(stream_schema_map)@ == started_map(
            old(stream_schema_map)@,
            request.stream,
            request.is_new,
            request.inferred_schema@,
            request.record_ts as int,
        ),
        r@ == first_step::<E>(cfg.meta_transaction_retries as int),
{
    if request.is_new {
        let mut metadata = Metadata::new();
        metadata.insert("created_at".to_string(), i64_text(request.record_ts));
        stream_schema_map.insert(
            request.stream.stream_name.clone(),
            SchemaCache::new(request.inferred_schema.clone().with_metadata(metadata)),
        );
    }
    if cfg.meta_transaction_retries > 0 {
        DiffStep::Merge(MergePending { retries: 0 })
    } else {
        DiffStep::Done(Ok(None))
    }
}

impl MergePending {
    /// Takes the outcome of the merge. A failed one is tried again, as often as is allowed.
    pub fn merged<E>(
        self,
        outcome: Result<Option<(Schema, Vec<Field>)>, E>,
        request: &DiffRequest,
        cfg: &SchemaConfig,
    ) -> (r: DiffStep<E>)
        requires
            self.retries < cfg.meta_transaction_retries,
        ensures
            r@ == after_merge(
                request.is_new,
                self.retries as int,
                merge_outcome_view(outcome),
                cfg.meta_transaction_retries as int,
            ),
    {
        match outcome {
            Err(e) => {
                let retries: usize = self.retries + 1;
                if retries < cfg.meta_transaction_retries {
                    DiffStep::Merge(MergePending { retries })
                } else {
                    DiffStep::Done(Err(e))
                }
            },
            Ok(None) => DiffStep::Done(Ok(None)),
            Ok(Some((schema, delta))) => {
                if request.is_new {
                    DiffStep::SetOwnership(OwnershipPending { schema, delta })
                } else {
                    DiffStep::ReadSettings(ReadingPending { schema, delta })
                }
            },
        }
    }
}

impl OwnershipPending {
    /// Goes on once the stream has its owner.
    pub fn owned<E>(self) -> (r: DiffStep<E>)
        ensures
            r@ == after_ownership::<E>(self@),
    {
        DiffStep::ReadSettings(ReadingPending { schema: self.schema, delta: self.delta })
    }
}

fn publish<E>(
    schema: Schema,
    delta: Vec<Field>,
    settings: StreamSettings,
    request: &DiffRequest,
) -> (r: DiffStep<E>)
    ensures
        r@ == DiffStepView::<E>::Publish(
            stream_path(request.stream),
            UpdateView { schema: schema@, delta: fields_view(delta@), settings: settings@ },
        ),
{
    DiffStep::Publish(
        PublishingPending {
            cache_key: request.stream.path(),
            schema: SchemaCache::new(schema),
            delta,
            settings,
        },
    )
}

impl ReadingPending {
    /// Takes the settings that the metadata holds. A log stream with too many columns is narrowed
    /// on its own.
    pub fn settings_read<E>(
        self,
        settings: Option<StreamSettings>,
        request: &DiffRequest,
        cfg: &SchemaConfig,
    ) -> (r: DiffStep<E>)
        ensures
            follows_settings(self@, settings_view(settings), request.stream, *cfg, r@),
    {
        let mut settings = match settings {
            Some(settings) => settings,
            None => StreamSettings::default(),
        };
        let defined_schema_fields = settings.defined_fields();
        proof {
            lemma_fields_view(self.schema.fields@);
        }
        if cfg.allow_user_defined_schemas && cfg.udschema_max_fields > 0
            && request.stream.stream_type.is_logs() && defined_schema_fields.len() == 0
            && self.schema.fields.len() > cfg.udschema_max_fields {
            settings.defined_schema_fields = Some(choose_defined_fields(&self.schema, cfg));
            DiffStep::EncodeSettings(
                EncodingPending { schema: self.schema, delta: self.delta, settings },
            )
        } else {
            publish(self.schema, self.delta, settings, request)
        }
    }
}

impl EncodingPending {
    /// Takes the text of the settings, which becomes part of the schema's metadata.
    pub fn encoded<E>(self, text: String) -> (r: DiffStep<E>)
        ensures
            r@ == DiffStepView::<E>::SaveSettings(with_encoded_settings(self@, text@)),
    {
        let mut schema = self.schema;
        schema.metadata.insert("settings".to_string(), text);
        DiffStep::SaveSettings(SavingPending { schema, delta: self.delta, settings: self.settings })
    }
}

impl SavingPending {
    /// Goes on once the settings are stored, or could not be.
    pub fn saved<E>(self, request: &DiffRequest) -> (r: DiffStep<E>)
        ensures
            r@ == after_saving::<E>(request.stream, self@),
    {
        publish(self.schema, self.delta, self.settings, request)
    }
}

impl PublishingPending {
    /// Whether the node is to number the records of the stream.
    pub fn needs_record_ids(&self) -> (r: bool)
        ensures
            r == self@.settings.store_original_data,
    {
        self.settings.store_original_data
    }

    /// Whether the node gains a generator of numbers for the stream, given whether it has one: not
    /// where it does, as that one is kept.
    pub fn gains_record_ids(&self, numbered: bool) -> (r: bool)
        ensures
            r == (self@.settings.store_original_data && !numbered),
            r == gains_generator(self@.settings.store_original_data, numbered),
    {
        self.needs_record_ids() && !numbered
    }

    /// Ends the update once the node's caches are up to date: the worker gets the schema, narrowed
    /// to the columns that are defined, and other streams are left alone.
    pub fn published<E>(
        self,
        request: &DiffRequest,
        stream_schema_map: &mut StreamSchemaMap,
        cfg: &SchemaConfig,
    ) -> (r: DiffStep<E>)
        ensures
            is_published(
                old(stream_schema_map)@,
                request.stream,
                self@,
                *cfg,
                final(stream_schema_map)@,
            ),
            r@ == after_publishing::<E>(self@),
    {
        let defined_schema_fields = self.settings.defined_fields();
        let final_schema = generate_schema_for_defined_schema_fields(
            &self.schema,
            defined_schema_fields.as_slice(),
            self.settings.store_original_data,
            cfg,
        );
        stream_schema_map.insert(request.stream.stream_name.clone(), final_schema);
        DiffStep::Done(
            Ok(Some(SchemaEvolution { is_schema_changed: true, types_delta: Some(self.delta) })),
        )
    }
}

/// What is due after merges that failed with `errors`, one after the other.
pub open spec fn after_failures<E>(is_new: bool, errors: Seq<E>, limit: int) -> DiffStepView<E>
    decreases errors.len(),
{
    if errors.len() == 0 {
        first_step(limit)
    } else {
        match after_failures(is_new, errors.drop_last(), limit) {
            DiffStepView::Merge(retries) => after_merge(
                is_new,
                retries,
                Err(errors.last()),
                limit,
            ),
            ended => ended,
        }
    }
}

/// A merge is tried until it succeeds, but no more often than the limit says. Where the last
/// attempt fails too, its error is the outcome; without any attempt there is no update and no
/// error.
pub proof fn merge_is_retried_up_to_the_limit<E>(is_new: bool, errors: Seq<E>, limit: int)
    requires
        limit >= 0,
    ensures
        errors.len() < limit ==> after_failures(is_new, errors, limit) == DiffStepView::<E>::Merge(
            errors.len() as int,
        ),
        0 < limit <= errors.len() ==> after_failures(is_new, errors, limit) == DiffStepView::<
            E,
        >::Done(Err(errors[limit - 1])),
        limit == 0 ==> after_failures(is_new, errors, limit) == DiffStepView::<E>::Done(Ok(None)),
    decreases errors.len(),
{
    if errors.len() > 0 {
        merge_is_retried_up_to_the_limit(is_new, errors.drop_last(), limit);
    }
}

/// Once columns were chosen for a stream, they are not chosen anew: they count as defined from
/// then on. This takes a column that may be chosen.
pub proof fn fields_are_chosen_once(
    settings: StreamSettingsView,
    schema: SchemaView,
    cfg: SchemaConfig,
    updated: StreamSettingsView,
    later_schema: SchemaView,
    stream_type: StreamType,
)
    requires
        with_chosen_fields(settings, schema, cfg, updated),
        exists|i: int|
            0 <= i < schema.fields.len() && !is_common((#[trigger] schema.fields[i]).name, cfg),
    ensures
        !defines_fields(later_schema, stream_type, defined_in(updated), cfg),
{
    chosen_names_are_some(schema, cfg);
    let name = choose|name: Seq<char>| #[trigger] chosen_names(schema, cfg).contains(name);
    assert(defined_in(updated).to_set().contains(name));
    assert(defined_in(updated).contains(name));
}

/// A worker's schema of a log stream that was narrowed on its own holds every column that full text
/// search looks into and that is not common to all streams, as it was. What was added to the
/// metadata meanwhile does not matter.
pub proof fn searched_columns_survive(
    settings: StreamSettingsView,
    schema: SchemaView,
    cfg: SchemaConfig,
    updated: StreamSettingsView,
    published: SchemaView,
    made: SchemaView,
    name: Seq<char>,
)
    requires
        with_chosen_fields(settings, schema, cfg, updated),
        published.fields == schema.fields,
        is_generated(
            published,
            defined_in(updated),
            updated.store_original_data,
            cfg,
            made,
        ),
        searched_names(schema, cfg).contains(name),
    ensures
        has_column(made, name),
        column(made, name) == column(schema, name),
{
    let defined = defined_in(updated);
    chosen_names_are_columns(schema, cfg);
    assert(defined.to_set().contains(name));
    narrowing_keeps_columns(published, defined, updated.store_original_data, cfg, made, name);
}

/// A worker's schema of a log stream that was narrowed on its own has no more names than the bound
/// and ten, where full text search looks into fewer columns than the bound.
pub proof fn chosen_fields_bound_the_schema(
    settings: StreamSettingsView,
    schema: SchemaView,
    cfg: SchemaConfig,
    updated: StreamSettingsView,
    published: SchemaView,
    made: SchemaView,
)
    requires
        with_chosen_fields(settings, schema, cfg, updated),
        published.fields == schema.fields,
        is_generated(
            published,
            defined_in(updated),
            updated.store_original_data,
            cfg,
            made,
        ),
        searched_names(schema, cfg).len() < cfg.udschema_max_fields,
    ensures
        column_index(made.fields).dom().len() <= cfg.udschema_max_fields + 10,
{
    let defined = defined_in(updated);
    let need_original = updated.store_original_data;
    chosen_names_meet_the_bound(schema, cfg);
    defined.unique_seq_to_set();
    if is_narrowed(published, defined) {
        narrowed_schema_is_small(published, defined, need_original, cfg, made);
    } else if defined.len() == 0 {
        assert forall|i: int| 0 <= i < schema.fields.len() implies is_common(
            (#[trigger] schema.fields[i]).name,
            cfg,
        ) by {
            if !is_common(schema.fields[i].name, cfg) {
                chosen_names_are_some(schema, cfg);
                let name = choose|name: Seq<char>| #[trigger]
                    chosen_names(schema, cfg).contains(name);
                assert(defined.to_set().contains(name));
                assert(defined.contains(name));
            }
        }
        lemma_column_index(schema.fields);
        let held = column_index(schema.fields).dom();
        let common = Set::<Seq<char>>::empty().insert(cfg.column_timestamp@).insert(
            cfg.column_all@,
        );
        assert forall|name: Seq<char>| held.contains(name) implies common.contains(name) by {
            assert(column_index(schema.fields).contains_key(name));
            let at = column_index(schema.fields)[name];
            assert(schema.fields[at].name == name);
        }
        vstd::set_lib::lemma_len_subset(held, common);
    }
}

/// The time from which a new stream is known can be read back from its first schema.
pub proof fn creation_time_reads_back(inferred: SchemaView, record_ts: i64)
    ensures
        first_schema(inferred, record_ts as int).metadata.contains_key("created_at"@),
        i64_in(first_schema(inferred, record_ts as int).metadata["created_at"@]) == Some(
            record_ts as int,
        ),
{
    decimal_reads_back(record_ts);
}

} // verus!
