//! How the columns of new records differ from those that a stream has.

use crate::field::{
    comparable_type, field_view, fields_view, lemma_fields_view, lemma_fields_view_push, DataType,
    DataTypeView, Field, FieldView,
};
use crate::schema::{
    column, column_index, has_column, lemma_column_index, Schema, SchemaCache, SchemaView,
};
use crate::settings::{defined_in, settings_view, StreamSettings, StreamSettingsView};
use crate::text::{contains_text, texts};
use vstd::prelude::*;

verus! {

/// What became of a schema when records were held against it.
#[derive(Debug)]
pub struct SchemaEvolution {
    pub is_schema_changed: bool,
    /// The columns whose types differ from those that came, where this was looked at.
    pub types_delta: Option<Vec<Field>>,
}

/// What a [`SchemaEvolution`] is.
pub struct SchemaEvolutionView {
    pub is_schema_changed: bool,
    pub types_delta: Option<Seq<FieldView>>,
}

impl View for SchemaEvolution {
    type V = SchemaEvolutionView;

    open spec fn view(&self) -> SchemaEvolutionView {
        SchemaEvolutionView {
            is_schema_changed: self.is_schema_changed,
            types_delta: match self.types_delta {
                Some(delta) => Some(fields_view(delta@)),
                None => None,
            },
        }
    }
}

/// The columns that optional settings define.
pub open spec fn defined_by(setting: Option<StreamSettingsView>) -> Seq<Seq<char>> {
    match setting {
        Some(setting) => defined_in(setting),
        None => Seq::empty(),
    }
}

/// Whether the stream has the column under another type, and the column is one of those that
/// count: all of them, or those that are defined where any are.
pub open spec fn is_conflict(
    schema: SchemaView,
    defined: Seq<Seq<char>>,
    item: FieldView,
) -> bool {
    &&& has_column(schema, item.name)
    &&& defined.len() == 0 || defined.contains(item.name)
    &&& comparable_type(column(schema, item.name).data_type) != comparable_type(item.data_type)
}

/// Whether the column of `inferred` at place `i` changes the schema: the stream does not have it,
/// or it widens a column of the stream.
pub open spec fn changes_schema(
    schema: SchemaView,
    defined: Seq<Seq<char>>,
    inferred: Seq<FieldView>,
    widening: Option<Seq<bool>>,
    i: int,
) -> bool {
    ||| !has_column(schema, inferred[i].name)
    ||| is_conflict(schema, defined, inferred[i]) && widening is Some && widening->0[i]
}

/// Whether any column of `inferred` changes the schema. `widening` holds for each of them whether
/// its type is wider than the one that the stream has; it is `None` where types do not widen.
pub open spec fn schema_changed(
    schema: SchemaView,
    defined: Seq<Seq<char>>,
    inferred: Seq<FieldView>,
    widening: Option<Seq<bool>>,
) -> bool {
    exists|i: int|
        0 <= i < inferred.len() && #[trigger] changes_schema(schema, defined, inferred, widening, i)
}

/// A column whose values are cast to its type.
pub open spec fn marked_for_cast(field: FieldView) -> FieldView {
    FieldView { metadata: field.metadata.insert("zo_cast"@, "true"@), ..field }
}

/// The column that stands for a conflict: the one that came where it is wider, else the one that
/// the stream has, marked where types may widen and this one does not.
pub open spec fn conflict_column(
    schema: SchemaView,
    item: FieldView,
    wider: Option<bool>,
) -> FieldView {
    match wider {
        None => column(schema, item.name),
        Some(true) => item,
        Some(false) => marked_for_cast(column(schema, item.name)),
    }
}

/// One column for each conflict, in the order of `inferred`.
pub open spec fn datatype_delta(
    schema: SchemaView,
    defined: Seq<Seq<char>>,
    inferred: Seq<FieldView>,
    widening: Option<Seq<bool>>,
) -> Seq<FieldView>
    decreases inferred.len(),
{
    if inferred.len() == 0 {
        Seq::empty()
    } else {
        let before = datatype_delta(schema, defined, inferred.drop_last(), widening);
        let item = inferred.last();
        if is_conflict(schema, defined, item) {
            let wider = match widening {
                Some(answers) => Some(answers[inferred.len() - 1]),
                None => None,
            };
            before.push(conflict_column(schema, item, wider))
        } else {
            before
        }
    }
}

/// What an optional list of answers is.
pub open spec fn answers_view(answers: Option<Vec<bool>>) -> Option<Seq<bool>> {
    match answers {
        Some(answers) => Some(answers@),
        None => None,
    }
}

/// What an optional type is.
pub open spec fn optional_type_view(t: Option<DataType>) -> Option<DataTypeView> {
    match t {
        Some(t) => Some(t@),
        None => None,
    }
}

/// The column of the stream with which `item` is in conflict, where there is one.
fn conflicting_column<'a>(
    schema: &'a SchemaCache,
    defined: &Vec<String>,
    item: &Field,
) -> (r: Option<&'a Field>)
    ensures
        r is Some <==> is_conflict(schema@, texts(defined@), item@),
        r matches Some(existing) ==> existing@ == column(schema@, item@.name),
{
    match schema.get(&item.name) {
        Some(existing) => {
            if defined.len() > 0 && !contains_text(defined, &item.name) {
                None
            } else if existing.data_type.same(&item.data_type) {
                None
            } else {
                Some(existing)
            }
        },
        None => None,
    }
}

fn defined_of(setting: &Option<StreamSettings>) -> (r: Vec<String>)
    ensures
        texts(r@) == defined_by(settings_view(*setting)),
{
    match setting {
        Some(setting) => setting.defined_fields(),
        None => {
            let none: Vec<String> = Vec::new();
            assert(texts(none@) =~= Seq::empty());
            none
        },
    }
}

/// For each column of `inferred_schema` that is in conflict with one of the stream, the type that
/// the stream has; `None` for the others. Each pair of types is to be judged before
/// [`get_schema_changes`] where types may widen.
pub fn type_conflicts(
    schema: &SchemaCache,
    inferred_schema: &Schema,
    setting: &Option<StreamSettings>,
) -> (r: Vec<Option<DataType>>)
    ensures
        r@.len() == inferred_schema@.fields.len(),
        forall|i: int|
            0 <= i < r@.len() ==> optional_type_view(#[trigger] r@[i]) == (if is_conflict(
                schema@,
                defined_by(settings_view(*setting)),
                inferred_schema@.fields[i],
            ) {
                Some(column(schema@, inferred_schema@.fields[i].name).data_type)
            } else {
                None
            }),
{
    let defined = defined_of(setting);
    let mut conflicts: Vec<Option<DataType>> = Vec::new();
    let mut i: usize = 0;
    proof {
        lemma_fields_view(inferred_schema.fields@);
    }
    while i < inferred_schema.fields.len()
        invariant
            i == conflicts@.len(),
            i <= inferred_schema.fields@.len(),
            texts(defined@) == defined_by(settings_view(*setting)),
            inferred_schema@.fields.len() == inferred_schema.fields@.len(),
            forall|j: int|
                0 <= j < inferred_schema.fields@.len() ==> #[trigger] fields_view(
                    inferred_schema.fields@,
                )[j] == field_view(inferred_schema.fields@[j]),
            forall|j: int|
                0 <= j < i ==> optional_type_view(#[trigger] conflicts@[j]) == (if is_conflict(
                    schema@,
                    texts(defined@),
                    inferred_schema@.fields[j],
                ) {
                    Some(column(schema@, inferred_schema@.fields[j].name).data_type)
                } else {
                    None
                }),
        decreases inferred_schema.fields@.len() - i,
    {
        let item = &inferred_schema.fields[i];
        assert(inferred_schema@.fields[i as int] == item@);
        match conflicting_column(schema, &defined, item) {
            Some(existing) => {
                conflicts.push(Some(existing.data_type.duplicate()));
            },
            None => {
                conflicts.push(None);
            },
        }
        i += 1;
    }
    conflicts
}

/// Whether the columns of `inferred_schema` change the schema of the stream, and the columns whose
/// types are in conflict. `setting` is what the metadata of the stream's schema sets, and
/// `widening` the judgement on each column of `inferred_schema`, or `None` where types do not
/// widen.
pub fn get_schema_changes(
    schema: &SchemaCache,
    inferred_schema: &Schema,
    setting: &Option<StreamSettings>,
    widening: &Option<Vec<bool>>,
) -> (r: (bool, Vec<Field>))
    requires
        widening matches Some(answers) ==> answers@.len() == inferred_schema@.fields.len(),
    ensures
        r.0 == schema_changed(
            schema@,
            defined_by(settings_view(*setting)),
            inferred_schema@.fields,
            answers_view(*widening),
        ),
        fields_view(r.1@) == datatype_delta(
            schema@,
            defined_by(settings_view(*setting)),
            inferred_schema@.fields,
            answers_view(*widening),
        ),
{
    let defined = defined_of(setting);
    let ghost names = texts(defined@);
    let ghost inferred = inferred_schema@.fields;
    let ghost answers = answers_view(*widening);
    let mut is_schema_changed = false;
    let mut field_datatype_delta: Vec<Field> = Vec::new();
    let mut i: usize = 0;
    proof {
        lemma_fields_view(inferred_schema.fields@);
        lemma_fields_view(field_datatype_delta@);
        assert(inferred.take(0) =~= Seq::empty());
        assert(fields_view(field_datatype_delta@) =~= Seq::empty());
    }
    while i < inferred_schema.fields.len()
        invariant
            i <= inferred.len(),
            inferred == inferred_schema@.fields,
            inferred.len() == inferred_schema.fields@.len(),
            names == texts(defined@),
            answers == answers_view(*widening),
            widening matches Some(list) ==> list@.len() == inferred.len(),
            forall|j: int|
                0 <= j < inferred_schema.fields@.len() ==> #[trigger] fields_view(
                    inferred_schema.fields@,
                )[j] == field_view(inferred_schema.fields@[j]),
            is_schema_changed == (exists|j: int|
                0 <= j < i && #[trigger] changes_schema(schema@, names, inferred, answers, j)),
            fields_view(field_datatype_delta@) == datatype_delta(
                schema@,
                names,
                inferred.take(i as int),
                answers,
            ),
        decreases inferred.len() - i,
    {
        let item = &inferred_schema.fields[i];
        let ghost before = field_datatype_delta@;
        let ghost was_changed = is_schema_changed;
        assert(inferred[i as int] == item@);
        assert(inferred.take(i + 1).drop_last() =~= inferred.take(i as int));
        assert(inferred.take(i + 1).last() == item@);
        if schema.get(&item.name).is_none() {
            is_schema_changed = true;
        }
        match conflicting_column(schema, &defined, item) {
            Some(existing) => {
                match widening {
                    None => {
                        field_datatype_delta.push(existing.duplicate());
                    },
                    Some(list) => {
                        if list[i] {
                            is_schema_changed = true;
                            field_datatype_delta.push(item.duplicate());
                        } else {
                            let mut marked = existing.duplicate();
                            marked.metadata.insert("zo_cast".to_string(), "true".to_string());
                            assert(marked@ == marked_for_cast(existing@));
                            field_datatype_delta.push(marked);
                        }
                    },
                }
                proof {
                    lemma_fields_view_push(before, field_datatype_delta@.last());
                    assert(field_datatype_delta@ =~= before.push(field_datatype_delta@.last()));
                }
            },
            None => {},
        }
        proof {
            assert(is_schema_changed == (was_changed || changes_schema(
                schema@,
                names,
                inferred,
                answers,
                i as int,
            )));
        }
        i += 1;
    }
    assert(inferred.take(i as int) =~= inferred);
    (is_schema_changed, field_datatype_delta)
}

/// Whether the stream has the column, under the same type.
pub open spec fn fits(schema: SchemaView, item: FieldView) -> bool {
    &&& has_column(schema, item.name)
    &&& comparable_type(column(schema, item.name).data_type) == comparable_type(item.data_type)
}

/// Records whose columns the stream has, each under the same type, change nothing and are in no
/// conflict, however types may widen.
pub proof fn fitting_records_change_nothing(
    schema: SchemaView,
    defined: Seq<Seq<char>>,
    inferred: Seq<FieldView>,
    widening: Option<Seq<bool>>,
)
    requires
        forall|i: int|
            0 <= i < inferred.len() ==> fits(schema, #[trigger] inferred[i]),
    ensures
        !schema_changed(schema, defined, inferred, widening),
        datatype_delta(schema, defined, inferred, widening).len() == 0,
    decreases inferred.len(),
{
    if inferred.len() > 0 {
        let rest = inferred.drop_last();
        assert forall|i: int| 0 <= i < rest.len() implies fits(schema, #[trigger] rest[i]) by {
            assert(rest[i] == inferred[i]);
        }
        fitting_records_change_nothing(schema, defined, rest, widening);
        assert(inferred.last() == inferred[inferred.len() - 1]);
    }
}

/// Whether `field` stands for the conflict of the column of `inferred` at place `i`.
pub open spec fn stands_for(
    schema: SchemaView,
    defined: Seq<Seq<char>>,
    inferred: Seq<FieldView>,
    widening: Option<Seq<bool>>,
    i: int,
    field: FieldView,
) -> bool {
    &&& is_conflict(schema, defined, inferred[i])
    &&& field == conflict_column(
        schema,
        inferred[i],
        match widening {
            Some(answers) => Some(answers[i]),
            None => None,
        },
    )
}

/// Whether `field` stands for the conflict of some column of `inferred`.
pub open spec fn stands_for_some(
    schema: SchemaView,
    defined: Seq<Seq<char>>,
    inferred: Seq<FieldView>,
    widening: Option<Seq<bool>>,
    field: FieldView,
) -> bool {
    exists|i: int|
        0 <= i < inferred.len() && stands_for(schema, defined, inferred, widening, i, field)
}

/// Each column of the delta stands for a conflict, and each conflict has its column in the delta.
pub proof fn delta_is_the_conflicts(
    schema: SchemaView,
    defined: Seq<Seq<char>>,
    inferred: Seq<FieldView>,
    widening: Option<Seq<bool>>,
)
    ensures
        forall|j: int|
            0 <= j < datatype_delta(schema, defined, inferred, widening).len() ==> stands_for_some(
                schema,
                defined,
                inferred,
                widening,
                #[trigger] datatype_delta(schema, defined, inferred, widening)[j],
            ),
        forall|i: int|
            0 <= i < inferred.len() && is_conflict(schema, defined, #[trigger] inferred[i])
                ==> exists|j: int|
                0 <= j < datatype_delta(schema, defined, inferred, widening).len() && stands_for(
                    schema,
                    defined,
                    inferred,
                    widening,
                    i,
                    #[trigger] datatype_delta(schema, defined, inferred, widening)[j],
                ),
{
    let delta = datatype_delta(schema, defined, inferred, widening);
    assert forall|j: int| 0 <= j < delta.len() implies stands_for_some(
        schema,
        defined,
        inferred,
        widening,
        #[trigger] delta[j],
    ) by {
        let i = lemma_conflict_of(schema, defined, inferred, widening, j);
        assert(stands_for(schema, defined, inferred, widening, i, delta[j]));
    }
    assert forall|i: int|
        0 <= i < inferred.len() && is_conflict(
            schema,
            defined,
            #[trigger] inferred[i],
        ) implies exists|j: int|
        0 <= j < delta.len() && stands_for(
            schema,
            defined,
            inferred,
            widening,
            i,
            #[trigger] delta[j],
        ) by {
        let j = lemma_column_of(schema, defined, inferred, widening, i);
        assert(stands_for(schema, defined, inferred, widening, i, delta[j]));
    }
}

proof fn lemma_conflict_of(
    schema: SchemaView,
    defined: Seq<Seq<char>>,
    inferred: Seq<FieldView>,
    widening: Option<Seq<bool>>,
    j: int,
) -> (i: int)
    requires
        0 <= j < datatype_delta(schema, defined, inferred, widening).len(),
    ensures
        0 <= i < inferred.len(),
        stands_for(
            schema,
            defined,
            inferred,
            widening,
            i,
            datatype_delta(schema, defined, inferred, widening)[j],
        ),
    decreases inferred.len(),
{
    let rest = inferred.drop_last();
    if j < datatype_delta(schema, defined, rest, widening).len() {
        lemma_conflict_of(schema, defined, rest, widening, j)
    } else {
        inferred.len() - 1
    }
}

proof fn lemma_column_of(
    schema: SchemaView,
    defined: Seq<Seq<char>>,
    inferred: Seq<FieldView>,
    widening: Option<Seq<bool>>,
    i: int,
) -> (j: int)
    requires
        0 <= i < inferred.len(),
        is_conflict(schema, defined, inferred[i]),
    ensures
        0 <= j < datatype_delta(schema, defined, inferred, widening).len(),
        stands_for(
            schema,
            defined,
            inferred,
            widening,
            i,
            datatype_delta(schema, defined, inferred, widening)[j],
        ),
    decreases inferred.len(),
{
    let rest = inferred.drop_last();
    if i < rest.len() {
        lemma_column_of(schema, defined, rest, widening, i)
    } else {
        datatype_delta(schema, defined, rest, widening).len() as int
    }
}

/// Where types do not widen, only columns that the stream does not have change its schema, and the
/// delta holds nothing but columns of the stream as they are.
pub proof fn without_widening_types_stay(
    schema: SchemaView,
    defined: Seq<Seq<char>>,
    inferred: Seq<FieldView>,
)
    ensures
        schema_changed(schema, defined, inferred, None) <==> exists|i: int|
            0 <= i < inferred.len() && !has_column(schema, (#[trigger] inferred[i]).name),
        forall|j: int|
            0 <= j < datatype_delta(schema, defined, inferred, None).len() ==> {
                let field = #[trigger] datatype_delta(schema, defined, inferred, None)[j];
                has_column(schema, field.name) && field == column(schema, field.name)
            },
{
    lemma_column_index(schema.fields);
    delta_is_the_conflicts(schema, defined, inferred, None);
    if exists|i: int|
        0 <= i < inferred.len() && !has_column(schema, (#[trigger] inferred[i]).name) {
        let i = choose|i: int|
            0 <= i < inferred.len() && !has_column(schema, (#[trigger] inferred[i]).name);
        assert(changes_schema(schema, defined, inferred, None, i));
    }
    assert forall|j: int| 0 <= j < datatype_delta(schema, defined, inferred, None).len() implies {
        let field = #[trigger] datatype_delta(schema, defined, inferred, None)[j];
        has_column(schema, field.name) && field == column(schema, field.name)
    } by {
        let field = datatype_delta(schema, defined, inferred, None)[j];
        let i = choose|i: int|
            0 <= i < inferred.len() && stands_for(schema, defined, inferred, None, i, field);
        assert(column_index(schema.fields).contains_key(inferred[i].name));
    }
}

/// Where columns are defined for a stream, a column that is not among them is never in conflict,
/// though the stream still gains it where it did not have it.
pub proof fn only_defined_columns_are_in_conflict(
    schema: SchemaView,
    defined: Seq<Seq<char>>,
    inferred: Seq<FieldView>,
    widening: Option<Seq<bool>>,
)
    requires
        defined.len() > 0,
    ensures
        forall|j: int|
            0 <= j < datatype_delta(schema, defined, inferred, widening).len()
                ==> defined.contains(
                (#[trigger] datatype_delta(schema, defined, inferred, widening)[j]).name,
            ),
        forall|i: int|
            0 <= i < inferred.len() && !has_column(schema, (#[trigger] inferred[i]).name)
                ==> schema_changed(schema, defined, inferred, widening),
{
    lemma_column_index(schema.fields);
    delta_is_the_conflicts(schema, defined, inferred, widening);
    assert forall|j: int|
        0 <= j < datatype_delta(schema, defined, inferred, widening).len() implies defined.contains(
        (#[trigger] datatype_delta(schema, defined, inferred, widening)[j]).name,
    ) by {
        let field = datatype_delta(schema, defined, inferred, widening)[j];
        let i = choose|i: int|
            0 <= i < inferred.len() && stands_for(schema, defined, inferred, widening, i, field);
        assert(column_index(schema.fields).contains_key(inferred[i].name));
    }
    assert forall|i: int|
        0 <= i < inferred.len() && !has_column(
            schema,
            (#[trigger] inferred[i]).name,
        ) implies schema_changed(schema, defined, inferred, widening) by {
        assert(changes_schema(schema, defined, inferred, widening, i));
    }
}

} // verus!
