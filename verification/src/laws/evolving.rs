//! Laws on how records differ from the columns of their stream.

use crate::check::conflict_types;
use crate::evolution::{changes_schema, datatype_delta, defined_by, schema_changed};
use crate::field::{comparable_type, FieldView};
use crate::laws::columns::columns_are_found_by_name;
use crate::laws::settings::{sets_column, sets_columns, settings_define_what_they_name};
use crate::schema::{column, has_column, SchemaView};
use crate::settings::StreamSettingsView;
use vstd::prelude::*;

verus! {

/// Whether the type of a column is looked at: that of every column, or where the settings name
/// columns, that of these alone.
pub open spec fn type_counts(setting: Option<StreamSettingsView>, name: Seq<char>) -> bool {
    sets_columns(setting) ==> sets_column(setting, name)
}

/// Whether the stream has a column of the same name and of another type.
pub open spec fn type_differs(schema: SchemaView, item: FieldView) -> bool {
    has_column(schema, item.name) && comparable_type(column(schema, item.name).data_type)
        != comparable_type(item.data_type)
}

/// What is told of a column whose type differs. Where types do not widen it is the column of the
/// stream. Where they do, it is the new column if its type is the wider one, and else the column of
/// the stream, marked so that values are cast to its type.
pub open spec fn tells_of(
    existing: FieldView,
    item: FieldView,
    wider: Option<bool>,
    told: FieldView,
) -> bool {
    match wider {
        None => told == existing,
        Some(true) => told == item,
        Some(false) => {
            &&& told.name == existing.name
            &&& told.data_type == existing.data_type
            &&& told.nullable == existing.nullable
            &&& told.dict_id == existing.dict_id
            &&& told.dict_is_ordered == existing.dict_is_ordered
            &&& told.metadata.contains_key("zo_cast"@)
            &&& told.metadata["zo_cast"@] == "true"@
            &&& forall|key: Seq<char>|
                key != "zo_cast"@ ==> #[trigger] told.metadata.contains_key(key)
                    == existing.metadata.contains_key(key)
            &&& forall|key: Seq<char>|
                key != "zo_cast"@ && #[trigger] existing.metadata.contains_key(key)
                    ==> told.metadata[key] == existing.metadata[key]
        },
    }
}

/// The judgement on the column at place `i`.
pub open spec fn judgement(widening: Option<Seq<bool>>, i: int) -> Option<bool> {
    match widening {
        Some(answers) => Some(answers[i]),
        None => None,
    }
}

/// Every column of the records that the stream has under another type is told of, if its type
/// counts, under the name that both have.
pub proof fn differing_types_are_told(
    schema: SchemaView,
    setting: Option<StreamSettingsView>,
    inferred: Seq<FieldView>,
    widening: Option<Seq<bool>>,
    i: int,
)
    requires
        0 <= i < inferred.len(),
        has_column(schema, inferred[i].name),
        !sets_columns(setting) || sets_column(setting, inferred[i].name),
        comparable_type(column(schema, inferred[i].name).data_type) != comparable_type(
            inferred[i].data_type,
        ),
    ensures
        exists|j: int|
            0 <= j < datatype_delta(schema, defined_by(setting), inferred, widening).len()
                && tells_of(
                column(schema, inferred[i].name),
                inferred[i],
                judgement(widening, i),
                #[trigger] datatype_delta(schema, defined_by(setting), inferred, widening)[j],
            ) && datatype_delta(schema, defined_by(setting), inferred, widening)[j].name
                == inferred[i].name,
{
    let delta = datatype_delta(schema, defined_by(setting), inferred, widening);
    let places = told_in_the_order_of_the_records(schema, setting, inferred, widening);
    assert(places.contains(i));
    let j = choose|j: int| 0 <= j < places.len() && places[j] == i;
    columns_are_found_by_name(schema, inferred[i].name);
    assert(tells_of(
        column(schema, inferred[places[j]].name),
        inferred[places[j]],
        judgement(widening, places[j]),
        delta[j],
    ));
}

/// What is told of types stands for columns of the records, one for each and in their order:
/// exactly those that the stream has under another type and whose types count.
pub proof fn told_in_the_order_of_the_records(
    schema: SchemaView,
    setting: Option<StreamSettingsView>,
    inferred: Seq<FieldView>,
    widening: Option<Seq<bool>>,
) -> (places: Seq<int>)
    ensures
        places.len() == datatype_delta(schema, defined_by(setting), inferred, widening).len(),
        forall|i: int, j: int| 0 <= i < j < places.len() ==> places[i] < places[j],
        forall|i: int|
            #![trigger places.contains(i)]
            #![trigger inferred[i]]
            places.contains(i) <==> 0 <= i < inferred.len() && type_differs(schema, inferred[i])
                && type_counts(setting, inferred[i].name),
        forall|j: int|
            0 <= j < places.len() ==> tells_of(
                column(schema, inferred[places[j]].name),
                inferred[places[j]],
                judgement(widening, places[j]),
                #[trigger] datatype_delta(schema, defined_by(setting), inferred, widening)[j],
            ),
    decreases inferred.len(),
{
    settings_define_what_they_name(setting);
    let delta = datatype_delta(schema, defined_by(setting), inferred, widening);
    if inferred.len() == 0 {
        Seq::empty()
    } else {
        let rest = inferred.drop_last();
        let last = inferred.len() - 1;
        let item = inferred.last();
        let before = told_in_the_order_of_the_records(schema, setting, rest, widening);
        let earlier = datatype_delta(schema, defined_by(setting), rest, widening);
        let told = type_differs(schema, item) && type_counts(setting, item.name);
        let places = if told {
            before.push(last)
        } else {
            before
        };
        assert forall|k: int| before.contains(k) implies 0 <= k < last && inferred[k]
            == rest[k] by {
            assert(0 <= k < rest.len());
        }
        assert forall|j: int| 0 <= j < before.len() implies 0 <= #[trigger] before[j] < last by {
            assert(before.contains(before[j]));
        }
        assert forall|i: int|
            #![trigger places.contains(i)]
            #![trigger inferred[i]]
            places.contains(i) <==> 0 <= i < inferred.len() && type_differs(schema, inferred[i])
                && type_counts(setting, inferred[i].name) by {
            if 0 <= i < last {
                assert(rest[i] == inferred[i]);
            }
            if before.contains(i) {
                let j = choose|j: int| 0 <= j < before.len() && before[j] == i;
                assert(places[j] == i);
            }
            if places.contains(i) && i != last {
                let j = choose|j: int| 0 <= j < places.len() && places[j] == i;
                assert(before[j] == i);
                assert(before.contains(i));
            }
            if i == last && told {
                assert(places[places.len() - 1] == last);
            }
        }
        assert forall|j: int| 0 <= j < places.len() implies tells_of(
            column(schema, inferred[places[j]].name),
            inferred[places[j]],
            judgement(widening, places[j]),
            #[trigger] delta[j],
        ) by {
            if j < before.len() {
                assert(places[j] == before[j]);
                assert(before.contains(before[j]));
                assert(rest[before[j]] == inferred[before[j]]);
                assert(delta[j] == earlier[j]);
            } else {
                assert(places[j] == last);
                columns_are_found_by_name(schema, item.name);
            }
        }
        places
    }
}

/// A column that the stream does not have changes its schema, whatever the settings say.
pub proof fn new_columns_change_the_schema(
    schema: SchemaView,
    setting: Option<StreamSettingsView>,
    inferred: Seq<FieldView>,
    widening: Option<Seq<bool>>,
    i: int,
)
    requires
        0 <= i < inferred.len(),
        !has_column(schema, inferred[i].name),
    ensures
        schema_changed(schema, defined_by(setting), inferred, widening),
{
    assert(changes_schema(schema, defined_by(setting), inferred, widening, i));
}

/// A column that the stream has under a type that widens changes its schema, if its type counts.
pub proof fn wider_types_change_the_schema(
    schema: SchemaView,
    setting: Option<StreamSettingsView>,
    inferred: Seq<FieldView>,
    answers: Seq<bool>,
    i: int,
)
    requires
        0 <= i < inferred.len(),
        has_column(schema, inferred[i].name),
        !sets_columns(setting) || sets_column(setting, inferred[i].name),
        comparable_type(column(schema, inferred[i].name).data_type) != comparable_type(
            inferred[i].data_type,
        ),
        answers[i],
    ensures
        schema_changed(schema, defined_by(setting), inferred, Some(answers)),
{
    settings_define_what_they_name(setting);
    assert(changes_schema(schema, defined_by(setting), inferred, Some(answers), i));
}

/// Nothing else changes the schema: each column of the records is one that the stream has, under
/// the same type, or under one that does not count or is not wider.
pub proof fn other_records_leave_the_schema(
    schema: SchemaView,
    setting: Option<StreamSettingsView>,
    inferred: Seq<FieldView>,
    widening: Option<Seq<bool>>,
)
    requires
        forall|i: int|
            0 <= i < inferred.len() ==> has_column(schema, (#[trigger] inferred[i]).name) && (
            type_differs(schema, inferred[i]) && type_counts(setting, inferred[i].name)
                ==> judgement(widening, i) != Some(true)),
    ensures
        !schema_changed(schema, defined_by(setting), inferred, widening),
{
    settings_define_what_they_name(setting);
    assert forall|i: int| 0 <= i < inferred.len() implies !#[trigger] changes_schema(
        schema,
        defined_by(setting),
        inferred,
        widening,
        i,
    ) by {
        assert(has_column(schema, inferred[i].name));
        assert(judgement(widening, i) == Some(true) || !(widening is Some && widening->0[i]));
    }
}

/// The types to be judged are those of the stream for the columns whose types differ and count,
/// each in the place of its column, and no others.
pub proof fn differing_types_are_judged(
    schema: SchemaView,
    setting: Option<StreamSettingsView>,
    inferred: Seq<FieldView>,
)
    ensures
        conflict_types(schema, defined_by(setting), inferred).len() == inferred.len(),
        forall|i: int|
            0 <= i < inferred.len() && type_differs(schema, inferred[i]) && type_counts(
                setting,
                inferred[i].name,
            ) ==> #[trigger] conflict_types(schema, defined_by(setting), inferred)[i] == Some(
                column(schema, inferred[i].name).data_type,
            ),
        forall|i: int|
            0 <= i < inferred.len() && !(type_differs(schema, inferred[i]) && type_counts(
                setting,
                inferred[i].name,
            )) ==> #[trigger] conflict_types(schema, defined_by(setting), inferred)[i] is None,
{
    settings_define_what_they_name(setting);
}

} // verus!
