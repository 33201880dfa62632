//! Laws on columns: how they are found, and when they are the same.

use crate::field::{
    comparable, comparable_fields, comparable_tagged, comparable_type, DataTypeView, FieldView,
};
use crate::schema::{
    column, column_index, has_column, lemma_column_index, same_columns, SchemaView,
};
use vstd::prelude::*;

verus! {

/// The names of the columns of a schema.
pub open spec fn names_of(schema: SchemaView) -> Set<Seq<char>> {
    schema.fields.map_values(|field: FieldView| field.name).to_set()
}

/// A schema has a column of a name exactly when one of its columns has it, whatever the name. Of
/// several it is the last.
pub proof fn columns_are_found_by_name(schema: SchemaView, name: Seq<char>)
    ensures
        has_column(schema, name) <==> exists|i: int|
            0 <= i < schema.fields.len() && (#[trigger] schema.fields[i]).name == name,
        forall|i: int|
            0 <= i < schema.fields.len() && (#[trigger] schema.fields[i]).name == name && (forall|
                j: int,
            |
                i < j < schema.fields.len() ==> (#[trigger] schema.fields[j]).name != name)
                ==> column(schema, name) == schema.fields[i],
        has_column(schema, name) ==> column(schema, name).name == name,
        has_column(schema, name) <==> names_of(schema).contains(name),
{
    lemma_column_index(schema.fields);
    let names = schema.fields.map_values(|field: FieldView| field.name);
    if has_column(schema, name) {
        let at = column_index(schema.fields)[name];
        assert(schema.fields[at].name == name);
        assert(names[at] == name);
    }
    if names_of(schema).contains(name) {
        let i = choose|i: int| 0 <= i < names.len() && names[i] == name;
        assert(schema.fields[i].name == name);
    }
    assert forall|i: int|
        0 <= i < schema.fields.len() && (#[trigger] schema.fields[i]).name == name && (forall|
            j: int,
        |
            i < j < schema.fields.len() ==> (#[trigger] schema.fields[j]).name
                != name) implies column(schema, name) == schema.fields[i] by {
        let at = column_index(schema.fields)[name];
        assert(column_index(schema.fields).contains_key(schema.fields[i].name));
        assert(schema.fields[at].name == name);
    }
}

/// A schema with one more column has that one under its name, and every other as before.
pub proof fn added_column_is_found(schema: SchemaView, field: FieldView, name: Seq<char>)
    ensures
        ({
            let more = SchemaView { fields: schema.fields.push(field), ..schema };
            &&& has_column(more, name) <==> name == field.name || has_column(schema, name)
            &&& column(more, field.name) == field
            &&& name != field.name && has_column(schema, name) ==> column(more, name) == column(
                schema,
                name,
            )
        }),
{
    let more = SchemaView { fields: schema.fields.push(field), ..schema };
    assert(more.fields.drop_last() =~= schema.fields);
    lemma_column_index(schema.fields);
    lemma_column_index(more.fields);
}

/// Whether two columns agree in everything but their dictionaries: in name, nullability, metadata
/// and type.
pub open spec fn agree(a: FieldView, b: FieldView) -> bool {
    &&& a.name == b.name
    &&& a.nullable == b.nullable
    &&& a.metadata == b.metadata
    &&& comparable_type(a.data_type) == comparable_type(b.data_type)
}

/// Two columns are the same when they agree, whatever their dictionaries.
pub proof fn columns_are_the_same_where_they_agree(a: FieldView, b: FieldView)
    ensures
        comparable(a) == comparable(b) <==> agree(a, b),
{
}

/// Two types are the same when they are built alike, from parts that agree. A type without parts is
/// the same as itself alone.
pub proof fn types_are_the_same_part_by_part(a: DataTypeView, b: DataTypeView)
    ensures
        comparable_type(a) == comparable_type(b) <==> match (a, b) {
            (DataTypeView::Plain(x), DataTypeView::Plain(y)) => x == y,
            (DataTypeView::Timestamp(unit, zone), DataTypeView::Timestamp(unit2, zone2)) => unit
                == unit2 && zone == zone2,
            (DataTypeView::List(x), DataTypeView::List(y)) => agree(*x, *y),
            (DataTypeView::ListView(x), DataTypeView::ListView(y)) => agree(*x, *y),
            (DataTypeView::FixedSizeList(x, size), DataTypeView::FixedSizeList(y, size2)) => size
                == size2 && agree(*x, *y),
            (DataTypeView::LargeList(x), DataTypeView::LargeList(y)) => agree(*x, *y),
            (DataTypeView::LargeListView(x), DataTypeView::LargeListView(y)) => agree(*x, *y),
            (DataTypeView::Struct(x), DataTypeView::Struct(y)) => x.len() == y.len() && forall|
                i: int,
            |
                0 <= i < x.len() ==> agree(#[trigger] x[i], y[i]),
            (DataTypeView::Union(x, mode), DataTypeView::Union(y, mode2)) => mode == mode2
                && x.len() == y.len() && forall|i: int|
                0 <= i < x.len() ==> (#[trigger] x[i]).0 == y[i].0 && agree(x[i].1, y[i].1),
            (DataTypeView::Dictionary(key, value), DataTypeView::Dictionary(key2, value2)) => {
                comparable_type(*key) == comparable_type(*key2) && comparable_type(*value)
                    == comparable_type(*value2)
            },
            (DataTypeView::MapOf(x, sorted), DataTypeView::MapOf(y, sorted2)) => sorted == sorted2
                && agree(*x, *y),
            (
                DataTypeView::RunEndEncoded(ends, values),
                DataTypeView::RunEndEncoded(ends2, values2),
            ) => agree(*ends, *ends2) && agree(*values, *values2),
            _ => false,
        },
{
    match (a, b) {
        (DataTypeView::Struct(x), DataTypeView::Struct(y)) => {
            lemma_lists(x, y);
        },
        (DataTypeView::Union(x, _), DataTypeView::Union(y, _)) => {
            lemma_tagged_lists(x, y);
        },
        (DataTypeView::List(x), DataTypeView::List(y)) => {
            columns_are_the_same_where_they_agree(*x, *y);
        },
        (DataTypeView::ListView(x), DataTypeView::ListView(y)) => {
            columns_are_the_same_where_they_agree(*x, *y);
        },
        (DataTypeView::FixedSizeList(x, _), DataTypeView::FixedSizeList(y, _)) => {
            columns_are_the_same_where_they_agree(*x, *y);
        },
        (DataTypeView::LargeList(x), DataTypeView::LargeList(y)) => {
            columns_are_the_same_where_they_agree(*x, *y);
        },
        (DataTypeView::LargeListView(x), DataTypeView::LargeListView(y)) => {
            columns_are_the_same_where_they_agree(*x, *y);
        },
        (DataTypeView::MapOf(x, _), DataTypeView::MapOf(y, _)) => {
            columns_are_the_same_where_they_agree(*x, *y);
        },
        (
            DataTypeView::RunEndEncoded(ends, values),
            DataTypeView::RunEndEncoded(ends2, values2),
        ) => {
            columns_are_the_same_where_they_agree(*ends, *ends2);
            columns_are_the_same_where_they_agree(*values, *values2);
        },
        _ => {},
    }
}

/// Two schemas have the same columns when these agree one by one, in the same order. The metadata
/// of the schemas has no part in it.
pub proof fn same_columns_agree_one_by_one(a: SchemaView, b: SchemaView)
    ensures
        same_columns(a, b) <==> a.fields.len() == b.fields.len() && forall|i: int|
            0 <= i < a.fields.len() ==> agree(#[trigger] a.fields[i], b.fields[i]),
{
    lemma_lists(a.fields, b.fields);
}

proof fn lemma_lists(x: Seq<FieldView>, y: Seq<FieldView>)
    ensures
        comparable_fields(x) == comparable_fields(y) <==> x.len() == y.len() && forall|i: int|
            0 <= i < x.len() ==> agree(#[trigger] x[i], y[i]),
{
    let left = comparable_fields(x);
    let right = comparable_fields(y);
    assert(left.len() == x.len() && right.len() == y.len());
    assert(forall|i: int| 0 <= i < x.len() ==> #[trigger] left[i] == comparable(x[i]));
    assert(forall|i: int| 0 <= i < y.len() ==> #[trigger] right[i] == comparable(y[i]));
    if left == right {
        assert forall|i: int| 0 <= i < x.len() implies agree(#[trigger] x[i], y[i]) by {
            assert(left[i] == right[i]);
        }
    }
    if x.len() == y.len() && forall|i: int| 0 <= i < x.len() ==> agree(#[trigger] x[i], y[i]) {
        assert forall|i: int| 0 <= i < left.len() implies #[trigger] left[i] == right[i] by {
            assert(agree(x[i], y[i]));
        }
        assert(left =~= right);
    }
}

proof fn lemma_tagged_lists(x: Seq<(i8, FieldView)>, y: Seq<(i8, FieldView)>)
    ensures
        comparable_tagged(x) == comparable_tagged(y) <==> x.len() == y.len() && forall|i: int|
            0 <= i < x.len() ==> (#[trigger] x[i]).0 == y[i].0 && agree(x[i].1, y[i].1),
{
    let left = comparable_tagged(x);
    let right = comparable_tagged(y);
    assert(left.len() == x.len() && right.len() == y.len());
    assert(forall|i: int| 0 <= i < x.len() ==> #[trigger] left[i] == (x[i].0, comparable(x[i].1)));
    assert(forall|i: int| 0 <= i < y.len() ==> #[trigger] right[i] == (y[i].0, comparable(y[i].1)));
    if left == right {
        assert forall|i: int| 0 <= i < x.len() implies (#[trigger] x[i]).0 == y[i].0 && agree(
            x[i].1,
            y[i].1,
        ) by {
            assert(left[i] == right[i]);
        }
    }
    if x.len() == y.len() && forall|i: int|
        0 <= i < x.len() ==> (#[trigger] x[i]).0 == y[i].0 && agree(x[i].1, y[i].1) {
        assert forall|i: int| 0 <= i < left.len() implies #[trigger] left[i] == right[i] by {
            assert(x[i].0 == y[i].0);
        }
        assert(left =~= right);
    }
}

} // verus!
