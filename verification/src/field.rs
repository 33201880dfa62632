//! Column types and columns.

use crate::metadata::Metadata;
use vstd::prelude::*;

verus! {

/// The resolution of a time value.
#[derive(Debug, Clone, Copy, PartialEq, Eq, Structural)]
pub enum TimeUnit {
    Second,
    Millisecond,
    Microsecond,
    Nanosecond,
}

/// The parts that make up a calendar interval.
#[derive(Debug, Clone, Copy, PartialEq, Eq, Structural)]
pub enum IntervalUnit {
    YearMonth,
    DayTime,
    MonthDayNano,
}

/// How the children of a union share their slots.
#[derive(Debug, Clone, Copy, PartialEq, Eq, Structural)]
pub enum UnionMode {
    Sparse,
    Dense,
}

/// The type of a column, with the type system of Arrow.
#[derive(Debug)]
pub enum DataType {
    Null,
    Boolean,
    Int8,
    Int16,
    Int32,
    Int64,
    UInt8,
    UInt16,
    UInt32,
    UInt64,
    Float16,
    Float32,
    Float64,
    Timestamp(TimeUnit, Option<String>),
    Date32,
    Date64,
    Time32(TimeUnit),
    Time64(TimeUnit),
    Duration(TimeUnit),
    Interval(IntervalUnit),
    Binary,
    FixedSizeBinary(i32),
    LargeBinary,
    BinaryView,
    Utf8,
    LargeUtf8,
    Utf8View,
    List(Box<Field>),
    ListView(Box<Field>),
    FixedSizeList(Box<Field>, i32),
    LargeList(Box<Field>),
    LargeListView(Box<Field>),
    Struct(Vec<Field>),
    Union(Vec<(i8, Field)>, UnionMode),
    Dictionary(Box<DataType>, Box<DataType>),
    Decimal128(u8, i8),
    Decimal256(u8, i8),
    MapOf(Box<Field>, bool),
    RunEndEncoded(Box<Field>, Box<Field>),
}

/// A named column.
#[derive(Debug)]
pub struct Field {
    pub name: String,
    pub data_type: DataType,
    pub nullable: bool,
    pub metadata: Metadata,
    /// The number of the column's dictionary, where its values are encoded by one.
    pub dict_id: i64,
    /// Whether that dictionary is ordered.
    pub dict_is_ordered: bool,
}

/// What a [`DataType`] is, with texts and lists read as sequences. The types that hold neither
/// stand for themselves.
pub enum DataTypeView {
    Plain(DataType),
    Timestamp(TimeUnit, Option<Seq<char>>),
    List(Box<FieldView>),
    ListView(Box<FieldView>),
    FixedSizeList(Box<FieldView>, i32),
    LargeList(Box<FieldView>),
    LargeListView(Box<FieldView>),
    Struct(Seq<FieldView>),
    Union(Seq<(i8, FieldView)>, UnionMode),
    Dictionary(Box<DataTypeView>, Box<DataTypeView>),
    MapOf(Box<FieldView>, bool),
    RunEndEncoded(Box<FieldView>, Box<FieldView>),
}

/// What a [`Field`] is.
pub struct FieldView {
    pub name: Seq<char>,
    pub data_type: DataTypeView,
    pub nullable: bool,
    pub metadata: Map<Seq<char>, Seq<char>>,
    pub dict_id: i64,
    pub dict_is_ordered: bool,
}

/// The text in an optional string.
pub open spec fn text_view(text: Option<String>) -> Option<Seq<char>> {
    match text {
        Some(text) => Some(text@),
        None => None,
    }
}

pub open spec fn type_view(t: DataType) -> DataTypeView
    decreases t,
{
    match t {
        DataType::Timestamp(unit, zone) => DataTypeView::Timestamp(unit, text_view(zone)),
        DataType::List(item) => DataTypeView::List(Box::new(field_view(*item))),
        DataType::ListView(item) => DataTypeView::ListView(Box::new(field_view(*item))),
        DataType::FixedSizeList(item, size) => DataTypeView::FixedSizeList(
            Box::new(field_view(*item)),
            size,
        ),
        DataType::LargeList(item) => DataTypeView::LargeList(Box::new(field_view(*item))),
        DataType::LargeListView(item) => DataTypeView::LargeListView(Box::new(field_view(*item))),
        DataType::Struct(children) => DataTypeView::Struct(fields_view(children@)),
        DataType::Union(children, mode) => DataTypeView::Union(
            tagged_view(children@),
            mode,
        ),
        DataType::Dictionary(key, value) => DataTypeView::Dictionary(
            Box::new(type_view(*key)),
            Box::new(type_view(*value)),
        ),
        DataType::MapOf(entry, sorted) => DataTypeView::MapOf(Box::new(field_view(*entry)), sorted),
        DataType::RunEndEncoded(ends, values) => DataTypeView::RunEndEncoded(
            Box::new(field_view(*ends)),
            Box::new(field_view(*values)),
        ),
        plain => DataTypeView::Plain(plain),
    }
}

pub open spec fn field_view(field: Field) -> FieldView
    decreases field,
{
    FieldView {
        name: field.name@,
        data_type: type_view(field.data_type),
        nullable: field.nullable,
        metadata: field.metadata@,
        dict_id: field.dict_id,
        dict_is_ordered: field.dict_is_ordered,
    }
}

pub open spec fn fields_view(fields: Seq<Field>) -> Seq<FieldView>
    decreases fields,
{
    Seq::new(
        fields.len(),
        |i: int|
            if 0 <= i < fields.len() {
                field_view(fields[i])
            } else {
                arbitrary()
            },
    )
}

pub open spec fn tagged_view(fields: Seq<(i8, Field)>) -> Seq<(i8, FieldView)>
    decreases fields,
{
    Seq::new(
        fields.len(),
        |i: int|
            if 0 <= i < fields.len() {
                (fields[i].0, field_view(fields[i].1))
            } else {
                arbitrary()
            },
    )
}

/// What counts of a type when types are compared: everything but the dictionaries of the columns
/// nested in it.
pub open spec fn comparable_type(t: DataTypeView) -> DataTypeView
    decreases t,
{
    match t {
        DataTypeView::List(item) => DataTypeView::List(Box::new(comparable(*item))),
        DataTypeView::ListView(item) => DataTypeView::ListView(Box::new(comparable(*item))),
        DataTypeView::FixedSizeList(item, size) => DataTypeView::FixedSizeList(
            Box::new(comparable(*item)),
            size,
        ),
        DataTypeView::LargeList(item) => DataTypeView::LargeList(Box::new(comparable(*item))),
        DataTypeView::LargeListView(item) => DataTypeView::LargeListView(
            Box::new(comparable(*item)),
        ),
        DataTypeView::Struct(children) => DataTypeView::Struct(comparable_fields(children)),
        DataTypeView::Union(children, mode) => DataTypeView::Union(
            comparable_tagged(children),
            mode,
        ),
        DataTypeView::Dictionary(key, value) => DataTypeView::Dictionary(
            Box::new(comparable_type(*key)),
            Box::new(comparable_type(*value)),
        ),
        DataTypeView::MapOf(entry, sorted) => DataTypeView::MapOf(
            Box::new(comparable(*entry)),
            sorted,
        ),
        DataTypeView::RunEndEncoded(ends, values) => DataTypeView::RunEndEncoded(
            Box::new(comparable(*ends)),
            Box::new(comparable(*values)),
        ),
        other => other,
    }
}

/// What counts of a column when columns are compared: its name, type, nullability and metadata, but
/// not its dictionary.
pub open spec fn comparable(field: FieldView) -> FieldView
    decreases field,
{
    FieldView {
        name: field.name,
        data_type: comparable_type(field.data_type),
        nullable: field.nullable,
        metadata: field.metadata,
        dict_id: 0,
        dict_is_ordered: false,
    }
}

pub open spec fn comparable_fields(fields: Seq<FieldView>) -> Seq<FieldView>
    decreases fields,
{
    Seq::new(
        fields.len(),
        |i: int|
            if 0 <= i < fields.len() {
                comparable(fields[i])
            } else {
                arbitrary()
            },
    )
}

pub open spec fn comparable_tagged(fields: Seq<(i8, FieldView)>) -> Seq<(i8, FieldView)>
    decreases fields,
{
    Seq::new(
        fields.len(),
        |i: int|
            if 0 <= i < fields.len() {
                (fields[i].0, comparable(fields[i].1))
            } else {
                arbitrary()
            },
    )
}

proof fn lemma_comparable_fields(fields: Seq<FieldView>)
    ensures
        comparable_fields(fields).len() == fields.len(),
        forall|i: int|
            0 <= i < fields.len() ==> #[trigger] comparable_fields(fields)[i] == comparable(
                fields[i],
            ),
{
}

proof fn lemma_tagged(fields: Seq<(i8, Field)>)
    ensures
        tagged_view(fields).len() == fields.len(),
        comparable_tagged(tagged_view(fields)).len() == fields.len(),
        forall|i: int|
            0 <= i < fields.len() ==> #[trigger] tagged_view(fields)[i] == (
                fields[i].0,
                field_view(fields[i].1),
            ),
        forall|i: int|
            0 <= i < fields.len() ==> #[trigger] comparable_tagged(tagged_view(fields))[i] == (
                fields[i].0,
                comparable(field_view(fields[i].1)),
            ),
{
    assert forall|i: int| 0 <= i < fields.len() implies #[trigger] comparable_tagged(
        tagged_view(fields),
    )[i] == (fields[i].0, comparable(field_view(fields[i].1))) by {
        assert(tagged_view(fields)[i] == (fields[i].0, field_view(fields[i].1)));
    }
}

/// The columns of a list are read one by one.
pub proof fn lemma_fields_view(fields: Seq<Field>)
    ensures
        fields_view(fields).len() == fields.len(),
        forall|i: int|
            0 <= i < fields.len() ==> #[trigger] fields_view(fields)[i] == field_view(fields[i]),
{
}

/// A column added to a list is added to what the list is read as.
pub proof fn lemma_fields_view_push(fields: Seq<Field>, field: Field)
    ensures
        fields_view(fields.push(field)) == fields_view(fields).push(field_view(field)),
{
    lemma_fields_view(fields);
    lemma_fields_view(fields.push(field));
    assert(fields_view(fields.push(field)) =~= fields_view(fields).push(field_view(field)));
}

impl View for DataType {
    type V = DataTypeView;

    open spec fn view(&self) -> DataTypeView {
        type_view(*self)
    }
}

impl View for Field {
    type V = FieldView;

    open spec fn view(&self) -> FieldView {
        field_view(*self)
    }
}

impl DataType {
    /// Whether both are the same type, down to the columns nested in them.
    pub fn same(&self, other: &DataType) -> (r: bool)
        ensures
            r == (comparable_type(self@) == comparable_type(other@)),
        decreases self,
    {
        match self {
            DataType::Null => matches!(other, DataType::Null),
            DataType::Boolean => matches!(other, DataType::Boolean),
            DataType::Int8 => matches!(other, DataType::Int8),
            DataType::Int16 => matches!(other, DataType::Int16),
            DataType::Int32 => matches!(other, DataType::Int32),
            DataType::Int64 => matches!(other, DataType::Int64),
            DataType::UInt8 => matches!(other, DataType::UInt8),
            DataType::UInt16 => matches!(other, DataType::UInt16),
            DataType::UInt32 => matches!(other, DataType::UInt32),
            DataType::UInt64 => matches!(other, DataType::UInt64),
            DataType::Float16 => matches!(other, DataType::Float16),
            DataType::Float32 => matches!(other, DataType::Float32),
            DataType::Float64 => matches!(other, DataType::Float64),
            DataType::Timestamp(a, b) => match other {
                DataType::Timestamp(x, y) => *a == *x && same_text(b, y),
                _ => false,
            },
            DataType::Date32 => matches!(other, DataType::Date32),
            DataType::Date64 => matches!(other, DataType::Date64),
            DataType::Time32(a) => match other {
                DataType::Time32(x) => *a == *x,
                _ => false,
            },
            DataType::Time64(a) => match other {
                DataType::Time64(x) => *a == *x,
                _ => false,
            },
            DataType::Duration(a) => match other {
                DataType::Duration(x) => *a == *x,
                _ => false,
            },
            DataType::Interval(a) => match other {
                DataType::Interval(x) => *a == *x,
                _ => false,
            },
            DataType::Binary => matches!(other, DataType::Binary),
            DataType::FixedSizeBinary(a) => match other {
                DataType::FixedSizeBinary(x) => *a == *x,
                _ => false,
            },
            DataType::LargeBinary => matches!(other, DataType::LargeBinary),
            DataType::BinaryView => matches!(other, DataType::BinaryView),
            DataType::Utf8 => matches!(other, DataType::Utf8),
            DataType::LargeUtf8 => matches!(other, DataType::LargeUtf8),
            DataType::Utf8View => matches!(other, DataType::Utf8View),
            DataType::List(a) => match other {
                DataType::List(x) => a.same(x),
                _ => false,
            },
            DataType::ListView(a) => match other {
                DataType::ListView(x) => a.same(x),
                _ => false,
            },
            DataType::FixedSizeList(a, b) => match other {
                DataType::FixedSizeList(x, y) => *b == *y && a.same(x),
                _ => false,
            },
            DataType::LargeList(a) => match other {
                DataType::LargeList(x) => a.same(x),
                _ => false,
            },
            DataType::LargeListView(a) => match other {
                DataType::LargeListView(x) => a.same(x),
                _ => false,
            },
            DataType::Struct(a) => match other {
                DataType::Struct(x) => same_fields(a, x),
                _ => false,
            },
            DataType::Union(a, b) => match other {
                DataType::Union(x, y) => *b == *y && same_tagged(a, x),
                _ => false,
            },
            DataType::Dictionary(a, b) => match other {
                DataType::Dictionary(x, y) => a.same(x) && b.same(y),
                _ => false,
            },
            DataType::Decimal128(a, b) => match other {
                DataType::Decimal128(x, y) => *a == *x && *b == *y,
                _ => false,
            },
            DataType::Decimal256(a, b) => match other {
                DataType::Decimal256(x, y) => *a == *x && *b == *y,
                _ => false,
            },
            DataType::MapOf(a, b) => match other {
                DataType::MapOf(x, y) => *b == *y && a.same(x),
                _ => false,
            },
            DataType::RunEndEncoded(a, b) => match other {
                DataType::RunEndEncoded(x, y) => a.same(x) && b.same(y),
                _ => false,
            },
        }
    }

    /// A type equal to this one.
    pub fn duplicate(&self) -> (r: DataType)
        ensures
            r@ == self@,
        decreases self,
    {
        match self {
            DataType::Null => DataType::Null,
            DataType::Boolean => DataType::Boolean,
            DataType::Int8 => DataType::Int8,
            DataType::Int16 => DataType::Int16,
            DataType::Int32 => DataType::Int32,
            DataType::Int64 => DataType::Int64,
            DataType::UInt8 => DataType::UInt8,
            DataType::UInt16 => DataType::UInt16,
            DataType::UInt32 => DataType::UInt32,
            DataType::UInt64 => DataType::UInt64,
            DataType::Float16 => DataType::Float16,
            DataType::Float32 => DataType::Float32,
            DataType::Float64 => DataType::Float64,
            DataType::Timestamp(a, b) => DataType::Timestamp(*a, duplicate_text(b)),
            DataType::Date32 => DataType::Date32,
            DataType::Date64 => DataType::Date64,
            DataType::Time32(a) => DataType::Time32(*a),
            DataType::Time64(a) => DataType::Time64(*a),
            DataType::Duration(a) => DataType::Duration(*a),
            DataType::Interval(a) => DataType::Interval(*a),
            DataType::Binary => DataType::Binary,
            DataType::FixedSizeBinary(a) => DataType::FixedSizeBinary(*a),
            DataType::LargeBinary => DataType::LargeBinary,
            DataType::BinaryView => DataType::BinaryView,
            DataType::Utf8 => DataType::Utf8,
            DataType::LargeUtf8 => DataType::LargeUtf8,
            DataType::Utf8View => DataType::Utf8View,
            DataType::List(a) => DataType::List(Box::new(a.duplicate())),
            DataType::ListView(a) => DataType::ListView(Box::new(a.duplicate())),
            DataType::FixedSizeList(a, b) => DataType::FixedSizeList(Box::new(a.duplicate()), *b),
            DataType::LargeList(a) => DataType::LargeList(Box::new(a.duplicate())),
            DataType::LargeListView(a) => DataType::LargeListView(Box::new(a.duplicate())),
            DataType::Struct(a) => DataType::Struct(duplicate_fields(a)),
            DataType::Union(a, b) => DataType::Union(duplicate_tagged(a), *b),
            DataType::Dictionary(a, b) => DataType::Dictionary(
                Box::new(a.duplicate()),
                Box::new(b.duplicate()),
            ),
            DataType::Decimal128(a, b) => DataType::Decimal128(*a, *b),
            DataType::Decimal256(a, b) => DataType::Decimal256(*a, *b),
            DataType::MapOf(a, b) => DataType::MapOf(Box::new(a.duplicate()), *b),
            DataType::RunEndEncoded(a, b) => DataType::RunEndEncoded(
                Box::new(a.duplicate()),
                Box::new(b.duplicate()),
            ),
        }
    }
}

impl Field {
    /// A column without metadata, and without a dictionary of its own.
    pub fn new(name: &str, data_type: DataType, nullable: bool) -> (r: Field)
        ensures
            r@.name == name@,
            r@.data_type == data_type@,
            r@.nullable == nullable,
            r@.metadata == Map::<Seq<char>, Seq<char>>::empty(),
            r@.dict_id == 0,
            !r@.dict_is_ordered,
    {
        Field {
            name: name.to_string(),
            data_type,
            nullable,
            metadata: Metadata::new(),
            dict_id: 0,
            dict_is_ordered: false,
        }
    }

    /// Whether both columns agree in name, type, nullability and metadata. Their dictionaries are
    /// not compared.
    pub fn same(&self, other: &Field) -> (r: bool)
        ensures
            r == (comparable(self@) == comparable(other@)),
        decreases self,
    {
        self.name == other.name && self.nullable == other.nullable && self.metadata.same(
            &other.metadata,
        ) && self.data_type.same(&other.data_type)
    }

    /// A column equal to this one.
    pub fn duplicate(&self) -> (r: Field)
        ensures
            r@ == self@,
        decreases self,
    {
        Field {
            name: self.name.clone(),
            data_type: self.data_type.duplicate(),
            nullable: self.nullable,
            metadata: self.metadata.clone(),
            dict_id: self.dict_id,
            dict_is_ordered: self.dict_is_ordered,
        }
    }
}

fn same_text(a: &Option<String>, b: &Option<String>) -> (r: bool)
    ensures
        r == (text_view(*a) == text_view(*b)),
{
    match (a, b) {
        (Some(x), Some(y)) => *x == *y,
        (None, None) => true,
        _ => false,
    }
}

fn duplicate_text(a: &Option<String>) -> (r: Option<String>)
    ensures
        text_view(r) == text_view(*a),
{
    match a {
        Some(text) => Some(text.clone()),
        None => None,
    }
}

/// Whether two lists hold equal columns in the same order.
pub fn same_fields(a: &Vec<Field>, b: &Vec<Field>) -> (r: bool)
    ensures
        r == (comparable_fields(fields_view(a@)) == comparable_fields(fields_view(b@))),
    decreases a,
{
    let ghost left = comparable_fields(fields_view(a@));
    let ghost right = comparable_fields(fields_view(b@));
    proof {
        lemma_fields_view(a@);
        lemma_fields_view(b@);
        lemma_comparable_fields(fields_view(a@));
        lemma_comparable_fields(fields_view(b@));
        assert forall|j: int| 0 <= j < a@.len() implies #[trigger] left[j] == comparable(
            field_view(a@[j]),
        ) by {
            assert(fields_view(a@)[j] == field_view(a@[j]));
        }
        assert forall|j: int| 0 <= j < b@.len() implies #[trigger] right[j] == comparable(
            field_view(b@[j]),
        ) by {
            assert(fields_view(b@)[j] == field_view(b@[j]));
        }
    }
    if a.len() != b.len() {
        assert(left.len() != right.len());
        return false;
    }
    let mut i: usize = 0;
    while i < a.len()
        invariant
            i <= a@.len(),
            a@.len() == b@.len(),
            left == comparable_fields(fields_view(a@)),
            right == comparable_fields(fields_view(b@)),
            forall|j: int|
                0 <= j < a@.len() ==> #[trigger] left[j] == comparable(field_view(a@[j])),
            forall|j: int|
                0 <= j < b@.len() ==> #[trigger] right[j] == comparable(field_view(b@[j])),
            forall|j: int| 0 <= j < i ==> #[trigger] left[j] == right[j],
        decreases a@.len() - i,
    {
        assert(decreases_to!(a => a@[i as int]));
        assert(left[i as int] == comparable(a@[i as int]@));
        assert(right[i as int] == comparable(b@[i as int]@));
        if !a[i].same(&b[i]) {
            return false;
        }
        i += 1;
    }
    assert(left =~= right);
    true
}

/// A list of columns equal to those of `a`.
pub fn duplicate_fields(a: &Vec<Field>) -> (r: Vec<Field>)
    ensures
        fields_view(r@) == fields_view(a@),
    decreases a,
{
    let mut r: Vec<Field> = Vec::new();
    let mut i: usize = 0;
    while i < a.len()
        invariant
            i <= a@.len(),
            i == r@.len(),
            forall|j: int| 0 <= j < i ==> field_view(#[trigger] r@[j]) == field_view(a@[j]),
        decreases a@.len() - i,
    {
        assert(decreases_to!(a => a@[i as int]));
        r.push(a[i].duplicate());
        i += 1;
    }
    assert(fields_view(r@) =~= fields_view(a@));
    r
}

fn same_tagged(a: &Vec<(i8, Field)>, b: &Vec<(i8, Field)>) -> (r: bool)
    ensures
        r == (comparable_tagged(tagged_view(a@)) == comparable_tagged(tagged_view(b@))),
    decreases a,
{
    let ghost left = comparable_tagged(tagged_view(a@));
    let ghost right = comparable_tagged(tagged_view(b@));
    proof {
        lemma_tagged(a@);
        lemma_tagged(b@);
    }
    if a.len() != b.len() {
        assert(left.len() != right.len());
        return false;
    }
    let mut i: usize = 0;
    while i < a.len()
        invariant
            i <= a@.len(),
            a@.len() == b@.len(),
            left == comparable_tagged(tagged_view(a@)),
            right == comparable_tagged(tagged_view(b@)),
            forall|j: int|
                0 <= j < a@.len() ==> #[trigger] left[j] == (
                    a@[j].0,
                    comparable(field_view(a@[j].1)),
                ),
            forall|j: int|
                0 <= j < b@.len() ==> #[trigger] right[j] == (
                    b@[j].0,
                    comparable(field_view(b@[j].1)),
                ),
            forall|j: int| 0 <= j < i ==> #[trigger] left[j] == right[j],
        decreases a@.len() - i,
    {
        assert(decreases_to!(a => a@[i as int].1));
        assert(left[i as int] == (a@[i as int].0, comparable(a@[i as int].1@)));
        assert(right[i as int] == (b@[i as int].0, comparable(b@[i as int].1@)));
        if a[i].0 != b[i].0 || !a[i].1.same(&b[i].1) {
            return false;
        }
        i += 1;
    }
    assert(left =~= right);
    true
}

fn duplicate_tagged(a: &Vec<(i8, Field)>) -> (r: Vec<(i8, Field)>)
    ensures
        tagged_view(r@) == tagged_view(a@),
    decreases a,
{
    let mut r: Vec<(i8, Field)> = Vec::new();
    let mut i: usize = 0;
    while i < a.len()
        invariant
            i <= a@.len(),
            i == r@.len(),
            forall|j: int|
                0 <= j < i ==> (#[trigger] r@[j]).0 == a@[j].0 && field_view(r@[j].1) == field_view(
                    a@[j].1,
                ),
        decreases a@.len() - i,
    {
        assert(decreases_to!(a => a@[i as int].1));
        r.push((a[i].0, a[i].1.duplicate()));
        i += 1;
    }
    assert(tagged_view(r@) =~= tagged_view(a@));
    r
}

impl Clone for DataType {
    fn clone(&self) -> (r: Self)
        ensures
            r@ == self@,
    {
        self.duplicate()
    }
}

impl Clone for Field {
    fn clone(&self) -> (r: Self)
        ensures
            r@ == self@,
    {
        self.duplicate()
    }
}

impl PartialEq for DataType {
    fn eq(&self, other: &Self) -> (r: bool) {
        self.same(other)
    }
}

impl vstd::std_specs::cmp::PartialEqSpecImpl for DataType {
    open spec fn obeys_eq_spec() -> bool {
        true
    }

    open spec fn eq_spec(&self, other: &Self) -> bool {
        comparable_type(self@) == comparable_type(other@)
    }
}

impl PartialEq for Field {
    fn eq(&self, other: &Self) -> (r: bool) {
        self.same(other)
    }
}

impl vstd::std_specs::cmp::PartialEqSpecImpl for Field {
    open spec fn obeys_eq_spec() -> bool {
        true
    }

    open spec fn eq_spec(&self, other: &Self) -> bool {
        comparable(self@) == comparable(other@)
    }
}

} // verus!
