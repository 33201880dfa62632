//! Schemas, the lookup table kept beside each, and the table of streams.

use crate::field::{
    comparable_fields, duplicate_fields, field_view, fields_view, lemma_fields_view, same_fields,
    Field, FieldView,
};
use crate::metadata::Metadata;
use vstd::hash_map::StringHashMap;
use vstd::prelude::*;

verus! {

/// The columns of a stream, in order, and the metadata of the whole.
#[derive(Debug)]
pub struct Schema {
    pub fields: Vec<Field>,
    pub metadata: Metadata,
}

/// What a [`Schema`] is.
pub struct SchemaView {
    pub fields: Seq<FieldView>,
    pub metadata: Map<Seq<char>, Seq<char>>,
}

impl View for Schema {
    type V = SchemaView;

    open spec fn view(&self) -> SchemaView {
        SchemaView { fields: fields_view(self.fields@), metadata: self.metadata@ }
    }
}

/// Whether two schemas have equal columns in the same order. Neither the metadata of the schemas
/// nor the dictionaries of the columns are compared.
pub open spec fn same_columns(a: SchemaView, b: SchemaView) -> bool {
    comparable_fields(a.fields) == comparable_fields(b.fields)
}

/// The position of each column by its name. Where a name occurs more than once, its last
/// occurrence counts.
pub open spec fn column_index(fields: Seq<FieldView>) -> Map<Seq<char>, int>
    decreases fields.len(),
{
    if fields.len() == 0 {
        Map::empty()
    } else {
        column_index(fields.drop_last()).insert(fields.last().name, fields.len() - 1)
    }
}

/// Whether some column of the schema has that name.
pub open spec fn has_column(schema: SchemaView, name: Seq<char>) -> bool {
    column_index(schema.fields).contains_key(name)
}

/// The column of that name.
pub open spec fn column(schema: SchemaView, name: Seq<char>) -> FieldView {
    schema.fields[column_index(schema.fields)[name]]
}

/// The index holds exactly the names of the columns, each with the place of a column of that
/// name.
pub proof fn lemma_column_index(fields: Seq<FieldView>)
    ensures
        column_index(fields).dom().finite(),
        column_index(fields).dom().len() <= fields.len(),
        forall|name: Seq<char>| #[trigger]
            column_index(fields).contains_key(name) ==> 0 <= column_index(fields)[name]
                < fields.len() && fields[column_index(fields)[name]].name == name,
        forall|i: int|
            0 <= i < fields.len() ==> column_index(fields).contains_key(
                (#[trigger] fields[i]).name,
            ) && i <= column_index(fields)[fields[i].name],
    decreases fields.len(),
{
    if fields.len() > 0 {
        let rest = fields.drop_last();
        lemma_column_index(rest);
        assert forall|i: int| 0 <= i < fields.len() implies column_index(fields).contains_key(
            (#[trigger] fields[i]).name,
        ) && i <= column_index(fields)[fields[i].name] by {
            if i < rest.len() {
                assert(rest[i] == fields[i]);
            }
        }
        assert forall|name: Seq<char>| #[trigger]
            column_index(fields).contains_key(name) implies 0 <= column_index(fields)[name]
            < fields.len() && fields[column_index(fields)[name]].name == name by {
            if name != fields.last().name {
                assert(column_index(rest).contains_key(name));
                assert(rest[column_index(rest)[name]] == fields[column_index(rest)[name]]);
            }
        }
        assert(column_index(fields).dom() =~= column_index(rest).dom().insert(fields.last().name));
    }
}

/// Where no name occurs twice, the index is as large as the list, and each column stands at the
/// place that the index gives for its name.
pub proof fn lemma_column_index_distinct(fields: Seq<FieldView>)
    requires
        forall|i: int, j: int|
            0 <= i < j < fields.len() ==> (#[trigger] fields[i]).name != (#[trigger] fields[j]).name,
    ensures
        column_index(fields).dom().len() == fields.len(),
        forall|i: int|
            0 <= i < fields.len() ==> column_index(fields)[(#[trigger] fields[i]).name] == i,
    decreases fields.len(),
{
    lemma_column_index(fields);
    assert forall|i: int| 0 <= i < fields.len() implies column_index(
        fields,
    )[(#[trigger] fields[i]).name] == i by {
        let at = column_index(fields)[fields[i].name];
        assert(fields[at].name == fields[i].name);
    }
    if fields.len() > 0 {
        let rest = fields.drop_last();
        assert forall|i: int, j: int| 0 <= i < j < rest.len() implies (#[trigger] rest[i]).name
            != (#[trigger] rest[j]).name by {
            assert(rest[i] == fields[i] && rest[j] == fields[j]);
        }
        lemma_column_index_distinct(rest);
        lemma_column_index(rest);
        assert(!column_index(rest).contains_key(fields.last().name)) by {
            if column_index(rest).contains_key(fields.last().name) {
                let at = column_index(rest)[fields.last().name];
                assert(rest[at].name == fields.last().name);
                assert(fields[at] == rest[at]);
            }
        }
        assert(column_index(fields).dom() =~= column_index(rest).dom().insert(fields.last().name));
    }
}

impl Schema {
    /// A schema of those columns, without metadata.
    pub fn new(fields: Vec<Field>) -> (r: Schema)
        ensures
            r@.fields == fields_view(fields@),
            r@.metadata == Map::<Seq<char>, Seq<char>>::empty(),
    {
        Schema { fields, metadata: Metadata::new() }
    }

    /// The same columns under other metadata.
    pub fn with_metadata(self, metadata: Metadata) -> (r: Schema)
        ensures
            r@.fields == self@.fields,
            r@.metadata == metadata@,
    {
        Schema { fields: self.fields, metadata }
    }

    /// Whether both schemas have equal columns in the same order. Their metadata is not compared.
    pub fn same_columns(&self, other: &Schema) -> (r: bool)
        ensures
            r == same_columns(self@, other@),
    {
        same_fields(&self.fields, &other.fields)
    }

    /// Whether some column has that name.
    pub fn contains_column(&self, name: &String) -> (r: bool)
        ensures
            r == has_column(self@, name@),
    {
        proof {
            lemma_column_index(self@.fields);
            lemma_fields_view(self.fields@);
        }
        let mut i: usize = 0;
        while i < self.fields.len()
            invariant
                i <= self.fields@.len(),
                fields_view(self.fields@).len() == self.fields@.len(),
                forall|j: int|
                    0 <= j < self.fields@.len() ==> #[trigger] fields_view(self.fields@)[j]
                        == field_view(self.fields@[j]),
                forall|j: int|
                    0 <= j < self@.fields.len() ==> column_index(self@.fields).contains_key(
                        (#[trigger] self@.fields[j]).name,
                    ),
                forall|j: int| 0 <= j < i ==> (#[trigger] fields_view(self.fields@)[j]).name != name@,
            decreases self.fields@.len() - i,
        {
            assert(fields_view(self.fields@)[i as int] == field_view(self.fields@[i as int]));
            if self.fields[i].name == *name {
                assert(self@.fields[i as int].name == name@);
                return true;
            }
            i += 1;
        }
        assert(!has_column(self@, name@)) by {
            if has_column(self@, name@) {
                let at = column_index(self@.fields)[name@];
                assert(self@.fields[at].name == name@);
            }
        }
        false
    }
}

impl Clone for Schema {
    fn clone(&self) -> (r: Self)
        ensures
            r@ == self@,
    {
        Schema { fields: duplicate_fields(&self.fields), metadata: self.metadata.clone() }
    }
}

impl PartialEq for Schema {
    fn eq(&self, other: &Self) -> (r: bool) {
        self.same_columns(other) && self.metadata.same(&other.metadata)
    }
}

impl vstd::std_specs::cmp::PartialEqSpecImpl for Schema {
    open spec fn obeys_eq_spec() -> bool {
        true
    }

    open spec fn eq_spec(&self, other: &Self) -> bool {
        same_columns(self@, other@) && self@.metadata == other@.metadata
    }
}

/// A schema with the position of each column by name.
pub struct SchemaCache {
    schema: Schema,
    positions: StringHashMap<usize>,
}

impl View for SchemaCache {
    type V = SchemaView;

    closed spec fn view(&self) -> SchemaView {
        self.schema@
    }
}

/// Whether `positions` holds the places that `index` gives.
spec fn agrees(positions: Map<Seq<char>, usize>, index: Map<Seq<char>, int>) -> bool {
    &&& positions.dom() == index.dom()
    &&& forall|name: Seq<char>| #[trigger]
        positions.contains_key(name) ==> positions[name] == index[name]
}

impl SchemaCache {
    #[verifier::type_invariant]
    spec fn well_formed(self) -> bool {
        agrees(self.positions@, column_index(self.schema@.fields))
    }

    /// The schema together with the position of each of its columns.
    pub fn new(schema: Schema) -> (r: SchemaCache)
        ensures
            r@ == schema@,
    {
        let mut positions: StringHashMap<usize> = StringHashMap::new();
        let mut i: usize = 0;
        proof {
            lemma_fields_view(schema.fields@);
            assert(schema@.fields.take(0) =~= Seq::empty());
            assert(positions@.dom() =~= column_index(schema@.fields.take(0)).dom());
        }
        while i < schema.fields.len()
            invariant
                i <= schema.fields@.len(),
                schema@.fields.len() == schema.fields@.len(),
                forall|j: int|
                    0 <= j < schema.fields@.len() ==> #[trigger] fields_view(schema.fields@)[j]
                        == field_view(schema.fields@[j]),
                agrees(positions@, column_index(schema@.fields.take(i as int))),
            decreases schema.fields@.len() - i,
        {
            let ghost before = schema@.fields.take(i as int);
            let ghost after = schema@.fields.take(i + 1);
            assert(after.drop_last() =~= before);
            assert(after.last() == field_view(schema.fields@[i as int]));
            positions.insert(schema.fields[i].name.clone(), i);
            assert(positions@.dom() =~= column_index(after).dom());
            i += 1;
        }
        assert(schema@.fields.take(i as int) =~= schema@.fields);
        SchemaCache { schema, positions }
    }

    /// The schema itself.
    pub fn schema(&self) -> (r: &Schema)
        ensures
            r@ == self@,
    {
        &self.schema
    }

    /// The number of different column names.
    pub fn column_count(&self) -> (r: usize)
        ensures
            r == column_index(self@.fields).dom().len(),
    {
        proof {
            use_type_invariant(self);
        }
        self.positions.len()
    }

    /// The column of that name.
    pub fn get(&self, name: &String) -> (r: Option<&Field>)
        ensures
            r is Some <==> has_column(self@, name@),
            r matches Some(field) ==> field@ == column(self@, name@),
    {
        proof {
            use_type_invariant(self);
            lemma_column_index(self@.fields);
            lemma_fields_view(self.schema.fields@);
        }
        match self.positions.get(name.as_str()) {
            Some(i) => {
                assert(self.positions@.contains_key(name@));
                assert(column_index(self@.fields).contains_key(name@));
                Some(&self.schema.fields[*i])
            },
            None => {
                assert(!self.positions@.dom().contains(name@));
                None
            },
        }
    }
}

impl Clone for SchemaCache {
    fn clone(&self) -> (r: Self)
        ensures
            r@ == self@,
    {
        SchemaCache::new(self.schema.clone())
    }
}

/// The schemas that a worker has at hand, by stream name.
pub struct StreamSchemaMap {
    schemas: StringHashMap<SchemaCache>,
}

impl View for StreamSchemaMap {
    type V = Map<Seq<char>, SchemaView>;

    closed spec fn view(&self) -> Map<Seq<char>, SchemaView> {
        self.schemas@.map_values(|cache: SchemaCache| cache@)
    }
}

impl StreamSchemaMap {
    /// A map without any stream.
    pub fn new() -> (r: StreamSchemaMap)
        ensures
            r@ == Map::<Seq<char>, SchemaView>::empty(),
    {
        let r = StreamSchemaMap { schemas: StringHashMap::new() };
        assert(r@ =~= Map::empty());
        r
    }

    /// Whether the stream has a schema here.
    pub fn contains_key(&self, name: &str) -> (r: bool)
        ensures
            r == self@.contains_key(name@),
    {
        self.schemas.contains_key(name)
    }

    /// The schema of the stream.
    pub fn get(&self, name: &str) -> (r: Option<&SchemaCache>)
        ensures
            r is Some <==> self@.contains_key(name@),
            r matches Some(cache) ==> cache@ == self@[name@],
    {
        self.schemas.get(name)
    }

    /// Makes `cache` the schema of the stream.
    pub fn insert(&mut self, name: String, cache: SchemaCache)
        ensures
            final(self)@ == old(self)@.insert(name@, cache@),
    {
        let ghost before = self@;
        let ghost name_text = name@;
        let ghost stored = cache@;
        self.schemas.insert(name, cache);
        assert(self@ =~= before.insert(name_text, stored));
    }
}

} // verus!
