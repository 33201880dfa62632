//! Narrowing a stream to the columns that its settings define.

use crate::field::{
    field_view, fields_view, lemma_fields_view, lemma_fields_view_push, Field, FieldView,
};
use crate::name_set::{names_in, NameSet};
use crate::schema::{
    column, column_index, has_column, lemma_column_index, lemma_column_index_distinct, Schema,
    SchemaCache, SchemaView,
};
use crate::settings::{SchemaConfig, StreamType};
use crate::text::texts;
use vstd::prelude::*;

verus! {

/// Whether a schema is narrowed to the columns defined: there are some, and the schema has more
/// than ten names beyond as many.
pub open spec fn is_narrowed(schema: SchemaView, fields: Seq<Seq<char>>) -> bool {
    fields.len() > 0 && column_index(schema.fields).dom().len() > fields.len() + 10
}

/// The names that a narrowed schema keeps: those defined, the columns that every stream keeps, and
/// those of the original record where it is stored.
pub open spec fn kept_names(
    fields: Seq<Seq<char>>,
    need_original: bool,
    cfg: SchemaConfig,
) -> Set<Seq<char>> {
    let names = fields.to_set().insert(cfg.column_timestamp@).insert(cfg.column_all@);
    if need_original {
        names.insert(cfg.id_column@).insert(cfg.original_column@)
    } else {
        names
    }
}

/// The columns with the given names that the schema has, in the order of the names.
pub open spec fn columns_named(schema: SchemaView, names: Seq<Seq<char>>) -> Seq<FieldView>
    decreases names.len(),
{
    if names.len() == 0 {
        Seq::empty()
    } else {
        let before = columns_named(schema, names.drop_last());
        if has_column(schema, names.last()) {
            before.push(column(schema, names.last()))
        } else {
            before
        }
    }
}

/// Whether `fields` holds, once each and in some order, the columns of the schema whose names are
/// among `names`.
pub open spec fn is_selection(
    schema: SchemaView,
    names: Set<Seq<char>>,
    fields: Seq<FieldView>,
) -> bool {
    &&& forall|i: int, j: int|
        0 <= i < j < fields.len() ==> (#[trigger] fields[i]).name != (#[trigger] fields[j]).name
    &&& forall|i: int|
        0 <= i < fields.len() ==> names.contains((#[trigger] fields[i]).name) && has_column(
            schema,
            fields[i].name,
        ) && fields[i] == column(schema, fields[i].name)
    &&& forall|name: Seq<char>|
        names.contains(name) && has_column(schema, name) ==> exists|i: int|
            0 <= i < fields.len() && (#[trigger] fields[i]).name == name
}

proof fn lemma_columns_named(schema: SchemaView, names: Seq<Seq<char>>)
    requires
        names.no_duplicates(),
    ensures
        is_selection(schema, names.to_set(), columns_named(schema, names)),
        columns_named(schema, names).len() <= names.len(),
    decreases names.len(),
{
    lemma_column_index(schema.fields);
    if names.len() > 0 {
        let rest = names.drop_last();
        let name = names.last();
        let before = columns_named(schema, rest);
        let fields = columns_named(schema, names);
        lemma_columns_named(schema, rest);
        assert forall|i: int| 0 <= i < before.len() implies (#[trigger] before[i]).name != name by {
            assert(rest.contains(before[i].name));
            let k = choose|k: int| 0 <= k < rest.len() && rest[k] == before[i].name;
            assert(names[k] == rest[k]);
            assert(names[names.len() - 1] == name);
        }
        assert forall|i: int| 0 <= i < fields.len() implies names.to_set().contains(
            (#[trigger] fields[i]).name,
        ) && has_column(schema, fields[i].name) && fields[i] == column(schema, fields[i].name) by {
            if i < before.len() {
                assert(fields[i] == before[i]);
                assert(rest.contains(before[i].name));
                let k = choose|k: int| 0 <= k < rest.len() && rest[k] == before[i].name;
                assert(names[k] == before[i].name);
            } else {
                assert(names[names.len() - 1] == name);
            }
        }
        assert forall|wanted: Seq<char>|
            names.to_set().contains(wanted) && has_column(schema, wanted) implies exists|i: int|
            0 <= i < fields.len() && (#[trigger] fields[i]).name == wanted by {
            if wanted == name {
                assert(fields[fields.len() - 1].name == name);
            } else {
                let k = choose|k: int| 0 <= k < names.len() && names[k] == wanted;
                assert(rest[k] == wanted);
                assert(rest.to_set().contains(wanted));
                let i = choose|i: int| 0 <= i < before.len() && (#[trigger] before[i]).name == wanted;
                assert(fields[i].name == wanted);
            }
        }
    }
}

/// The columns with the given names that the schema has, in the order of the names. Names that it
/// does not have are passed over.
pub fn select_columns(schema: &SchemaCache, names: &Vec<String>) -> (r: Vec<Field>)
    ensures
        fields_view(r@) == columns_named(schema@, texts(names@)),
{
    let mut fields: Vec<Field> = Vec::new();
    let mut i: usize = 0;
    proof {
        lemma_fields_view(fields@);
        assert(fields_view(fields@) =~= Seq::empty());
        assert(texts(names@).take(0) =~= Seq::empty());
    }
    while i < names.len()
        invariant
            i <= names@.len(),
            fields_view(fields@) == columns_named(schema@, texts(names@).take(i as int)),
        decreases names@.len() - i,
    {
        proof {
            assert(texts(names@).take(i + 1).drop_last() =~= texts(names@).take(i as int));
            assert(texts(names@).take(i + 1).last() == names@[i as int]@);
        }
        match schema.get(&names[i]) {
            Some(field) => {
                let copy = field.duplicate();
                proof {
                    lemma_fields_view_push(fields@, copy);
                }
                fields.push(copy);
            },
            None => {},
        }
        i += 1;
    }
    assert(texts(names@).take(i as int) =~= texts(names@));
    fields
}

/// The names that a narrowed schema keeps.
fn collect_kept_names(fields: &[String], need_original: bool, cfg: &SchemaConfig) -> (r: NameSet)
    ensures
        names_in(r) == kept_names(texts(fields@), need_original, *cfg),
{
    let mut names = NameSet::new();
    let mut i: usize = 0;
    assert(texts(fields@).take(0).to_set() =~= Set::empty());
    while i < fields.len()
        invariant
            i <= fields@.len(),
            names_in(names) == texts(fields@).take(i as int).to_set(),
        decreases fields@.len() - i,
    {
        let ghost before = texts(fields@).take(i as int);
        let ghost after = texts(fields@).take(i + 1);
        names.insert(fields[i].clone());
        proof {
            let name = fields@[i as int]@;
            assert(after =~= before.push(name));
            assert forall|n: Seq<char>| after.contains(n) == (before.contains(n) || n == name) by {
                if before.contains(n) {
                    let k = choose|k: int| 0 <= k < before.len() && before[k] == n;
                    assert(after[k] == n);
                }
                if n == name {
                    assert(after[after.len() - 1] == n);
                }
            }
            assert(after.to_set() =~= before.to_set().insert(name));
        }
        i += 1;
    }
    assert(texts(fields@).take(i as int) =~= texts(fields@));
    if !names.contains(&cfg.column_timestamp) {
        names.insert(cfg.column_timestamp.clone());
    }
    if !names.contains(&cfg.column_all) {
        names.insert(cfg.column_all.clone());
    }
    if need_original {
        if !names.contains(&cfg.id_column) {
            names.insert(cfg.id_column.clone());
        }
        if !names.contains(&cfg.original_column) {
            names.insert(cfg.original_column.clone());
        }
    }
    assert(names_in(names) =~= kept_names(texts(fields@), need_original, *cfg));
    names
}

/// The schema narrowed to the columns that its settings define, or the schema itself where it does
/// not have many more columns than that. In which order a narrowed schema holds its columns is left
/// open.
pub fn generate_schema_for_defined_schema_fields(
    schema: &SchemaCache,
    fields: &[String],
    need_original: bool,
    cfg: &SchemaConfig,
) -> (r: SchemaCache)
    ensures
        is_generated(schema@, texts(fields@), need_original, *cfg, r@),
{
    let count = schema.column_count();
    if fields.len() == 0 || count < 10 || count - 10 <= fields.len() {
        return schema.clone();
    }
    let names = collect_kept_names(fields, need_original, cfg).into_names();
    let new_fields = select_columns(schema, &names);
    proof {
        lemma_columns_named(schema@, texts(names@));
    }
    SchemaCache::new(Schema { fields: new_fields, metadata: schema.schema().metadata.clone() })
}

/// What [`generate_schema_for_defined_schema_fields`] makes of a schema.
pub open spec fn is_generated(
    schema: SchemaView,
    fields: Seq<Seq<char>>,
    need_original: bool,
    cfg: SchemaConfig,
    made: SchemaView,
) -> bool {
    if is_narrowed(schema, fields) {
        &&& made.metadata == schema.metadata
        &&& is_selection(schema, kept_names(fields, need_original, cfg), made.fields)
    } else {
        made == schema
    }
}

/// Whether a log stream is narrowed on its own: this is allowed and has a bound, no columns are
/// defined yet, and there are more columns than the bound.
pub open spec fn defines_fields(
    schema: SchemaView,
    stream_type: StreamType,
    defined: Seq<Seq<char>>,
    cfg: SchemaConfig,
) -> bool {
    &&& cfg.allow_user_defined_schemas
    &&& cfg.udschema_max_fields > 0
    &&& stream_type is Logs
    &&& defined.len() == 0
    &&& schema.fields.len() > cfg.udschema_max_fields
}

/// The columns of the schema that full text search looks into, but for those common to all
/// streams.
pub open spec fn searched_names(schema: SchemaView, cfg: SchemaConfig) -> Set<Seq<char>> {
    Set::new(
        |name: Seq<char>|
            texts(cfg.full_text_search_fields@).contains(name) && has_column(schema, name)
                && !is_common(name, cfg),
    )
}

/// Whether a column belongs to every stream and is never defined for one.
pub open spec fn is_common(name: Seq<char>, cfg: SchemaConfig) -> bool {
    name == cfg.column_timestamp@ || name == cfg.column_all@
}

/// `names` and, one after the other, the columns that are not common to all streams, up to the one
/// with which there are as many names as the bound says.
pub open spec fn filled(
    names: Set<Seq<char>>,
    fields: Seq<FieldView>,
    cfg: SchemaConfig,
) -> Set<Seq<char>>
    decreases fields.len(),
{
    if fields.len() == 0 {
        names
    } else if is_common(fields[0].name, cfg) {
        filled(names, fields.skip(1), cfg)
    } else {
        let more = names.insert(fields[0].name);
        if more.len() == cfg.udschema_max_fields {
            more
        } else {
            filled(more, fields.skip(1), cfg)
        }
    }
}

/// The columns that a log stream is narrowed to on its own.
pub open spec fn chosen_names(schema: SchemaView, cfg: SchemaConfig) -> Set<Seq<char>> {
    filled(searched_names(schema, cfg), schema.fields, cfg)
}

fn collect_searched_names(schema: &Schema, cfg: &SchemaConfig) -> (r: NameSet)
    ensures
        names_in(r) == searched_names(schema@, *cfg),
{
    let searched = &cfg.full_text_search_fields;
    let mut names = NameSet::new();
    let mut i: usize = 0;
    while i < searched.len()
        invariant
            i <= searched@.len(),
            forall|name: Seq<char>| #[trigger]
                names_in(names).contains(name) <==> has_column(schema@, name) && !is_common(
                    name,
                    *cfg,
                ) && texts(searched@).take(i as int).contains(name),
        decreases searched@.len() - i,
    {
        let ghost before = texts(searched@).take(i as int);
        let ghost after = texts(searched@).take(i + 1);
        let ghost item = searched@[i as int]@;
        proof {
            assert(after =~= before.push(item));
            assert forall|n: Seq<char>| #[trigger]
                after.contains(n) == (before.contains(n) || n == item) by {
                if before.contains(n) {
                    let k = choose|k: int| 0 <= k < before.len() && before[k] == n;
                    assert(after[k] == n);
                }
                if n == item {
                    assert(after[after.len() - 1] == n);
                }
            }
        }
        if searched[i] != cfg.column_timestamp && searched[i] != cfg.column_all
            && schema.contains_column(&searched[i]) {
            names.insert(searched[i].clone());
        }
        i += 1;
    }
    assert(texts(searched@).take(i as int) =~= texts(searched@));
    assert(names_in(names) =~= searched_names(schema@, *cfg));
    names
}

/// Chooses the columns that a log stream is narrowed to on its own. In which order they come is
/// left open.
pub fn choose_defined_fields(schema: &Schema, cfg: &SchemaConfig) -> (r: Vec<String>)
    ensures
        texts(r@).no_duplicates(),
        texts(r@).to_set() == chosen_names(schema@, *cfg),
{
    let mut names = collect_searched_names(schema, cfg);
    let mut i: usize = 0;
    proof {
        lemma_fields_view(schema.fields@);
        assert(schema@.fields.skip(0) =~= schema@.fields);
    }
    while i < schema.fields.len()
        invariant_except_break
            filled(names_in(names), schema@.fields.skip(i as int), *cfg) == chosen_names(
                schema@,
                *cfg,
            ),
        invariant
            i <= schema.fields@.len(),
            schema@.fields.len() == schema.fields@.len(),
            forall|j: int|
                0 <= j < schema.fields@.len() ==> #[trigger] fields_view(schema.fields@)[j]
                    == field_view(schema.fields@[j]),
        ensures
            names_in(names) == chosen_names(schema@, *cfg),
        decreases schema.fields@.len() - i,
    {
        let field_name = &schema.fields[i].name;
        proof {
            let rest = schema@.fields.skip(i as int);
            assert(rest[0] == field_view(schema.fields@[i as int]));
            assert(rest.skip(1) =~= schema@.fields.skip(i + 1));
        }
        i += 1;
        if *field_name == cfg.column_timestamp || *field_name == cfg.column_all {
            continue;
        }
        names.insert(field_name.clone());
        if names.len() == cfg.udschema_max_fields {
            break;
        }
    }
    names.into_names()
}

/// Narrowing keeps the metadata, and a name is in the narrowed schema exactly when it was in the
/// schema and is to be kept. Its column is as it was.
pub proof fn narrowing_keeps_columns(
    schema: SchemaView,
    fields: Seq<Seq<char>>,
    need_original: bool,
    cfg: SchemaConfig,
    made: SchemaView,
    name: Seq<char>,
)
    requires
        is_generated(schema, fields, need_original, cfg, made),
    ensures
        made.metadata == schema.metadata,
        has_column(made, name) <==> has_column(schema, name) && (is_narrowed(schema, fields)
            ==> kept_names(fields, need_original, cfg).contains(name)),
        has_column(made, name) ==> column(made, name) == column(schema, name),
{
    lemma_column_index(made.fields);
    if is_narrowed(schema, fields) {
        lemma_column_index_distinct(made.fields);
        let kept = kept_names(fields, need_original, cfg);
        if has_column(schema, name) && kept.contains(name) {
            let i = choose|i: int| 0 <= i < made.fields.len() && (#[trigger] made.fields[i]).name == name;
            assert(column_index(made.fields).contains_key(made.fields[i].name));
        }
        if has_column(made, name) {
            let at = column_index(made.fields)[name];
            assert(made.fields[at].name == name);
        }
    }
}

/// The columns common to all streams survive narrowing, and so do those of the original record
/// where it is stored.
pub proof fn narrowing_keeps_reserved_columns(
    schema: SchemaView,
    fields: Seq<Seq<char>>,
    need_original: bool,
    cfg: SchemaConfig,
    made: SchemaView,
)
    requires
        is_generated(schema, fields, need_original, cfg, made),
    ensures
        has_column(made, cfg.column_timestamp@) == has_column(schema, cfg.column_timestamp@),
        has_column(made, cfg.column_all@) == has_column(schema, cfg.column_all@),
        need_original ==> has_column(made, cfg.id_column@) == has_column(schema, cfg.id_column@),
        need_original ==> has_column(made, cfg.original_column@) == has_column(
            schema,
            cfg.original_column@,
        ),
{
    narrowing_keeps_columns(schema, fields, need_original, cfg, made, cfg.column_timestamp@);
    narrowing_keeps_columns(schema, fields, need_original, cfg, made, cfg.column_all@);
    narrowing_keeps_columns(schema, fields, need_original, cfg, made, cfg.id_column@);
    narrowing_keeps_columns(schema, fields, need_original, cfg, made, cfg.original_column@);
}

/// A schema that was narrowed to some columns is not narrowed to them again: doing it once more
/// changes nothing, whether or not originals are stored.
pub proof fn narrowing_settles(
    schema: SchemaView,
    fields: Seq<Seq<char>>,
    need_original: bool,
    need_original_again: bool,
    cfg: SchemaConfig,
    made: SchemaView,
    again: SchemaView,
)
    requires
        is_generated(schema, fields, need_original, cfg, made),
        is_generated(made, fields, need_original_again, cfg, again),
    ensures
        again == made,
{
    if is_narrowed(schema, fields) {
        narrowed_schema_is_small(schema, fields, need_original, cfg, made);
    }
}

/// A narrowed schema has at most two names more than were defined, or four where originals are
/// stored.
pub proof fn narrowed_schema_is_small(
    schema: SchemaView,
    fields: Seq<Seq<char>>,
    need_original: bool,
    cfg: SchemaConfig,
    made: SchemaView,
)
    requires
        is_generated(schema, fields, need_original, cfg, made),
        is_narrowed(schema, fields),
    ensures
        column_index(made.fields).dom().len() <= fields.len() + (if need_original {
            4int
        } else {
            2int
        }),
{
    let kept = kept_names(fields, need_original, cfg);
    let held = column_index(made.fields).dom();
    lemma_column_index(made.fields);
    vstd::seq_lib::seq_to_set_is_finite(fields);
    fields.lemma_cardinality_of_set();
    assert(kept.finite());
    assert(kept.len() <= fields.len() + (if need_original {
        4int
    } else {
        2int
    }));
    assert forall|name: Seq<char>| held.contains(name) implies kept.contains(name) by {
        narrowing_keeps_columns(schema, fields, need_original, cfg, made, name);
        assert(column_index(made.fields).contains_key(name));
    }
    vstd::set_lib::lemma_len_subset(held, kept);
}

/// The columns that a log stream is narrowed to on its own are columns that it has, and hold those
/// that full text search looks into, but for the common ones.
pub proof fn chosen_names_are_columns(schema: SchemaView, cfg: SchemaConfig)
    ensures
        searched_names(schema, cfg).subset_of(chosen_names(schema, cfg)),
        forall|name: Seq<char>| #[trigger]
            chosen_names(schema, cfg).contains(name) ==> has_column(schema, name),
{
    lemma_column_index(schema.fields);
    lemma_filled(searched_names(schema, cfg), schema.fields, cfg);
    assert forall|name: Seq<char>| #[trigger]
        chosen_names(schema, cfg).contains(name) implies has_column(schema, name) by {
        if !searched_names(schema, cfg).contains(name) {
            let i = choose|i: int|
                0 <= i < schema.fields.len() && (#[trigger] schema.fields[i]).name == name;
            assert(column_index(schema.fields).contains_key(schema.fields[i].name));
        }
    }
}

/// Neither the time column nor the column of all text is ever defined for a stream, though full
/// text search may look into it.
pub proof fn chosen_names_leave_out_common_columns(schema: SchemaView, cfg: SchemaConfig)
    ensures
        !chosen_names(schema, cfg).contains(cfg.column_timestamp@),
        !chosen_names(schema, cfg).contains(cfg.column_all@),
{
    lemma_filled(searched_names(schema, cfg), schema.fields, cfg);
}

/// Where full text search looks into fewer columns than the bound, a stream is narrowed to no more
/// columns than the bound, and to fewer only where it has no others.
pub proof fn chosen_names_meet_the_bound(schema: SchemaView, cfg: SchemaConfig)
    requires
        searched_names(schema, cfg).len() < cfg.udschema_max_fields,
    ensures
        chosen_names(schema, cfg).finite(),
        chosen_names(schema, cfg).len() <= cfg.udschema_max_fields,
        chosen_names(schema, cfg).len() == cfg.udschema_max_fields || forall|i: int|
            0 <= i < schema.fields.len() ==> is_common((#[trigger] schema.fields[i]).name, cfg)
                || chosen_names(schema, cfg).contains(schema.fields[i].name),
{
    lemma_column_index(schema.fields);
    let searched = searched_names(schema, cfg);
    assert(searched.subset_of(column_index(schema.fields).dom()));
    vstd::set_lib::lemma_set_subset_finite(column_index(schema.fields).dom(), searched);
    lemma_filled_bound(searched, schema.fields, cfg);
}

/// A stream with a column that may be chosen is narrowed to one column at least.
pub proof fn chosen_names_are_some(schema: SchemaView, cfg: SchemaConfig)
    requires
        exists|i: int|
            0 <= i < schema.fields.len() && !is_common((#[trigger] schema.fields[i]).name, cfg),
    ensures
        exists|name: Seq<char>| #[trigger] chosen_names(schema, cfg).contains(name),
{
    let searched = searched_names(schema, cfg);
    lemma_filled_some(searched, schema.fields, cfg);
    let name = choose|name: Seq<char>| #[trigger]
        filled(searched, schema.fields, cfg).contains(name);
    assert(chosen_names(schema, cfg).contains(name));
}

proof fn lemma_filled_some(names: Set<Seq<char>>, fields: Seq<FieldView>, cfg: SchemaConfig)
    requires
        exists|i: int| 0 <= i < fields.len() && !is_common((#[trigger] fields[i]).name, cfg),
    ensures
        exists|name: Seq<char>| #[trigger] filled(names, fields, cfg).contains(name),
    decreases fields.len(),
{
    let rest = fields.skip(1);
    if is_common(fields[0].name, cfg) {
        let i = choose|i: int| 0 <= i < fields.len() && !is_common((#[trigger] fields[i]).name, cfg);
        assert(rest[i - 1] == fields[i]);
        lemma_filled_some(names, rest, cfg);
        let name = choose|name: Seq<char>| #[trigger] filled(names, rest, cfg).contains(name);
        assert(filled(names, fields, cfg).contains(name));
    } else {
        lemma_filled(names.insert(fields[0].name), rest, cfg);
        assert(filled(names, fields, cfg).contains(fields[0].name));
    }
}

proof fn lemma_filled(names: Set<Seq<char>>, fields: Seq<FieldView>, cfg: SchemaConfig)
    ensures
        names.subset_of(filled(names, fields, cfg)),
        forall|name: Seq<char>| #[trigger]
            filled(names, fields, cfg).contains(name) ==> names.contains(name) || (!is_common(
                name,
                cfg,
            ) && exists|i: int| 0 <= i < fields.len() && (#[trigger] fields[i]).name == name),
    decreases fields.len(),
{
    if fields.len() > 0 {
        let rest = fields.skip(1);
        let more = if is_common(fields[0].name, cfg) {
            names
        } else {
            names.insert(fields[0].name)
        };
        lemma_filled(more, rest, cfg);
        assert forall|name: Seq<char>| #[trigger]
            filled(names, fields, cfg).contains(name) implies names.contains(name) || (!is_common(
            name,
            cfg,
        ) && exists|i: int| 0 <= i < fields.len() && (#[trigger] fields[i]).name == name) by {
            if !names.contains(name) && name != fields[0].name {
                let i = choose|i: int| 0 <= i < rest.len() && (#[trigger] rest[i]).name == name;
                assert(fields[i + 1].name == name);
            }
        }
    }
}

proof fn lemma_filled_bound(names: Set<Seq<char>>, fields: Seq<FieldView>, cfg: SchemaConfig)
    requires
        names.finite(),
        names.len() < cfg.udschema_max_fields,
    ensures
        filled(names, fields, cfg).finite(),
        filled(names, fields, cfg).len() <= cfg.udschema_max_fields,
        filled(names, fields, cfg).len() == cfg.udschema_max_fields || forall|i: int|
            0 <= i < fields.len() ==> is_common((#[trigger] fields[i]).name, cfg) || filled(
                names,
                fields,
                cfg,
            ).contains(fields[i].name),
    decreases fields.len(),
{
    if fields.len() > 0 {
        let rest = fields.skip(1);
        let common = is_common(fields[0].name, cfg);
        let more = if common {
            names
        } else {
            names.insert(fields[0].name)
        };
        if common || more.len() != cfg.udschema_max_fields {
            lemma_filled_bound(more, rest, cfg);
            lemma_filled(more, rest, cfg);
            assert forall|i: int|
                0 <= i < fields.len() && filled(names, fields, cfg).len()
                    != cfg.udschema_max_fields implies is_common((#[trigger] fields[i]).name, cfg)
                || filled(names, fields, cfg).contains(fields[i].name) by {
                if i > 0 {
                    assert(rest[i - 1] == fields[i]);
                }
            }
        }
    }
}

} // verus!
