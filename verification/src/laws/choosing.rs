//! Laws on the columns that are chosen for a log stream that is narrowed on its own.

use crate::field::FieldView;
use crate::laws::columns::columns_are_found_by_name;
use crate::narrowing::{
    chosen_names, chosen_names_are_columns, chosen_names_leave_out_common_columns,
    chosen_names_meet_the_bound, filled, searched_names,
};
use crate::schema::{column_index, has_column, lemma_column_index, SchemaView};
use crate::settings::SchemaConfig;
use crate::text::texts;
use vstd::prelude::*;

verus! {

/// Whether a column can be chosen: neither the time nor the text of all columns can.
pub open spec fn can_be_chosen(name: Seq<char>, cfg: SchemaConfig) -> bool {
    name != cfg.column_timestamp@ && name != cfg.column_all@
}

/// The columns of a schema that can be chosen and that full text search looks into.
pub open spec fn searched_columns(schema: SchemaView, cfg: SchemaConfig) -> Set<Seq<char>> {
    Set::new(
        |name: Seq<char>|
            has_column(schema, name) && can_be_chosen(name, cfg) && exists|i: int|
                0 <= i < cfg.full_text_search_fields@.len()
                    && #[trigger] cfg.full_text_search_fields@[i]@ == name,
    )
}

/// Only columns of the stream are chosen, and neither the time nor the text of all columns. Every
/// other column that full text search looks into is.
pub proof fn searched_columns_are_chosen(schema: SchemaView, cfg: SchemaConfig, name: Seq<char>)
    ensures
        chosen_names(schema, cfg).contains(name) ==> has_column(schema, name),
        !chosen_names(schema, cfg).contains(cfg.column_timestamp@),
        !chosen_names(schema, cfg).contains(cfg.column_all@),
        searched_columns(schema, cfg).contains(name) ==> chosen_names(schema, cfg).contains(name),
{
    chosen_names_are_columns(schema, cfg);
    chosen_names_leave_out_common_columns(schema, cfg);
    lemma_searched(schema, cfg);
}

/// Where full text search looks into fewer columns than the bound, as many are chosen as the bound
/// says, or all that can be where there are fewer.
pub proof fn as_many_are_chosen_as_the_bound_says(schema: SchemaView, cfg: SchemaConfig)
    requires
        searched_columns(schema, cfg).len() < cfg.udschema_max_fields,
    ensures
        chosen_names(schema, cfg).finite(),
        chosen_names(schema, cfg).len() <= cfg.udschema_max_fields,
        chosen_names(schema, cfg).len() < cfg.udschema_max_fields ==> forall|name: Seq<char>|
            has_column(schema, name) && can_be_chosen(name, cfg) ==> #[trigger] chosen_names(
                schema,
                cfg,
            ).contains(name),
{
    lemma_searched(schema, cfg);
    chosen_names_meet_the_bound(schema, cfg);
    if chosen_names(schema, cfg).len() < cfg.udschema_max_fields {
        assert forall|name: Seq<char>|
            has_column(schema, name) && can_be_chosen(
                name,
                cfg,
            ) implies #[trigger] chosen_names(schema, cfg).contains(name) by {
            columns_are_found_by_name(schema, name);
            let i = choose|i: int|
                0 <= i < schema.fields.len() && (#[trigger] schema.fields[i]).name == name;
            assert(chosen_names(schema, cfg).contains(schema.fields[i].name));
        }
    }
}

/// Columns are chosen in the order in which the stream has them: one that search does not look into
/// is chosen only where every column before it is that can be.
pub proof fn earlier_columns_are_chosen_first(schema: SchemaView, cfg: SchemaConfig, i: int, j: int)
    requires
        0 <= i < j < schema.fields.len(),
        can_be_chosen(schema.fields[i].name, cfg),
        chosen_names(schema, cfg).contains(schema.fields[j].name),
        !searched_columns(schema, cfg).contains(schema.fields[j].name),
        forall|k: int|
            0 <= k < j ==> (#[trigger] schema.fields[k]).name != schema.fields[j].name,
    ensures
        chosen_names(schema, cfg).contains(schema.fields[i].name),
{
    lemma_searched(schema, cfg);
    lemma_order(searched_names(schema, cfg), schema.fields, cfg, i, j);
}

/// Where full text search looks into more columns than the bound, the bound is passed over and all
/// columns are chosen that can be. Where it looks into just as many, so it is too, unless the first
/// of these columns is itself one that search looks into: then no other is chosen.
pub proof fn bound_is_passed_over_by_searched_columns(schema: SchemaView, cfg: SchemaConfig, i: int)
    requires
        searched_columns(schema, cfg).len() >= cfg.udschema_max_fields,
        0 <= i < schema.fields.len(),
        can_be_chosen(schema.fields[i].name, cfg),
        forall|k: int| 0 <= k < i ==> !can_be_chosen((#[trigger] schema.fields[k]).name, cfg),
    ensures
        searched_columns(schema, cfg).len() == cfg.udschema_max_fields && searched_columns(
            schema,
            cfg,
        ).contains(schema.fields[i].name) ==> chosen_names(schema, cfg) == searched_columns(
            schema,
            cfg,
        ),
        searched_columns(schema, cfg).len() > cfg.udschema_max_fields || !searched_columns(
            schema,
            cfg,
        ).contains(schema.fields[i].name) ==> forall|name: Seq<char>|
            has_column(schema, name) && can_be_chosen(name, cfg) ==> #[trigger] chosen_names(
                schema,
                cfg,
            ).contains(name),
{
    lemma_searched(schema, cfg);
    lemma_full(searched_names(schema, cfg), schema.fields, cfg, i);
    if searched_columns(schema, cfg).len() > cfg.udschema_max_fields || !searched_columns(
        schema,
        cfg,
    ).contains(schema.fields[i].name) {
        assert forall|name: Seq<char>|
            has_column(schema, name) && can_be_chosen(
                name,
                cfg,
            ) implies #[trigger] chosen_names(schema, cfg).contains(name) by {
            columns_are_found_by_name(schema, name);
            let k = choose|k: int|
                0 <= k < schema.fields.len() && (#[trigger] schema.fields[k]).name == name;
            assert(chosen_names(schema, cfg).contains(schema.fields[k].name));
        }
    }
}

/// Which columns are chosen does not depend on what is no column: neither the types, the
/// nullability nor the metadata have a part in it.
pub proof fn chosen_by_name_alone(schema: SchemaView, other: SchemaView, cfg: SchemaConfig)
    requires
        schema.fields.len() == other.fields.len(),
        forall|i: int|
            0 <= i < schema.fields.len() ==> (#[trigger] schema.fields[i]).name
                == other.fields[i].name,
    ensures
        chosen_names(schema, cfg) == chosen_names(other, cfg),
{
    assert(searched_names(schema, cfg) =~= searched_names(other, cfg)) by {
        assert forall|name: Seq<char>| has_column(schema, name) == has_column(other, name) by {
            columns_are_found_by_name(schema, name);
            columns_are_found_by_name(other, name);
            if has_column(schema, name) {
                let i = choose|i: int|
                    0 <= i < schema.fields.len() && (#[trigger] schema.fields[i]).name == name;
                assert(other.fields[i].name == name);
            }
            if has_column(other, name) {
                let i = choose|i: int|
                    0 <= i < other.fields.len() && (#[trigger] other.fields[i]).name == name;
                assert(schema.fields[i].name == name);
            }
        }
    }
    lemma_filled_by_name(searched_names(schema, cfg), schema.fields, other.fields, cfg);
}

proof fn lemma_filled_by_name(
    names: Set<Seq<char>>,
    fields: Seq<FieldView>,
    others: Seq<FieldView>,
    cfg: SchemaConfig,
)
    requires
        fields.len() == others.len(),
        forall|i: int| 0 <= i < fields.len() ==> (#[trigger] fields[i]).name == others[i].name,
    ensures
        filled(names, fields, cfg) == filled(names, others, cfg),
    decreases fields.len(),
{
    if fields.len() > 0 {
        let rest = fields.skip(1);
        let other_rest = others.skip(1);
        assert(fields[0].name == others[0].name);
        assert forall|i: int| 0 <= i < rest.len() implies (#[trigger] rest[i]).name
            == other_rest[i].name by {
            assert(fields[i + 1].name == others[i + 1].name);
        }
        lemma_filled_by_name(names, rest, other_rest, cfg);
        lemma_filled_by_name(names.insert(fields[0].name), rest, other_rest, cfg);
    }
}

proof fn lemma_searched(schema: SchemaView, cfg: SchemaConfig)
    ensures
        searched_columns(schema, cfg) == searched_names(schema, cfg),
        searched_columns(schema, cfg).finite(),
{
    let listed = texts(cfg.full_text_search_fields@);
    assert forall|name: Seq<char>| listed.contains(name) <==> exists|i: int|
        0 <= i < cfg.full_text_search_fields@.len()
            && #[trigger] cfg.full_text_search_fields@[i]@ == name by {
        if listed.contains(name) {
            let i = choose|i: int| 0 <= i < listed.len() && listed[i] == name;
            assert(cfg.full_text_search_fields@[i]@ == name);
        }
        if exists|i: int|
            0 <= i < cfg.full_text_search_fields@.len()
                && #[trigger] cfg.full_text_search_fields@[i]@ == name {
            let i = choose|i: int|
                0 <= i < cfg.full_text_search_fields@.len()
                    && #[trigger] cfg.full_text_search_fields@[i]@ == name;
            assert(listed[i] == name);
        }
    }
    assert(searched_columns(schema, cfg) =~= searched_names(schema, cfg));
    lemma_column_index(schema.fields);
    assert(searched_columns(schema, cfg).subset_of(column_index(schema.fields).dom()));
    vstd::set_lib::lemma_set_subset_finite(
        column_index(schema.fields).dom(),
        searched_columns(schema, cfg),
    );
}

proof fn lemma_more(names: Set<Seq<char>>, fields: Seq<FieldView>, cfg: SchemaConfig)
    ensures
        names.subset_of(filled(names, fields, cfg)),
    decreases fields.len(),
{
    if fields.len() > 0 {
        lemma_more(names, fields.skip(1), cfg);
        lemma_more(names.insert(fields[0].name), fields.skip(1), cfg);
    }
}

proof fn lemma_order(
    names: Set<Seq<char>>,
    fields: Seq<FieldView>,
    cfg: SchemaConfig,
    i: int,
    j: int,
)
    requires
        0 <= i < j < fields.len(),
        can_be_chosen(fields[i].name, cfg),
        filled(names, fields, cfg).contains(fields[j].name),
        !names.contains(fields[j].name),
        forall|k: int| 0 <= k < j ==> (#[trigger] fields[k]).name != fields[j].name,
    ensures
        filled(names, fields, cfg).contains(fields[i].name),
    decreases fields.len(),
{
    let rest = fields.skip(1);
    let more = if can_be_chosen(fields[0].name, cfg) {
        names.insert(fields[0].name)
    } else {
        names
    };
    assert(fields[0].name != fields[j].name);
    if i == 0 {
        lemma_more(more, rest, cfg);
    } else {
        assert(rest[i - 1] == fields[i] && rest[j - 1] == fields[j]);
        assert forall|k: int| 0 <= k < j - 1 implies (#[trigger] rest[k]).name
            != rest[j - 1].name by {
            assert(rest[k] == fields[k + 1]);
        }
        if filled(more, rest, cfg).contains(fields[j].name) {
            lemma_order(more, rest, cfg, i - 1, j - 1);
        }
    }
}

proof fn lemma_full(names: Set<Seq<char>>, fields: Seq<FieldView>, cfg: SchemaConfig, i: int)
    requires
        names.finite(),
        names.len() >= cfg.udschema_max_fields,
        0 <= i < fields.len(),
        can_be_chosen(fields[i].name, cfg),
        forall|k: int| 0 <= k < i ==> !can_be_chosen((#[trigger] fields[k]).name, cfg),
    ensures
        names.len() == cfg.udschema_max_fields && names.contains(fields[i].name) ==> filled(
            names,
            fields,
            cfg,
        ) == names,
        names.len() > cfg.udschema_max_fields || !names.contains(fields[i].name) ==> forall|k: int|
            0 <= k < fields.len() && can_be_chosen((#[trigger] fields[k]).name, cfg) ==> filled(
                names,
                fields,
                cfg,
            ).contains(fields[k].name),
    decreases fields.len(),
{
    let rest = fields.skip(1);
    if i > 0 {
        assert(rest[i - 1] == fields[i]);
        assert(!can_be_chosen(fields[0].name, cfg));
        assert forall|k: int| 0 <= k < i - 1 implies !can_be_chosen(
            (#[trigger] rest[k]).name,
            cfg,
        ) by {
            assert(rest[k] == fields[k + 1]);
        }
        lemma_full(names, rest, cfg, i - 1);
        assert forall|k: int|
            0 <= k < fields.len() && can_be_chosen((#[trigger] fields[k]).name, cfg) && (names.len()
                > cfg.udschema_max_fields || !names.contains(fields[i].name)) implies filled(
            names,
            fields,
            cfg,
        ).contains(fields[k].name) by {
            assert(rest[k - 1] == fields[k]);
        }
    } else {
        let more = names.insert(fields[0].name);
        if names.contains(fields[0].name) {
            assert(more =~= names);
        }
        if more.len() > cfg.udschema_max_fields {
            lemma_overfull(more, rest, cfg);
            lemma_more(more, rest, cfg);
            assert forall|k: int|
                0 <= k < fields.len() && can_be_chosen(
                    (#[trigger] fields[k]).name,
                    cfg,
                ) implies filled(names, fields, cfg).contains(fields[k].name) by {
                if k > 0 {
                    assert(rest[k - 1] == fields[k]);
                }
            }
        }
    }
}

proof fn lemma_overfull(names: Set<Seq<char>>, fields: Seq<FieldView>, cfg: SchemaConfig)
    requires
        names.finite(),
        names.len() > cfg.udschema_max_fields,
    ensures
        forall|k: int|
            0 <= k < fields.len() && can_be_chosen((#[trigger] fields[k]).name, cfg) ==> filled(
                names,
                fields,
                cfg,
            ).contains(fields[k].name),
    decreases fields.len(),
{
    if fields.len() > 0 {
        let rest = fields.skip(1);
        let more = if can_be_chosen(fields[0].name, cfg) {
            names.insert(fields[0].name)
        } else {
            names
        };
        lemma_overfull(more, rest, cfg);
        lemma_more(more, rest, cfg);
        assert forall|k: int|
            0 <= k < fields.len() && can_be_chosen((#[trigger] fields[k]).name, cfg) implies filled(
            names,
            fields,
            cfg,
        ).contains(fields[k].name) by {
            if k > 0 {
                assert(rest[k - 1] == fields[k]);
            }
        }
    }
}

} // verus!
