//! Laws of the translation engine and the response reshaper, each stated
//! over the spec-level relations and models and proved once and for all.

use vstd::prelude::*;

use crate::api;
use crate::target;
use crate::reshape::{
    spec_foreach_rows, spec_map_response, spec_flat_value, spec_row_set_as_json, SpecJson,
};
use crate::translate::{
    is_order_by_path_np_map,
    comparison_column_err, expression_err, field_err, fields_err, is_column_path_map, is_field_map,
    is_fields_map, is_order_by_path_map, is_query_map, is_request_map, lookup, qualified, query_err,
    spec_target_table,
};
use crate::SpecError;

verus! {

/// The table context reached after the first `i` hops of a relationship
/// path walked from `table`: the root context for `i = 0`, and after that
/// each hop's resolved target table (an unresolvable hop leaves the context
/// unchanged; the laws below only speak of paths whose hops resolve).
pub open spec fn table_at(
    path: Seq<String>,
    table: Seq<char>,
    rels: Seq<api::TableRelationships>,
    i: int,
) -> Seq<char>
    decreases i,
{
    if i <= 0 {
        table
    } else {
        match spec_target_table(rels, table_at(path, table, rels, i - 1), path[i - 1]@) {
            Ok(t) => t,
            Err(_) => table_at(path, table, rels, i - 1),
        }
    }
}

/// The table context a path ends at.
pub open spec fn path_end(
    path: Seq<String>,
    table: Seq<char>,
    rels: Seq<api::TableRelationships>,
) -> Seq<char> {
    table_at(path, table, rels, path.len() as int)
}

/// Walking one hop first and then counting contexts is the same as
/// counting contexts one later on the whole path.
proof fn lemma_table_at_shift(
    path: Seq<String>,
    table: Seq<char>,
    rels: Seq<api::TableRelationships>,
    t1: Seq<char>,
    i: int,
)
    requires
        path.len() > 0,
        spec_target_table(rels, table, path[0]@) == Ok::<Seq<char>, SpecError>(t1),
        0 <= i <= path.len() - 1,
    ensures
        table_at(path, table, rels, i + 1) == table_at(path.drop_first(), t1, rels, i),
    decreases i,
{
    if i == 0 {
        assert(table_at(path, table, rels, 0) == table);
        assert(table_at(path.drop_first(), t1, rels, 0) == t1);
        assert(table_at(path, table, rels, 1) == t1);
    } else {
        lemma_table_at_shift(path, table, rels, t1, i - 1);
        assert(path.drop_first()[i - 1] == path[i]);
        assert(table_at(path, table, rels, i + 1) == match spec_target_table(
            rels,
            table_at(path, table, rels, i),
            path[i]@,
        ) {
            Ok(t) => t,
            Err(_) => table_at(path, table, rels, i),
        });
        assert(table_at(path.drop_first(), t1, rels, i) == match spec_target_table(
            rels,
            table_at(path.drop_first(), t1, rels, i - 1),
            path.drop_first()[i - 1]@,
        ) {
            Ok(t) => t,
            Err(_) => table_at(path.drop_first(), t1, rels, i - 1),
        });
    }
}

/// Column-path resolution is context-sensitive and composes: the
/// resolution of a concatenated path `p1 + p2` from a table context is the
/// resolution of `p1` from that context followed by the resolution of `p2`
/// from the table `p1` ends at.
pub proof fn lemma_column_path_composes(
    p1: Seq<String>,
    p2: Seq<String>,
    table: Seq<char>,
    rels: Seq<api::TableRelationships>,
    out1: Seq<target::PathElement>,
    out2: Seq<target::PathElement>,
)
    requires
        is_column_path_map(p1, table, rels, out1),
        is_column_path_map(p2, path_end(p1, table, rels), rels, out2),
    ensures
        is_column_path_map(p1 + p2, table, rels, out1 + out2),
    decreases p1.len(),
{
    if p1.len() == 0 {
        assert(path_end(p1, table, rels) == table);
        assert(p1 + p2 =~= p2);
        assert(out1 + out2 =~= out2);
    } else {
        let t1 = spec_target_table(rels, table, p1[0]@)->Ok_0;
        lemma_table_at_shift(p1, table, rels, t1, p1.len() - 1);
        assert(path_end(p1, table, rels) == path_end(p1.drop_first(), t1, rels));
        lemma_column_path_composes(
            p1.drop_first(),
            p2,
            t1,
            rels,
            out1.drop_first(),
            out2,
        );
        assert((p1 + p2)[0] == p1[0]);
        assert((out1 + out2)[0] == out1[0]);
        assert((p1 + p2).drop_first() =~= p1.drop_first() + p2);
        assert((out1 + out2).drop_first() =~= out1.drop_first() + out2);
    }
}

/// For an order-by path of length N through N resolvable declared
/// relationships, the translated path also has length N; its element `i` is
/// named `"<table_i>.<segment_i>"`, where `table_0` is the query root
/// context and `table_{i+1}` is the declared target of `segment_i` from
/// `table_i`.
pub proof fn lemma_order_by_path_shape(
    path: Seq<String>,
    relations: Seq<(String, api::OrderByRelation)>,
    table: Seq<char>,
    rels: Seq<api::TableRelationships>,
    out: Seq<target::PathElementWithPredicate>,
)
    requires
        is_order_by_path_map(path, relations, table, rels, out),
    ensures
        out.len() == path.len(),
        forall|i: int|
            0 <= i < path.len() ==> #[trigger] spec_target_table(
                rels,
                table_at(path, table, rels, i),
                path[i]@,
            ) is Ok,
        forall|i: int|
            0 <= i < path.len() ==> (#[trigger] out[i]).relationship@ == qualified(
                table_at(path, table, rels, i),
                path[i]@,
            ),
        forall|i: int|
            0 <= i < path.len() ==> table_at(path, table, rels, i + 1) == #[trigger] spec_target_table(
                rels,
                table_at(path, table, rels, i),
                path[i]@,
            )->Ok_0,
    decreases path.len(),
{
    if path.len() > 0 {
        let relation = lookup(relations, path[0]@)->Some_0;
        let t1 = spec_target_table(rels, table, path[0]@)->Ok_0;
        lemma_order_by_path_shape(
            path.drop_first(),
            relation.subrelations@,
            t1,
            rels,
            out.drop_first(),
        );
        assert forall|i: int| 0 < i < path.len() implies {
            &&& table_at(path, table, rels, i) == table_at(path.drop_first(), t1, rels, i - 1)
            &&& path.drop_first()[i - 1] == path[i]
            &&& out.drop_first()[i - 1] == out[i]
        } by {
            lemma_table_at_shift(path, table, rels, t1, i - 1);
        }
        assert forall|i: int| 0 <= i < path.len() implies table_at(path, table, rels, i + 1)
            == #[trigger] spec_target_table(
            rels,
            table_at(path, table, rels, i),
            path[i]@,
        )->Ok_0 by {
            lemma_table_at_shift(path, table, rels, t1, i);
        }
    }
}

/// The same shape law for the without-predicate mode of the order-by walk:
/// the hop-by-hop table resolution is identical, only the predicates are
/// omitted.
pub proof fn lemma_order_by_path_np_shape(
    path: Seq<String>,
    relations: Seq<(String, api::OrderByRelation)>,
    table: Seq<char>,
    rels: Seq<api::TableRelationships>,
    out: Seq<target::PathElement>,
)
    requires
        is_order_by_path_np_map(path, relations, table, rels, out),
    ensures
        out.len() == path.len(),
        forall|i: int|
            0 <= i < path.len() ==> #[trigger] spec_target_table(
                rels,
                table_at(path, table, rels, i),
                path[i]@,
            ) is Ok,
        forall|i: int|
            0 <= i < path.len() ==> (#[trigger] out[i]).relationship@ == qualified(
                table_at(path, table, rels, i),
                path[i]@,
            ),
        forall|i: int|
            0 <= i < path.len() ==> table_at(path, table, rels, i + 1) == #[trigger] spec_target_table(
                rels,
                table_at(path, table, rels, i),
                path[i]@,
            )->Ok_0,
    decreases path.len(),
{
    if path.len() > 0 {
        let relation = lookup(relations, path[0]@)->Some_0;
        let t1 = spec_target_table(rels, table, path[0]@)->Ok_0;
        lemma_order_by_path_np_shape(
            path.drop_first(),
            relation.subrelations@,
            t1,
            rels,
            out.drop_first(),
        );
        assert forall|i: int| 0 < i < path.len() implies {
            &&& table_at(path, table, rels, i) == table_at(path.drop_first(), t1, rels, i - 1)
            &&& path.drop_first()[i - 1] == path[i]
            &&& out.drop_first()[i - 1] == out[i]
        } by {
            lemma_table_at_shift(path, table, rels, t1, i - 1);
        }
        assert forall|i: int| 0 <= i < path.len() implies table_at(path, table, rels, i + 1)
            == #[trigger] spec_target_table(
            rels,
            table_at(path, table, rels, i),
            path[i]@,
        )->Ok_0 by {
            lemma_table_at_shift(path, table, rels, t1, i);
        }
    }
}

/// Pointwise reading of a successful fields translation: the aliases carry
/// over in order and each field maps by the field relation.
proof fn lemma_fields_map_pointwise(
    s: Seq<(String, api::Field)>,
    table: Seq<char>,
    rels: Seq<api::TableRelationships>,
    outs: Seq<(String, target::Field)>,
)
    requires
        is_fields_map(s, table, rels, outs),
    ensures
        outs.len() == s.len(),
        forall|i: int|
            0 <= i < s.len() ==> (#[trigger] outs[i]).0@ == s[i].0@ && is_field_map(
                s[i].1,
                table,
                rels,
                outs[i].1,
            ),
    decreases s,
{
    if s.len() > 0 {
        lemma_fields_map_pointwise(s.drop_first(), table, rels, outs.drop_first());
        assert forall|i: int| 0 < i < s.len() implies {
            &&& s.drop_first()[i - 1] == s[i]
            &&& outs.drop_first()[i - 1] == outs[i]
        } by {}
    }
}

/// A list of fields none of which fails translates without error.
proof fn lemma_fields_err_none(
    s: Seq<(String, api::Field)>,
    table: Seq<char>,
    rels: Seq<api::TableRelationships>,
)
    requires
        forall|i: int| 0 <= i < s.len() ==> #[trigger] field_err(s[i].1, table, rels) is None,
    ensures
        fields_err(s, table, rels) is None,
    decreases s,
{
    if s.len() > 0 {
        assert(field_err(s[0].1, table, rels) is None);
        assert forall|i: int|
            0 <= i < s.drop_first().len() implies #[trigger] field_err(
            s.drop_first()[i].1,
            table,
            rels,
        ) is None by {
            assert(s.drop_first()[i] == s[i + 1]);
            assert(field_err(s[i + 1].1, table, rels) is None);
        }
        lemma_fields_err_none(s.drop_first(), table, rels);
    }
}

/// A query with no aggregates, no ordering, no predicate, and only plain
/// column fields translates without error, and any translation of it has
/// absent aggregates and predicate and exactly the given fields, each an
/// argument-free column of the same name under the same alias.
pub proof fn lemma_plain_fields_query(
    query: api::Query,
    table: Seq<char>,
    rels: Seq<api::TableRelationships>,
    out: target::Query,
)
    requires
        query.aggregates is None,
        query.order_by is None,
        query.selection is None,
        query.fields is Some,
        forall|i: int|
            0 <= i < query.fields->0@.len() ==> (#[trigger] query.fields->0@[i]).1 is Column,
        is_query_map(query, table, rels, out),
    ensures
        query_err(query, table, rels) is None,
        out.aggregates is None,
        out.predicate is None,
        out.fields is Some,
        out.fields->0@.len() == query.fields->0@.len(),
        forall|i: int|
            0 <= i < query.fields->0@.len() ==> {
                let (alias, field) = query.fields->0@[i];
                let (out_alias, out_field) = #[trigger] out.fields->0@[i];
                &&& out_alias@ == alias@
                &&& match (field, out_field) {
                    (
                        api::Field::Column { column, column_type },
                        target::Field::Column { column: out_column, arguments },
                    ) => out_column@ == column@ && arguments@.len() == 0,
                    _ => false,
                }
            },
{
    let fs = query.fields->0@;
    assert forall|i: int| 0 <= i < fs.len() implies #[trigger] field_err(
        fs[i].1,
        table,
        rels,
    ) is None by {
        assert(fs[i].1 is Column);
    }
    lemma_fields_err_none(fs, table, rels);
    let ofs = out.fields->0@;
    lemma_fields_map_pointwise(fs, table, rels, ofs);
}

/// Pointwise reading of the batched reshaping: one output row per
/// downstream row set, in order, each exactly the single `query` column
/// holding the row set's recursive serialization.
proof fn lemma_foreach_rows_pointwise(sets: Seq<target::RowSet>)
    ensures
        spec_foreach_rows(sets).len() == sets.len(),
        forall|i: int|
            0 <= i < sets.len() ==> spec_foreach_rows(sets)[i] == seq![
                ("query"@, Some(spec_row_set_as_json(#[trigger] sets[i]))),
            ],
    decreases sets,
{
    if sets.len() > 0 {
        lemma_foreach_rows_pointwise(sets.drop_first());
        assert forall|i: int| 0 < i < sets.len() implies {
            &&& sets.drop_first()[i - 1] == sets[i]
            &&& spec_foreach_rows(sets)[i] == spec_foreach_rows(sets.drop_first())[i - 1]
        } by {}
    }
}

/// Batched execution: for an input batch answered with K row sets, the
/// reshaped response has no aggregates and exactly K rows, in downstream
/// order, each with exactly one column, named `query`, holding the
/// corresponding row set's recursive serialization.
pub proof fn lemma_batched_reshape(response: target::QueryResponse)
    ensures
        spec_map_response(response, true).aggregates is None,
        spec_map_response(response, true).rows is Some,
        spec_map_response(response, true).rows->0.len() == response.0@.len(),
        forall|i: int|
            0 <= i < response.0@.len() ==> spec_map_response(response, true).rows->0[i] == seq![
                ("query"@, Some(spec_row_set_as_json(#[trigger] response.0@[i]))),
            ],
{
    lemma_foreach_rows_pointwise(response.0@);
}

/// Non-batched execution with zero returned row sets reshapes to a
/// response with both aggregates and rows absent.
pub proof fn lemma_empty_response_reshape(response: target::QueryResponse)
    requires
        response.0@.len() == 0,
    ensures
        spec_map_response(response, false).aggregates is None,
        spec_map_response(response, false).rows is None,
{
}

/// A batched request keeps its batch size: the translated request carries
/// exactly one variable set per input batch element, in order.
pub proof fn lemma_batch_size_kept(request: api::QueryRequest, out: target::QueryRequest)
    requires
        request.foreach is Some,
        is_request_map(request, out),
    ensures
        out.variables is Some,
        out.variables->0@.len() == request.foreach->0@.len(),
{
}

/// The recursive serialization of a row set is always an object with at
/// most the two keys `aggregates` and `rows`, and nothing else: the
/// `aggregates` key is present exactly when the row set has aggregates,
/// the `rows` key exactly when it has rows.
pub proof fn lemma_row_set_json_shape(rs: target::RowSet)
    ensures
        match spec_row_set_as_json(rs) {
            SpecJson::Object(entries) => {
                &&& entries.len() <= 2
                &&& forall|i: int|
                    0 <= i < entries.len() ==> (#[trigger] entries[i]).0 == "aggregates"@
                        || entries[i].0 == "rows"@
                &&& (rs.aggregates is Some <==> exists|i: int|
                    0 <= i < entries.len() && (#[trigger] entries[i]).0 == "aggregates"@)
                &&& (rs.rows is Some <==> exists|i: int|
                    0 <= i < entries.len() && (#[trigger] entries[i]).0 == "rows"@)
            },
            _ => false,
        },
{
    reveal_strlit("aggregates");
    reveal_strlit("rows");
    match spec_row_set_as_json(rs) {
        SpecJson::Object(entries) => {
            if rs.aggregates is Some {
                assert(entries[0].0 == "aggregates"@);
            }
            if rs.rows is Some {
                assert(entries[entries.len() - 1].0 == "rows"@);
            }
        },
        _ => {},
    }
}

/// A relationship-valued column of a downstream row is flattened to the
/// recursive serialization of its nested row set: an object carrying only
/// the keys `aggregates` and/or `rows`, never a raw array or a typed
/// relationship marker.
pub proof fn lemma_relationship_column_shape(v: target::RowFieldValue)
    requires
        v is Relationship,
    ensures
        match spec_flat_value(v) {
            SpecJson::Object(entries) => entries.len() <= 2 && forall|i: int|
                0 <= i < entries.len() ==> (#[trigger] entries[i]).0 == "aggregates"@
                    || entries[i].0 == "rows"@,
            _ => false,
        },
{
    lemma_row_set_json_shape(v->rows);
}

/// An unsupported unary comparison operator (anything but `is_null`) on a
/// resolvable column is rejected deterministically with the structured
/// invalid-request error naming that operator.
pub proof fn lemma_unsupported_unary_rejected(
    column: api::ComparisonColumn,
    operator: String,
    table: Seq<char>,
    rels: Seq<api::TableRelationships>,
)
    requires
        operator@ != "is_null"@,
        comparison_column_err(column, table, rels) is None,
    ensures
        expression_err(
            api::Expression::UnaryComparisonOperator { column, operator },
            table,
            rels,
        ) == Some(SpecError::UnsupportedUnaryOperator(operator@)),
{
}

} // verus!
