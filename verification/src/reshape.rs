//! The response reshaper: maps the target protocol's nested row-set result
//! back into the legacy response shape.
//!
//! The reshaping is total. Its mathematical statement lives in the
//! `Spec`-model types and the `spec_*` functions; the executable functions
//! are proved to produce exactly those values.

use vstd::prelude::*;

use crate::api;
use crate::target;

verus! {
/// The mathematical shape of a built JSON value: opaque scalar leaves under
/// object and array structure.
pub enum SpecJson {
    Scalar(serde_json::Value),
    Array(Seq<SpecJson>),
    Object(Seq<(Seq<char>, SpecJson)>),
}

/// The mathematical value of a built JSON value.
pub open spec fn json_model(v: api::JsonValue) -> SpecJson
    decreases v,
{
    match v {
        api::JsonValue::Scalar(s) => SpecJson::Scalar(s),
        api::JsonValue::Array(items) => SpecJson::Array(json_seq_model(items@)),
        api::JsonValue::Object(entries) => SpecJson::Object(json_entries_model(entries@)),
    }
}

/// The mathematical values of a list of built JSON values, in order.
pub open spec fn json_seq_model(s: Seq<api::JsonValue>) -> Seq<SpecJson>
    decreases s,
{
    if s.len() == 0 {
        Seq::empty()
    } else {
        seq![json_model(s[0])] + json_seq_model(s.drop_first())
    }
}

/// The mathematical values of the entries of a built JSON object, in order.
pub open spec fn json_entries_model(s: Seq<(String, api::JsonValue)>) -> Seq<
    (Seq<char>, SpecJson),
>
    decreases s,
{
    if s.len() == 0 {
        Seq::empty()
    } else {
        seq![(s[0].0@, json_model(s[0].1))] + json_entries_model(s.drop_first())
    }
}

/// The mathematical value of one legacy response row column.
pub open spec fn row_field_model(v: Option<api::RowFieldValue>) -> Option<SpecJson> {
    match v {
        Some(api::RowFieldValue::ColumnFieldValue(jv)) => Some(json_model(jv)),
        None => None,
    }
}

/// The mathematical value of one legacy response row, in column order.
pub open spec fn legacy_row_model(row: Seq<(String, Option<api::RowFieldValue>)>) -> Seq<
    (Seq<char>, Option<SpecJson>),
>
    decreases row,
{
    if row.len() == 0 {
        Seq::empty()
    } else {
        seq![(row[0].0@, row_field_model(row[0].1))] + legacy_row_model(row.drop_first())
    }
}

/// The mathematical values of the legacy response rows, in order.
pub open spec fn legacy_rows_model(rows: Seq<api::ResponseRow>) -> Seq<
    Seq<(Seq<char>, Option<SpecJson>)>,
>
    decreases rows,
{
    if rows.len() == 0 {
        Seq::empty()
    } else {
        seq![legacy_row_model(rows[0]@)] + legacy_rows_model(rows.drop_first())
    }
}

/// The mathematical values of a name-to-scalar map, names as character
/// sequences.
pub open spec fn spec_aggregates_model(aggs: Seq<(String, serde_json::Value)>) -> Seq<
    (Seq<char>, serde_json::Value),
> {
    aggs.map_values(|p: (String, serde_json::Value)| (p.0@, p.1))
}

/// The mathematical shape of a legacy response.
pub struct SpecQueryResponse {
    pub aggregates: Option<Seq<(Seq<char>, serde_json::Value)>>,
    pub rows: Option<Seq<Seq<(Seq<char>, Option<SpecJson>)>>>,
}

/// The mathematical value of a legacy response.
pub open spec fn response_model(r: api::QueryResponse) -> SpecQueryResponse {
    SpecQueryResponse {
        aggregates: match r.aggregates {
            Some(aggs) => Some(spec_aggregates_model(aggs@)),
            None => None,
        },
        rows: match r.rows {
            Some(rows) => Some(legacy_rows_model(rows@)),
            None => None,
        },
    }
}

/// The flattening of one downstream row column: a nested row set becomes
/// its recursive JSON serialization, a scalar passes through.
pub open spec fn spec_flat_value(v: target::RowFieldValue) -> SpecJson
    decreases v,
{
    match v {
        target::RowFieldValue::Relationship { rows } => spec_row_set_as_json(rows),
        target::RowFieldValue::Column { value } => SpecJson::Scalar(value),
    }
}

/// The flattening of one downstream row into JSON object entries, in column
/// order.
pub open spec fn spec_flat_row(row: Seq<(String, target::RowFieldValue)>) -> Seq<
    (Seq<char>, SpecJson),
>
    decreases row,
{
    if row.len() == 0 {
        Seq::empty()
    } else {
        seq![(row[0].0@, spec_flat_value(row[0].1))] + spec_flat_row(row.drop_first())
    }
}

/// The downstream rows each flattened to a JSON object, in order.
pub open spec fn spec_rows_json(rows: Seq<target::Row>) -> Seq<SpecJson>
    decreases rows,
{
    if rows.len() == 0 {
        Seq::empty()
    } else {
        seq![SpecJson::Object(spec_flat_row(rows[0]@))] + spec_rows_json(rows.drop_first())
    }
}

/// A name-to-scalar aggregates map as JSON object entries.
pub open spec fn spec_aggregates_json(aggs: Seq<(String, serde_json::Value)>) -> Seq<
    (Seq<char>, SpecJson),
> {
    aggs.map_values(|p: (String, serde_json::Value)| (p.0@, SpecJson::Scalar(p.1)))
}

/// The recursive serialization of one row set: an object with at most the
/// two keys `aggregates` (present exactly when the row set has aggregates)
/// and `rows` (present exactly when it has rows), in that order, with each
/// row flattened by [`spec_flat_row`].
pub open spec fn spec_row_set_as_json(rs: target::RowSet) -> SpecJson
    decreases rs,
{
    let aggregate_entries = match rs.aggregates {
        Some(aggs) => seq![("aggregates"@, SpecJson::Object(spec_aggregates_json(aggs@)))],
        None => Seq::empty(),
    };
    let row_entries = match rs.rows {
        Some(rows) => seq![("rows"@, SpecJson::Array(spec_rows_json(rows@)))],
        None => Seq::empty(),
    };
    SpecJson::Object(aggregate_entries + row_entries)
}

/// The flattening of one downstream row into a legacy response row: every
/// column value is present and wrapped as a column field value.
pub open spec fn spec_flat_row_legacy(row: Seq<(String, target::RowFieldValue)>) -> Seq<
    (Seq<char>, Option<SpecJson>),
>
    decreases row,
{
    if row.len() == 0 {
        Seq::empty()
    } else {
        seq![(row[0].0@, Some(spec_flat_value(row[0].1)))] + spec_flat_row_legacy(row.drop_first())
    }
}

/// The downstream rows each flattened to a legacy response row, in order.
pub open spec fn spec_legacy_rows(rows: Seq<target::Row>) -> Seq<
    Seq<(Seq<char>, Option<SpecJson>)>,
>
    decreases rows,
{
    if rows.len() == 0 {
        Seq::empty()
    } else {
        seq![spec_flat_row_legacy(rows[0]@)] + spec_legacy_rows(rows.drop_first())
    }
}

/// The batched reshaping of the downstream row sets: one output row per row
/// set, in order, each with exactly one column, named `query`, holding the
/// row set's recursive serialization.
pub open spec fn spec_foreach_rows(sets: Seq<target::RowSet>) -> Seq<
    Seq<(Seq<char>, Option<SpecJson>)>,
>
    decreases sets,
{
    if sets.len() == 0 {
        Seq::empty()
    } else {
        seq![seq![("query"@, Some(spec_row_set_as_json(sets[0])))]] + spec_foreach_rows(
            sets.drop_first(),
        )
    }
}

/// The reshaping of the whole downstream response. Batched: one wrapper row
/// per row set, no aggregates. Non-batched: absent aggregates and rows when
/// no row set came back, else the first row set's aggregates passed through
/// and its rows flattened column by column.
pub open spec fn spec_map_response(
    response: target::QueryResponse,
    is_foreach: bool,
) -> SpecQueryResponse {
    if is_foreach {
        SpecQueryResponse { aggregates: None, rows: Some(spec_foreach_rows(response.0@)) }
    } else if response.0@.len() == 0 {
        SpecQueryResponse { aggregates: None, rows: None }
    } else {
        let rs = response.0@[0];
        SpecQueryResponse {
            aggregates: match rs.aggregates {
                Some(aggs) => Some(spec_aggregates_model(aggs@)),
                None => None,
            },
            rows: match rs.rows {
                Some(rows) => Some(spec_legacy_rows(rows@)),
                None => None,
            },
        }
    }
}

/// Wraps a name-to-scalar aggregates map as JSON object entries.
fn map_aggregates_json(aggregates: Vec<(String, serde_json::Value)>) -> (r: Vec<
    (String, api::JsonValue),
>)
    ensures
        json_entries_model(r@) == spec_aggregates_json(aggregates@),
    decreases aggregates@.len(),
{
    let ghost orig = aggregates@;
    if aggregates.len() == 0 {
        let r: Vec<(String, api::JsonValue)> = Vec::new();
        proof {
            assert(json_entries_model(r@) =~= spec_aggregates_json(orig));
        }
        r
    } else {
        let mut aggregates = aggregates;
        let (name, value) = aggregates.remove(0);
        proof {
            assert(aggregates@ =~= orig.drop_first());
            assert((name, value) == orig[0]);
        }
        let mut rest = map_aggregates_json(aggregates);
        let ghost rest_view = rest@;
        let mut out: Vec<(String, api::JsonValue)> = Vec::new();
        out.push((name, api::JsonValue::Scalar(value)));
        out.append(&mut rest);
        proof {
            assert(out@.drop_first() =~= rest_view);
            assert(out@[0] == (name, api::JsonValue::Scalar(value)));
            assert(json_model(api::JsonValue::Scalar(value)) == SpecJson::Scalar(value));
            assert(json_entries_model(out@) == seq![(name@, SpecJson::Scalar(value))]
                + json_entries_model(rest_view));
            assert(spec_aggregates_json(orig)[0] == (name@, SpecJson::Scalar(value)));
            assert forall|i: int| 1 <= i < orig.len() implies spec_aggregates_json(orig)[i]
                == spec_aggregates_json(orig.drop_first())[i - 1] by {
                assert(orig.drop_first()[i - 1] == orig[i]);
            }
            assert(json_entries_model(out@) =~= spec_aggregates_json(orig));
        }
        out
    }
}

/// Flattens one downstream row column: a nested row set becomes its
/// recursive JSON serialization, a scalar passes through.
fn flat_value_json(v: target::RowFieldValue) -> (r: api::JsonValue)
    ensures
        json_model(r) == spec_flat_value(v),
    decreases v,
{
    match v {
        target::RowFieldValue::Relationship { rows } => row_set_as_json(rows),
        target::RowFieldValue::Column { value } => api::JsonValue::Scalar(value),
    }
}

/// Flattens one downstream row into JSON object entries.
fn flat_row_json(row: target::Row) -> (r: Vec<(String, api::JsonValue)>)
    ensures
        json_entries_model(r@) == spec_flat_row(row@),
    decreases row@,
{
    let ghost orig = row@;
    if row.len() == 0 {
        let r: Vec<(String, api::JsonValue)> = Vec::new();
        proof {
            assert(json_entries_model(r@) =~= spec_flat_row(orig));
        }
        r
    } else {
        let mut row = row;
        let (name, value) = row.remove(0);
        proof {
            assert(row@ =~= orig.drop_first());
            assert((name, value) == orig[0]);
        }
        let jv = flat_value_json(value);
        let mut rest = flat_row_json(row);
        let ghost rest_view = rest@;
        let mut out: Vec<(String, api::JsonValue)> = Vec::new();
        out.push((name, jv));
        out.append(&mut rest);
        proof {
            assert(out@.drop_first() =~= rest_view);
            assert(json_entries_model(out@) =~= spec_flat_row(orig));
        }
        out
    }
}

/// Flattens each downstream row to a JSON object.
fn rows_to_json(rows: Vec<target::Row>) -> (r: Vec<api::JsonValue>)
    ensures
        json_seq_model(r@) == spec_rows_json(rows@),
    decreases rows@,
{
    let ghost orig = rows@;
    if rows.len() == 0 {
        let r: Vec<api::JsonValue> = Vec::new();
        proof {
            assert(json_seq_model(r@) =~= spec_rows_json(orig));
        }
        r
    } else {
        let mut rows = rows;
        let hd = rows.remove(0);
        proof {
            assert(rows@ =~= orig.drop_first());
            assert(hd == orig[0]);
        }
        let obj = flat_row_json(hd);
        let hd_json = api::JsonValue::Object(obj);
        proof {
            assert(json_model(hd_json) == SpecJson::Object(spec_flat_row(orig[0]@)));
        }
        let mut rest = rows_to_json(rows);
        let ghost rest_view = rest@;
        let mut out: Vec<api::JsonValue> = Vec::new();
        out.push(hd_json);
        out.append(&mut rest);
        proof {
            assert(out@.drop_first() =~= rest_view);
            assert(out@[0] == hd_json);
            assert(json_seq_model(out@) == seq![json_model(hd_json)] + json_seq_model(rest_view));
            assert(json_seq_model(out@) =~= spec_rows_json(orig));
        }
        out
    }
}

/// Serializes one downstream row set to a single JSON value: an object
/// holding its aggregates under `aggregates` and its flattened rows under
/// `rows`, each key present only when the row set has that part.
pub fn row_set_as_json(row: target::RowSet) -> (r: api::JsonValue)
    ensures
        json_model(r) == spec_row_set_as_json(row),
    decreases row,
{
    let target::RowSet { aggregates, rows } = row;
    let mut entries: Vec<(String, api::JsonValue)> = Vec::new();
    match aggregates {
        Some(aggs) => {
            let obj = map_aggregates_json(aggs);
            entries.push(("aggregates".to_owned(), api::JsonValue::Object(obj)));
        },
        None => {},
    }
    match rows {
        Some(rows_vec) => {
            let arr = rows_to_json(rows_vec);
            entries.push(("rows".to_owned(), api::JsonValue::Array(arr)));
        },
        None => {},
    }
    proof {
        reveal_with_fuel(json_entries_model, 3);
        assert(json_entries_model(entries@) =~= match spec_row_set_as_json(row) {
            SpecJson::Object(s) => s,
            _ => Seq::empty(),
        });
    }
    api::JsonValue::Object(entries)
}

/// Flattens one downstream row into a legacy response row.
fn flat_row_legacy(row: target::Row) -> (r: api::ResponseRow)
    ensures
        legacy_row_model(r@) == spec_flat_row_legacy(row@),
    decreases row@,
{
    let ghost orig = row@;
    if row.len() == 0 {
        let r: api::ResponseRow = Vec::new();
        proof {
            assert(legacy_row_model(r@) =~= spec_flat_row_legacy(orig));
        }
        r
    } else {
        let mut row = row;
        let (name, value) = row.remove(0);
        proof {
            assert(row@ =~= orig.drop_first());
            assert((name, value) == orig[0]);
        }
        let jv = flat_value_json(value);
        let mut rest = flat_row_legacy(row);
        let ghost rest_view = rest@;
        let mut out: api::ResponseRow = Vec::new();
        out.push((name, Some(api::RowFieldValue::ColumnFieldValue(jv))));
        out.append(&mut rest);
        proof {
            assert(out@.drop_first() =~= rest_view);
            assert(legacy_row_model(out@) =~= spec_flat_row_legacy(orig));
        }
        out
    }
}

/// Flattens each downstream row to a legacy response row.
fn map_legacy_rows(rows: Vec<target::Row>) -> (r: Vec<api::ResponseRow>)
    ensures
        legacy_rows_model(r@) == spec_legacy_rows(rows@),
    decreases rows@,
{
    let ghost orig = rows@;
    if rows.len() == 0 {
        let r: Vec<api::ResponseRow> = Vec::new();
        proof {
            assert(legacy_rows_model(r@) =~= spec_legacy_rows(orig));
        }
        r
    } else {
        let mut rows = rows;
        let hd = rows.remove(0);
        proof {
            assert(rows@ =~= orig.drop_first());
            assert(hd == orig[0]);
        }
        let hd_row = flat_row_legacy(hd);
        let mut rest = map_legacy_rows(rows);
        let ghost rest_view = rest@;
        let mut out: Vec<api::ResponseRow> = Vec::new();
        out.push(hd_row);
        out.append(&mut rest);
        proof {
            assert(out@.drop_first() =~= rest_view);
            assert(legacy_rows_model(out@) =~= spec_legacy_rows(orig));
        }
        out
    }
}

/// Builds the batched output rows: one wrapper row per downstream row set,
/// each with the single column `query`.
fn map_foreach_rows(sets: Vec<target::RowSet>) -> (r: Vec<api::ResponseRow>)
    ensures
        legacy_rows_model(r@) == spec_foreach_rows(sets@),
    decreases sets@,
{
    let ghost orig = sets@;
    if sets.len() == 0 {
        let r: Vec<api::ResponseRow> = Vec::new();
        proof {
            assert(legacy_rows_model(r@) =~= spec_foreach_rows(orig));
        }
        r
    } else {
        let mut sets = sets;
        let hd = sets.remove(0);
        proof {
            assert(sets@ =~= orig.drop_first());
            assert(hd == orig[0]);
        }
        let value = row_set_as_json(hd);
        let mut hd_row: api::ResponseRow = Vec::new();
        hd_row.push(("query".to_owned(), Some(api::RowFieldValue::ColumnFieldValue(value))));
        proof {
            reveal_with_fuel(legacy_row_model, 2);
            assert(hd_row@.drop_first() =~= Seq::<
                (String, Option<api::RowFieldValue>),
            >::empty());
            assert(legacy_row_model(hd_row@) =~= seq![
                ("query"@, Some(spec_row_set_as_json(orig[0]))),
            ]);
        }
        let mut rest = map_foreach_rows(sets);
        let ghost rest_view = rest@;
        let mut out: Vec<api::ResponseRow> = Vec::new();
        out.push(hd_row);
        out.append(&mut rest);
        proof {
            assert(out@.drop_first() =~= rest_view);
            assert(legacy_rows_model(out@) =~= spec_foreach_rows(orig));
        }
        out
    }
}

/// Reshapes the whole downstream response into the legacy response shape,
/// batched or not as the originating request was.
pub fn map_response(response: target::QueryResponse, is_foreach: bool) -> (r: api::QueryResponse)
    ensures
        response_model(r) == spec_map_response(response, is_foreach),
{
    let target::QueryResponse(sets) = response;
    if is_foreach {
        let rows = map_foreach_rows(sets);
        api::QueryResponse { aggregates: None, rows: Some(rows) }
    } else {
        if sets.len() == 0 {
            api::QueryResponse { aggregates: None, rows: None }
        } else {
            let mut sets = sets;
            let first = sets.remove(0);
            proof {
                assert(first == response.0@[0]);
            }
            let target::RowSet { aggregates, rows } = first;
            let out_rows = match rows {
                Some(rows_vec) => Some(map_legacy_rows(rows_vec)),
                None => None,
            };
            api::QueryResponse { aggregates, rows: out_rows }
        }
    }
}

} // verus!
