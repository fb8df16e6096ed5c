use query_proxy::api::{JsonValue, RowFieldValue};
use query_proxy::reshape::{map_response, row_set_as_json};
use query_proxy::target::{QueryResponse, RowFieldValue as TargetRowFieldValue, RowSet};

fn s(x: &str) -> String {
    x.to_string()
}

fn jstr(x: &str) -> serde_json::Value {
    serde_json::Value::String(x.to_string())
}

fn jnum(x: u64) -> serde_json::Value {
    serde_json::Value::Number(serde_json::Number::from(x))
}

#[test]
fn empty_non_batched_response_is_all_absent() {
    let out = map_response(QueryResponse(vec![]), false);
    assert_eq!(out.aggregates, None);
    assert_eq!(out.rows, None);
}

#[test]
fn non_batched_scalars_pass_through() {
    let response = QueryResponse(vec![RowSet {
        aggregates: Some(vec![(s("count"), jnum(3))]),
        rows: Some(vec![vec![
            (s("id"), TargetRowFieldValue::Column { value: jnum(1) }),
            (s("name"), TargetRowFieldValue::Column { value: jstr("a") }),
        ]]),
    }]);
    let out = map_response(response, false);
    assert_eq!(out.aggregates, Some(vec![(s("count"), jnum(3))]));
    let rows = out.rows.unwrap();
    assert_eq!(rows.len(), 1);
    assert_eq!(
        rows[0],
        vec![
            (s("id"), Some(RowFieldValue::ColumnFieldValue(JsonValue::Scalar(jnum(1))))),
            (s("name"), Some(RowFieldValue::ColumnFieldValue(JsonValue::Scalar(jstr("a"))))),
        ]
    );
}

#[test]
fn non_batched_takes_only_the_first_row_set() {
    let response = QueryResponse(vec![
        RowSet { aggregates: None, rows: Some(vec![]) },
        RowSet { aggregates: Some(vec![(s("x"), jnum(9))]), rows: None },
    ]);
    let out = map_response(response, false);
    assert_eq!(out.aggregates, None);
    assert_eq!(out.rows, Some(vec![]));
}

#[test]
fn relationship_column_becomes_nested_object() {
    // A row whose column holds a nested row set must come out as an object
    // with only the keys `aggregates` and/or `rows`.
    let nested = RowSet {
        aggregates: None,
        rows: Some(vec![vec![(s("n"), TargetRowFieldValue::Column { value: jnum(7) })]]),
    };
    let response = QueryResponse(vec![RowSet {
        aggregates: None,
        rows: Some(vec![vec![(
            s("customer"),
            TargetRowFieldValue::Relationship { rows: nested },
        )]]),
    }]);
    let out = map_response(response, false);
    let rows = out.rows.unwrap();
    let (alias, value) = &rows[0][0];
    assert_eq!(alias, &s("customer"));
    let Some(RowFieldValue::ColumnFieldValue(JsonValue::Object(entries))) = value else {
        panic!("expected an object column value");
    };
    assert_eq!(entries.len(), 1);
    assert_eq!(entries[0].0, s("rows"));
    assert_eq!(
        entries[0].1,
        JsonValue::Array(vec![JsonValue::Object(vec![(s("n"), JsonValue::Scalar(jnum(7)))])])
    );
}

#[test]
fn batched_response_wraps_each_row_set() {
    let response = QueryResponse(vec![
        RowSet {
            aggregates: None,
            rows: Some(vec![vec![(s("id"), TargetRowFieldValue::Column { value: jnum(1) })]]),
        },
        RowSet { aggregates: Some(vec![(s("count"), jnum(2))]), rows: None },
        RowSet { aggregates: None, rows: None },
    ]);
    let out = map_response(response, true);
    assert_eq!(out.aggregates, None);
    let rows = out.rows.unwrap();
    assert_eq!(rows.len(), 3);
    for row in &rows {
        assert_eq!(row.len(), 1);
        assert_eq!(row[0].0, s("query"));
    }
    assert_eq!(
        rows[0][0].1,
        Some(RowFieldValue::ColumnFieldValue(JsonValue::Object(vec![(
            s("rows"),
            JsonValue::Array(vec![JsonValue::Object(vec![(
                s("id"),
                JsonValue::Scalar(jnum(1))
            )])]),
        )])))
    );
    assert_eq!(
        rows[1][0].1,
        Some(RowFieldValue::ColumnFieldValue(JsonValue::Object(vec![(
            s("aggregates"),
            JsonValue::Object(vec![(s("count"), JsonValue::Scalar(jnum(2)))]),
        )])))
    );
    assert_eq!(
        rows[2][0].1,
        Some(RowFieldValue::ColumnFieldValue(JsonValue::Object(vec![])))
    );
}

#[test]
fn row_set_serialization_orders_aggregates_before_rows() {
    let rs = RowSet {
        aggregates: Some(vec![(s("count"), jnum(1))]),
        rows: Some(vec![vec![(s("id"), TargetRowFieldValue::Column { value: jnum(5) })]]),
    };
    let out = row_set_as_json(rs);
    let JsonValue::Object(entries) = out else {
        panic!("expected an object");
    };
    assert_eq!(entries.len(), 2);
    assert_eq!(entries[0].0, s("aggregates"));
    assert_eq!(entries[1].0, s("rows"));
}

#[test]
fn deeply_nested_relationships_serialize_recursively() {
    let innermost = RowSet {
        aggregates: None,
        rows: Some(vec![vec![(s("v"), TargetRowFieldValue::Column { value: jstr("leaf") })]]),
    };
    let middle = RowSet {
        aggregates: None,
        rows: Some(vec![vec![(s("inner"), TargetRowFieldValue::Relationship { rows: innermost })]]),
    };
    let out = row_set_as_json(middle);
    assert_eq!(
        out,
        JsonValue::Object(vec![(
            s("rows"),
            JsonValue::Array(vec![JsonValue::Object(vec![(
                s("inner"),
                JsonValue::Object(vec![(
                    s("rows"),
                    JsonValue::Array(vec![JsonValue::Object(vec![(
                        s("v"),
                        JsonValue::Scalar(jstr("leaf"))
                    )])]),
                )]),
            )])]),
        )])
    );
}
