use query_proxy::api::{
    Aggregate, ComparisonColumn, ComparisonValue, ExistsInTable, Expression, Field, OrderBy,
    OrderByElement, OrderByRelation, OrderByTarget, OrderDirection, Query, QueryRequest,
    Relationship, RelationshipType, TableRelationships,
};
use query_proxy::target;
use query_proxy::translate::{
    get_target_table, map_comparison_column, map_expression, map_order_by_path,
    map_order_by_path_without_predicate, map_query, map_request, table_name,
};
use query_proxy::TranslateError;

fn s(x: &str) -> String {
    x.to_string()
}

fn jstr(x: &str) -> serde_json::Value {
    serde_json::Value::String(x.to_string())
}

fn empty_query() -> Query {
    Query {
        aggregates: None,
        aggregates_limit: None,
        fields: None,
        limit: None,
        offset: None,
        order_by: None,
        selection: None,
    }
}

/// Relationships: orders -customer-> customers, customers -orders-> orders.
fn sample_relationships() -> Vec<TableRelationships> {
    vec![
        TableRelationships {
            source_table: vec![s("orders")],
            relationships: vec![(
                s("customer"),
                Relationship {
                    column_mapping: vec![(s("customer_id"), s("id"))],
                    relationship_type: RelationshipType::Object,
                    target_table: vec![s("customers")],
                },
            )],
        },
        TableRelationships {
            source_table: vec![s("customers")],
            relationships: vec![(
                s("orders"),
                Relationship {
                    column_mapping: vec![(s("id"), s("customer_id"))],
                    relationship_type: RelationshipType::Array,
                    target_table: vec![s("orders")],
                },
            )],
        },
    ]
}

#[test]
fn table_name_single_segment() {
    assert_eq!(table_name(vec![s("orders")]), Ok(s("orders")));
}

#[test]
fn table_name_rejects_multi_segment() {
    assert_eq!(
        table_name(vec![s("public"), s("orders")]),
        Err(TranslateError::UnsupportedTableName(vec![s("public"), s("orders")]))
    );
}

#[test]
fn table_name_rejects_empty() {
    assert_eq!(
        table_name(vec![]),
        Err(TranslateError::UnsupportedTableName(vec![]))
    );
}

#[test]
fn target_table_resolves() {
    let rels = sample_relationships();
    assert_eq!(get_target_table("orders", "customer", &rels), Ok(s("customers")));
    assert_eq!(get_target_table("customers", "orders", &rels), Ok(s("orders")));
}

#[test]
fn target_table_missing_relationship() {
    let rels = sample_relationships();
    assert_eq!(
        get_target_table("orders", "supplier", &rels),
        Err(TranslateError::UnresolvedRelationship(s("orders"), s("supplier")))
    );
    assert_eq!(
        get_target_table("suppliers", "customer", &rels),
        Err(TranslateError::UnresolvedRelationship(s("suppliers"), s("customer")))
    );
}

#[test]
fn plain_fields_query_translates() {
    // A query with one plain column field, nothing else.
    let query = Query {
        fields: Some(vec![(
            s("c"),
            Field::Column { column: s("c"), column_type: s("string") },
        )]),
        ..empty_query()
    };
    let out = map_query(query, s("t"), &vec![]).unwrap();
    assert_eq!(out.aggregates, None);
    assert_eq!(out.predicate, None);
    assert_eq!(out.order_by, None);
    assert_eq!(
        out.fields,
        Some(vec![(s("c"), target::Field::Column { column: s("c"), arguments: vec![] })])
    );
}

#[test]
fn order_by_path_of_length_two() {
    let rels = sample_relationships();
    let relations = vec![(
        s("customer"),
        OrderByRelation {
            selection: None,
            subrelations: vec![(
                s("orders"),
                OrderByRelation { selection: None, subrelations: vec![] },
            )],
        },
    )];
    let path = vec![s("customer"), s("orders")];
    let out = map_order_by_path(&path, &relations, "orders", &rels).unwrap();
    assert_eq!(out.len(), 2);
    assert_eq!(out[0].relationship, s("orders.customer"));
    assert_eq!(out[1].relationship, s("customers.orders"));
    assert_eq!(out[0].predicate, target::Expression::And { expressions: vec![] });
    assert_eq!(out[1].predicate, target::Expression::And { expressions: vec![] });
}

#[test]
fn order_by_path_records_hop_selection() {
    let rels = sample_relationships();
    let relations = vec![(
        s("customer"),
        OrderByRelation {
            selection: Some(Expression::UnaryComparisonOperator {
                column: ComparisonColumn { name: s("id"), path: None },
                operator: s("is_null"),
            }),
            subrelations: vec![],
        },
    )];
    let path = vec![s("customer")];
    let out = map_order_by_path(&path, &relations, "orders", &rels).unwrap();
    assert_eq!(out.len(), 1);
    assert_eq!(
        out[0].predicate,
        target::Expression::UnaryComparisonOperator {
            column: target::ComparisonTarget::RootTableColumn { name: s("id") },
            operator: target::UnaryComparisonOperator::IsNull,
        }
    );
}

#[test]
fn order_by_path_without_predicate_resolves() {
    let rels = sample_relationships();
    let relations = vec![(
        s("customer"),
        OrderByRelation { selection: None, subrelations: vec![] },
    )];
    let path = vec![s("customer")];
    let out = map_order_by_path_without_predicate(&path, &relations, "orders", &rels).unwrap();
    assert_eq!(
        out,
        vec![target::PathElement { relationship: s("orders.customer"), arguments: vec![] }]
    );
}

#[test]
fn order_by_path_rejects_undeclared_segment() {
    let rels = sample_relationships();
    let path = vec![s("customer")];
    assert_eq!(
        map_order_by_path(&path, &vec![], "orders", &rels),
        Err(TranslateError::UnresolvedOrderByRelation(s("customer")))
    );
    assert_eq!(
        map_order_by_path_without_predicate(&path, &vec![], "orders", &rels),
        Err(TranslateError::UnresolvedOrderByRelation(s("customer")))
    );
}

#[test]
fn column_path_resolution_composes() {
    // Resolving {x, [customer, orders]} from orders must walk
    // "orders.customer" and then resolve [orders] from customers.
    let rels = sample_relationships();
    let full = map_comparison_column(
        &ComparisonColumn { name: s("x"), path: Some(vec![s("customer"), s("orders")]) },
        "orders",
        &rels,
    )
    .unwrap();
    let tail = map_comparison_column(
        &ComparisonColumn { name: s("x"), path: Some(vec![s("orders")]) },
        "customers",
        &rels,
    )
    .unwrap();
    let target::ComparisonTarget::Column { name: full_name, path: full_path } = full else {
        panic!("expected a path column");
    };
    let target::ComparisonTarget::Column { name: tail_name, path: tail_path } = tail else {
        panic!("expected a path column");
    };
    assert_eq!(full_name, tail_name);
    assert_eq!(full_path.len(), 2);
    assert_eq!(full_path[0].relationship, s("orders.customer"));
    assert_eq!(tail_path.len(), 1);
    assert_eq!(full_path[1], tail_path[0]);
}

#[test]
fn empty_column_path_is_root_column() {
    let rels = sample_relationships();
    let out = map_comparison_column(
        &ComparisonColumn { name: s("id"), path: Some(vec![]) },
        "orders",
        &rels,
    )
    .unwrap();
    assert_eq!(out, target::ComparisonTarget::RootTableColumn { name: s("id") });
}

#[test]
fn example_is_null_request_translates() {
    // Request {table: ["orders"], query: {fields: {"id": Column},
    // selection: UnaryComparisonOperator{column: {name: "id"},
    // operator: "is_null"}}} with no relationships.
    let request = QueryRequest {
        foreach: None,
        table: vec![s("orders")],
        table_relationships: vec![],
        query: Query {
            fields: Some(vec![(
                s("id"),
                Field::Column { column: s("id"), column_type: s("number") },
            )]),
            selection: Some(Expression::UnaryComparisonOperator {
                column: ComparisonColumn { name: s("id"), path: None },
                operator: s("is_null"),
            }),
            ..empty_query()
        },
    };
    let out = map_request(request).unwrap();
    assert_eq!(out.table, s("orders"));
    assert_eq!(out.arguments, vec![]);
    assert_eq!(out.variables, None);
    assert_eq!(out.table_relationships, vec![]);
    assert_eq!(
        out.query.predicate,
        Some(target::Expression::UnaryComparisonOperator {
            column: target::ComparisonTarget::RootTableColumn { name: s("id") },
            operator: target::UnaryComparisonOperator::IsNull,
        })
    );
}

#[test]
fn unsupported_unary_operator_is_rejected() {
    let out = map_expression(
        &Expression::UnaryComparisonOperator {
            column: ComparisonColumn { name: s("id"), path: None },
            operator: s("starts_with"),
        },
        "orders",
        &vec![],
    );
    assert_eq!(out, Err(TranslateError::UnsupportedUnaryOperator(s("starts_with"))));
}

#[test]
fn unsupported_array_operator_is_rejected() {
    let out = map_expression(
        &Expression::BinaryArrayComparisonOperator {
            column: ComparisonColumn { name: s("id"), path: None },
            operator: s("not_in"),
            value_type: s("number"),
            values: vec![jstr("1")],
        },
        "orders",
        &vec![],
    );
    assert_eq!(out, Err(TranslateError::UnsupportedArrayOperator(s("not_in"))));
}

#[test]
fn binary_operator_equal_and_passthrough() {
    let rels = sample_relationships();
    let equal = map_expression(
        &Expression::BinaryComparisonOperator {
            column: ComparisonColumn { name: s("id"), path: None },
            operator: s("equal"),
            value: ComparisonValue::ScalarValueComparison {
                value: jstr("10"),
                value_type: s("number"),
            },
        },
        "orders",
        &rels,
    )
    .unwrap();
    assert_eq!(
        equal,
        target::Expression::BinaryComparisonOperator {
            column: target::ComparisonTarget::RootTableColumn { name: s("id") },
            operator: target::BinaryComparisonOperator::Equal,
            value: target::ComparisonValue::Scalar { value: jstr("10") },
        }
    );
    let custom = map_expression(
        &Expression::BinaryComparisonOperator {
            column: ComparisonColumn { name: s("id"), path: None },
            operator: s("greater_than"),
            value: ComparisonValue::AnotherColumnComparison {
                column: ComparisonColumn { name: s("other"), path: None },
            },
        },
        "orders",
        &rels,
    )
    .unwrap();
    assert_eq!(
        custom,
        target::Expression::BinaryComparisonOperator {
            column: target::ComparisonTarget::RootTableColumn { name: s("id") },
            operator: target::BinaryComparisonOperator::Other { name: s("greater_than") },
            value: target::ComparisonValue::Column {
                column: target::ComparisonTarget::RootTableColumn { name: s("other") },
            },
        }
    );
}

#[test]
fn in_operator_wraps_values_as_scalars() {
    let out = map_expression(
        &Expression::BinaryArrayComparisonOperator {
            column: ComparisonColumn { name: s("id"), path: None },
            operator: s("in"),
            value_type: s("number"),
            values: vec![jstr("1"), jstr("2")],
        },
        "orders",
        &vec![],
    )
    .unwrap();
    assert_eq!(
        out,
        target::Expression::BinaryArrayComparisonOperator {
            column: target::ComparisonTarget::RootTableColumn { name: s("id") },
            operator: target::BinaryArrayComparisonOperator::In,
            values: vec![
                target::ComparisonValue::Scalar { value: jstr("1") },
                target::ComparisonValue::Scalar { value: jstr("2") },
            ],
        }
    );
}

#[test]
fn exists_related_table_changes_context() {
    let rels = sample_relationships();
    // The inner column "name" with no path resolves in the related table's
    // context (customers).
    let out = map_expression(
        &Expression::Exists {
            in_table: ExistsInTable::RelatedTable { relationship: s("customer") },
            selection: Box::new(Expression::UnaryComparisonOperator {
                column: ComparisonColumn { name: s("name"), path: Some(vec![s("orders")]) },
                operator: s("is_null"),
            }),
        },
        "orders",
        &rels,
    )
    .unwrap();
    let target::Expression::Exists { in_table, predicate } = out else {
        panic!("expected exists");
    };
    assert_eq!(
        in_table,
        target::ExistsInTable::Related { relationship: s("orders.customer"), arguments: vec![] }
    );
    // The nested path [orders] resolved from customers, not from orders.
    let target::Expression::UnaryComparisonOperator { column, .. } = *predicate else {
        panic!("expected unary comparison");
    };
    let target::ComparisonTarget::Column { name, path } = column else {
        panic!("expected a path column");
    };
    assert_eq!(name, s("name"));
    assert_eq!(path.len(), 1);
    assert_eq!(path[0].relationship, s("customers.orders"));
}

#[test]
fn exists_unrelated_table_is_verbatim() {
    let out = map_expression(
        &Expression::Exists {
            in_table: ExistsInTable::UnrelatedTable { table: vec![s("audit")] },
            selection: Box::new(Expression::And { expressions: vec![] }),
        },
        "orders",
        &vec![],
    )
    .unwrap();
    assert_eq!(
        out,
        target::Expression::Exists {
            in_table: target::ExistsInTable::Unrelated { table: s("audit"), arguments: vec![] },
            predicate: Box::new(target::Expression::And { expressions: vec![] }),
        }
    );
}

#[test]
fn exists_unresolved_relationship_is_rejected() {
    let out = map_expression(
        &Expression::Exists {
            in_table: ExistsInTable::RelatedTable { relationship: s("supplier") },
            selection: Box::new(Expression::And { expressions: vec![] }),
        },
        "orders",
        &sample_relationships(),
    );
    assert_eq!(
        out,
        Err(TranslateError::UnresolvedRelationship(s("orders"), s("supplier")))
    );
}

#[test]
fn unresolved_path_segment_is_rejected() {
    let out = map_comparison_column(
        &ComparisonColumn { name: s("x"), path: Some(vec![s("supplier")]) },
        "orders",
        &sample_relationships(),
    );
    assert_eq!(
        out,
        Err(TranslateError::UnresolvedRelationship(s("orders"), s("supplier")))
    );
}

#[test]
fn aggregates_drop_declared_result_types() {
    let query = Query {
        aggregates: Some(vec![
            (s("n"), Aggregate::StarCount),
            (s("d"), Aggregate::ColumnCount { column: s("id"), distinct: true }),
            (
                s("m"),
                Aggregate::SingleColumn {
                    column: s("total"),
                    function: s("max"),
                    result_type: s("number"),
                },
            ),
        ]),
        ..empty_query()
    };
    let out = map_query(query, s("orders"), &vec![]).unwrap();
    assert_eq!(
        out.aggregates,
        Some(vec![
            (s("n"), target::Aggregate::StarCount),
            (s("d"), target::Aggregate::ColumnCount { column: s("id"), distinct: true }),
            (s("m"), target::Aggregate::SingleColumn { column: s("total"), function: s("max") }),
        ])
    );
}

#[test]
fn limit_and_offset_pass_through() {
    let query = Query { limit: Some(10), offset: Some(20), ..empty_query() };
    let out = map_query(query, s("orders"), &vec![]).unwrap();
    assert_eq!(out.limit, Some(10));
    assert_eq!(out.offset, Some(20));
}

#[test]
fn relationship_field_recurses_with_new_context() {
    let rels = sample_relationships();
    let query = Query {
        fields: Some(vec![(
            s("cust"),
            Field::Relationship {
                relationship: s("customer"),
                query: Box::new(Query {
                    fields: Some(vec![(
                        s("name"),
                        Field::Column { column: s("name"), column_type: s("string") },
                    )]),
                    selection: Some(Expression::UnaryComparisonOperator {
                        column: ComparisonColumn {
                            name: s("x"),
                            path: Some(vec![s("orders")]),
                        },
                        operator: s("is_null"),
                    }),
                    ..empty_query()
                }),
            },
        )]),
        ..empty_query()
    };
    let out = map_query(query, s("orders"), &rels).unwrap();
    let fields = out.fields.unwrap();
    assert_eq!(fields.len(), 1);
    assert_eq!(fields[0].0, s("cust"));
    let target::Field::Relationship { query: nested, relationship, arguments } = &fields[0].1
    else {
        panic!("expected relationship field");
    };
    assert_eq!(relationship, &s("orders.customer"));
    assert_eq!(arguments, &vec![]);
    // The nested path [orders] resolved from the relationship's target
    // table (customers).
    let Some(target::Expression::UnaryComparisonOperator { column, .. }) = &nested.predicate
    else {
        panic!("expected unary predicate");
    };
    let target::ComparisonTarget::Column { path, .. } = column else {
        panic!("expected a path column");
    };
    assert_eq!(path[0].relationship, s("customers.orders"));
}

#[test]
fn request_flattens_relationships_and_keeps_variables() {
    let request = QueryRequest {
        foreach: Some(vec![
            vec![(
                s("v"),
                query_proxy::api::ScalarValue { value: jstr("1"), value_type: s("number") },
            )],
            vec![(
                s("v"),
                query_proxy::api::ScalarValue { value: jstr("2"), value_type: s("number") },
            )],
        ]),
        table: vec![s("orders")],
        table_relationships: sample_relationships(),
        query: Query {
            fields: Some(vec![(
                s("id"),
                Field::Column { column: s("id"), column_type: s("number") },
            )]),
            ..empty_query()
        },
    };
    let out = map_request(request).unwrap();
    assert_eq!(out.table, s("orders"));
    assert_eq!(
        out.variables,
        Some(vec![vec![(s("v"), jstr("1"))], vec![(s("v"), jstr("2"))]])
    );
    assert_eq!(out.table_relationships.len(), 2);
    assert_eq!(out.table_relationships[0].0, s("orders.customer"));
    assert_eq!(
        out.table_relationships[0].1,
        target::Relationship {
            column_mapping: vec![(s("customer_id"), s("id"))],
            relationship_type: target::RelationshipType::Object,
            source_table_or_type: s("orders"),
            target_table: s("customers"),
            arguments: vec![],
        }
    );
    assert_eq!(out.table_relationships[1].0, s("customers.orders"));
}

#[test]
fn request_rejects_multi_segment_root_table() {
    let request = QueryRequest {
        foreach: None,
        table: vec![s("public"), s("orders")],
        table_relationships: vec![],
        query: empty_query(),
    };
    assert_eq!(
        map_request(request),
        Err(TranslateError::UnsupportedTableName(vec![s("public"), s("orders")]))
    );
}

#[test]
fn request_rejects_multi_segment_relationship_target() {
    let request = QueryRequest {
        foreach: None,
        table: vec![s("orders")],
        table_relationships: vec![TableRelationships {
            source_table: vec![s("orders")],
            relationships: vec![(
                s("customer"),
                Relationship {
                    column_mapping: vec![],
                    relationship_type: RelationshipType::Object,
                    target_table: vec![s("public"), s("customers")],
                },
            )],
        }],
        query: empty_query(),
    };
    assert_eq!(
        map_request(request),
        Err(TranslateError::UnsupportedTableName(vec![s("public"), s("customers")]))
    );
}

#[test]
fn translate_error_messages_name_the_cause() {
    assert_eq!(
        TranslateError::UnsupportedUnaryOperator(s("starts_with")).message(),
        s("unsupported unary comparison operator: starts_with")
    );
    assert_eq!(
        TranslateError::UnresolvedRelationship(s("orders"), s("supplier")).message(),
        s("unresolved relationship: orders.supplier")
    );
}

#[test]
fn order_by_element_kinds_translate() {
    let rels = sample_relationships();
    let query = Query {
        order_by: Some(OrderBy {
            elements: vec![
                OrderByElement {
                    order_direction: OrderDirection::Asc,
                    target: OrderByTarget::Column { column: s("id") },
                    target_path: vec![],
                },
                OrderByElement {
                    order_direction: OrderDirection::Desc,
                    target: OrderByTarget::StarCountAggregate,
                    target_path: vec![s("customer")],
                },
                OrderByElement {
                    order_direction: OrderDirection::Asc,
                    target: OrderByTarget::SingleColumnAggregate {
                        column: s("total"),
                        function: s("sum"),
                        result_type: s("number"),
                    },
                    target_path: vec![s("customer")],
                },
            ],
            relations: vec![(
                s("customer"),
                OrderByRelation { selection: None, subrelations: vec![] },
            )],
        }),
        ..empty_query()
    };
    let out = map_query(query, s("orders"), &rels).unwrap();
    let order_by = out.order_by.unwrap();
    assert_eq!(order_by.elements.len(), 3);
    assert_eq!(order_by.elements[0].order_direction, target::OrderDirection::Asc);
    assert_eq!(
        order_by.elements[0].target,
        target::OrderByTarget::Column { name: s("id"), path: vec![] }
    );
    assert_eq!(order_by.elements[1].order_direction, target::OrderDirection::Desc);
    let target::OrderByTarget::StarCountAggregate { path } = &order_by.elements[1].target else {
        panic!("expected star-count target");
    };
    assert_eq!(path.len(), 1);
    assert_eq!(path[0].relationship, s("orders.customer"));
    let target::OrderByTarget::SingleColumnAggregate { column, function, path } =
        &order_by.elements[2].target
    else {
        panic!("expected single-column aggregate target");
    };
    assert_eq!(column, &s("total"));
    assert_eq!(function, &s("sum"));
    assert_eq!(path.len(), 1);
}
