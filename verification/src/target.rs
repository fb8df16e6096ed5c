//! The target protocol: the request shape sent to the downstream connector
//! agent and the response shape it returns.
//!
//! As on the legacy side, name-keyed maps are ordered association lists and
//! scalar JSON values are opaque. Every `arguments` map the engine emits is
//! empty (parameterized tables are not supported), so those fields share one
//! plain pair-list shape.

use vstd::prelude::*;

verus! {

/// A (always empty) static-arguments map.
pub type Arguments = Vec<(String, serde_json::Value)>;

#[derive(Debug, PartialEq)]
pub enum RelationshipType {
    Object,
    Array,
}

/// A relationship in the target shape, keyed off one flattened map.
#[derive(Debug, PartialEq)]
pub struct Relationship {
    pub column_mapping: Vec<(String, String)>,
    pub relationship_type: RelationshipType,
    pub source_table_or_type: String,
    pub target_table: String,
    pub arguments: Arguments,
}

/// A path hop without a predicate, named `"<source table>.<relationship>"`.
#[derive(Debug, PartialEq)]
pub struct PathElement {
    pub relationship: String,
    pub arguments: Arguments,
}

/// A path hop carrying a per-hop filter predicate.
#[derive(Debug, PartialEq)]
pub struct PathElementWithPredicate {
    pub relationship: String,
    pub arguments: Arguments,
    pub predicate: Expression,
}

/// The column a comparison applies to, either on the root table or reached
/// through a relationship path.
#[derive(Debug, PartialEq)]
pub enum ComparisonTarget {
    Column { name: String, path: Vec<PathElement> },
    RootTableColumn { name: String },
}

#[derive(Debug, PartialEq)]
pub enum UnaryComparisonOperator {
    IsNull,
}

/// Equality is built in; any other operator is passed through by name as a
/// connector-defined operator.
#[derive(Debug, PartialEq)]
pub enum BinaryComparisonOperator {
    Equal,
    Other { name: String },
}

#[derive(Debug, PartialEq)]
pub enum BinaryArrayComparisonOperator {
    In,
}

#[derive(Debug, PartialEq)]
pub enum ComparisonValue {
    Scalar { value: serde_json::Value },
    Column { column: ComparisonTarget },
}

#[derive(Debug, PartialEq)]
pub enum ExistsInTable {
    Unrelated { table: String, arguments: Arguments },
    Related { relationship: String, arguments: Arguments },
}

/// A boolean filter expression in the target shape.
#[derive(Debug, PartialEq)]
#[allow(inconsistent_fields)]
pub enum Expression {
    And { expressions: Vec<Expression> },
    Or { expressions: Vec<Expression> },
    Not { expression: Box<Expression> },
    UnaryComparisonOperator { column: ComparisonTarget, operator: UnaryComparisonOperator },
    BinaryComparisonOperator {
        column: ComparisonTarget,
        operator: BinaryComparisonOperator,
        value: ComparisonValue,
    },
    BinaryArrayComparisonOperator {
        column: ComparisonTarget,
        operator: BinaryArrayComparisonOperator,
        values: Vec<ComparisonValue>,
    },
    Exists { in_table: ExistsInTable, predicate: Box<Expression> },
}

#[derive(Debug, PartialEq)]
pub enum OrderDirection {
    Asc,
    Desc,
}

#[derive(Debug, PartialEq)]
#[allow(inconsistent_fields)]
pub enum OrderByTarget {
    StarCountAggregate { path: Vec<PathElementWithPredicate> },
    SingleColumnAggregate {
        column: String,
        function: String,
        path: Vec<PathElementWithPredicate>,
    },
    Column { name: String, path: Vec<PathElement> },
}

#[derive(Debug, PartialEq)]
pub struct OrderByElement {
    pub order_direction: OrderDirection,
    pub target: OrderByTarget,
}

#[derive(Debug, PartialEq)]
pub struct OrderBy {
    pub elements: Vec<OrderByElement>,
}

#[derive(Debug, PartialEq)]
pub enum Aggregate {
    ColumnCount { column: String, distinct: bool },
    SingleColumn { column: String, function: String },
    StarCount,
}

#[derive(Debug, PartialEq)]
pub enum Field {
    Column { column: String, arguments: Arguments },
    Relationship { query: Box<Query>, relationship: String, arguments: Arguments },
}

/// One query node in the target shape.
#[derive(Debug, PartialEq)]
pub struct Query {
    pub aggregates: Option<Vec<(String, Aggregate)>>,
    pub fields: Option<Vec<(String, Field)>>,
    pub limit: Option<u32>,
    pub offset: Option<u32>,
    pub order_by: Option<OrderBy>,
    pub predicate: Option<Expression>,
}

/// The request envelope sent downstream.
#[derive(Debug, PartialEq)]
pub struct QueryRequest {
    pub table: String,
    pub arguments: Arguments,
    pub variables: Option<Vec<Vec<(String, serde_json::Value)>>>,
    pub query: Query,
    pub table_relationships: Vec<(String, Relationship)>,
}

/// One column value of a downstream result row: a scalar, or a nested row
/// set for a relationship-valued column.
#[derive(Debug, PartialEq)]
pub enum RowFieldValue {
    Relationship { rows: RowSet },
    Column { value: serde_json::Value },
}

/// One downstream result row: column alias to value.
pub type Row = Vec<(String, RowFieldValue)>;

/// One unit of downstream result: optional aggregates and optional rows.
#[derive(Debug, PartialEq)]
pub struct RowSet {
    pub aggregates: Option<Vec<(String, serde_json::Value)>>,
    pub rows: Option<Vec<Row>>,
}

/// The downstream response: one row set per executed query instance.
#[derive(Debug, PartialEq)]
pub struct QueryResponse(pub Vec<RowSet>);

} // verus!
