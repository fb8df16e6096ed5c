//! The legacy query protocol: the request and response shapes accepted from
//! and returned to the caller.
//!
//! Name-keyed maps of the wire format are held as ordered association lists
//! (`Vec` of pairs), and scalar JSON leaves are carried through untouched as
//! opaque `serde_json::Value`s: the engine never inspects a scalar, it only
//! moves it.

use vstd::prelude::*;

verus! {

/// Declares `serde_json::Value` to the verifier as an opaque type, so that
/// scalar JSON values can be stored and moved; nothing about their contents
/// is ever assumed.
#[verifier::external_type_specification]
#[verifier::external_body]
pub struct ExValue(serde_json::Value);

/// A scalar value together with its declared type; the declared type is
/// informational only and is dropped during translation.
#[derive(Debug, PartialEq)]
pub struct ScalarValue {
    pub value: serde_json::Value,
    pub value_type: String,
}

/// One batch element of a batched ("foreach") request: variable name to
/// scalar value.
pub type ForeachRow = Vec<(String, ScalarValue)>;

#[derive(Debug, PartialEq)]
pub enum RelationshipType {
    Object,
    Array,
}

/// A declared relationship: how to join from a source table to a target
/// table.
#[derive(Debug, PartialEq)]
pub struct Relationship {
    pub column_mapping: Vec<(String, String)>,
    pub relationship_type: RelationshipType,
    pub target_table: Vec<String>,
}

/// The relationships declared for one source table.
#[derive(Debug, PartialEq)]
pub struct TableRelationships {
    pub source_table: Vec<String>,
    pub relationships: Vec<(String, Relationship)>,
}

/// A column reference inside a comparison, with an optional relationship
/// path from the current table context to the table that owns the column.
#[derive(Debug, PartialEq)]
pub struct ComparisonColumn {
    pub name: String,
    pub path: Option<Vec<String>>,
}

/// The right-hand side of a binary comparison.
#[derive(Debug, PartialEq)]
pub enum ComparisonValue {
    ScalarValueComparison { value: serde_json::Value, value_type: String },
    AnotherColumnComparison { column: ComparisonColumn },
}

/// The table an `Exists` expression ranges over.
#[derive(Debug, PartialEq)]
pub enum ExistsInTable {
    UnrelatedTable { table: Vec<String> },
    RelatedTable { relationship: String },
}

/// A boolean filter expression.
#[derive(Debug, PartialEq)]
pub enum Expression {
    And { expressions: Vec<Expression> },
    Or { expressions: Vec<Expression> },
    Not { expression: Box<Expression> },
    UnaryComparisonOperator { column: ComparisonColumn, operator: String },
    BinaryComparisonOperator {
        column: ComparisonColumn,
        operator: String,
        value: ComparisonValue,
    },
    BinaryArrayComparisonOperator {
        column: ComparisonColumn,
        operator: String,
        value_type: String,
        values: Vec<serde_json::Value>,
    },
    Exists { in_table: ExistsInTable, selection: Box<Expression> },
}

#[derive(Debug, PartialEq)]
pub enum OrderDirection {
    Asc,
    Desc,
}

/// What an ordering element orders by.
#[derive(Debug, PartialEq)]
pub enum OrderByTarget {
    StarCountAggregate,
    SingleColumnAggregate { column: String, function: String, result_type: String },
    Column { column: String },
}

/// One element of an ordering specification.
#[derive(Debug, PartialEq)]
pub struct OrderByElement {
    pub order_direction: OrderDirection,
    pub target: OrderByTarget,
    pub target_path: Vec<String>,
}

/// Per-hop context for an order-by path: an optional filter for the hop and
/// the registry for deeper hops.
#[derive(Debug, PartialEq)]
pub struct OrderByRelation {
    pub selection: Option<Expression>,
    pub subrelations: Vec<(String, OrderByRelation)>,
}

/// An ordering specification: the elements plus a nested relation registry
/// mirroring the traversal paths one hop at a time.
#[derive(Debug, PartialEq)]
pub struct OrderBy {
    pub elements: Vec<OrderByElement>,
    pub relations: Vec<(String, OrderByRelation)>,
}

/// An aggregate computation over a row set.
#[derive(Debug, PartialEq)]
pub enum Aggregate {
    ColumnCount { column: String, distinct: bool },
    SingleColumn { column: String, function: String, result_type: String },
    StarCount,
}

/// A selected field: a plain column, or a relationship carrying a nested
/// query.
#[derive(Debug, PartialEq)]
pub enum Field {
    Column { column: String, column_type: String },
    Relationship { query: Box<Query>, relationship: String },
}

/// One query node.
#[derive(Debug, PartialEq)]
pub struct Query {
    pub aggregates: Option<Vec<(String, Aggregate)>>,
    pub aggregates_limit: Option<u32>,
    pub fields: Option<Vec<(String, Field)>>,
    pub limit: Option<u32>,
    pub offset: Option<u32>,
    pub order_by: Option<OrderBy>,
    pub selection: Option<Expression>,
}

/// The legacy request envelope.
#[derive(Debug, PartialEq)]
pub struct QueryRequest {
    pub foreach: Option<Vec<ForeachRow>>,
    pub table: Vec<String>,
    pub table_relationships: Vec<TableRelationships>,
    pub query: Query,
}

/// A JSON value assembled by the response reshaper: opaque scalar leaves
/// under object and array structure the engine builds itself.
#[derive(Debug, PartialEq)]
pub enum JsonValue {
    Scalar(serde_json::Value),
    Array(Vec<JsonValue>),
    Object(Vec<(String, JsonValue)>),
}

/// A column value of a legacy response row.
#[derive(Debug, PartialEq)]
pub enum RowFieldValue {
    ColumnFieldValue(JsonValue),
}

/// One row of the legacy response: column alias to value.
pub type ResponseRow = Vec<(String, Option<RowFieldValue>)>;

/// The legacy response envelope.
#[derive(Debug, PartialEq)]
pub struct QueryResponse {
    pub aggregates: Option<Vec<(String, serde_json::Value)>>,
    pub rows: Option<Vec<ResponseRow>>,
}

} // verus!
