//! A protocol adapter for data-connector queries: requests arriving in the
//! legacy wire shape are translated into the target connector protocol and
//! forwarded, and the target's nested row-set results are reshaped back into
//! the legacy response shape.

pub mod api;
pub mod laws;
pub mod reshape;
pub mod service;
pub mod target;
pub mod translate;

use vstd::prelude::*;

verus! {

/// A semantic translation failure: every caller-input-dependent condition the
/// translator cannot handle is reported through this type rather than by
/// panicking.
#[derive(Debug, PartialEq)]
pub enum TranslateError {
    /// A unary comparison operator other than `is_null`.
    UnsupportedUnaryOperator(String),
    /// A binary array comparison operator other than `in`.
    UnsupportedArrayOperator(String),
    /// A relationship name (second field) that the declared table
    /// relationships do not resolve from the given source table (first
    /// field).
    UnresolvedRelationship(String, String),
    /// An order-by path segment that is absent from the current level of the
    /// order-by relation registry.
    UnresolvedOrderByRelation(String),
    /// A table reference that is not a single-segment name.
    UnsupportedTableName(Vec<String>),
}

/// The mathematical shape of a [`TranslateError`], with every name as a
/// sequence of characters.
pub enum SpecError {
    UnsupportedUnaryOperator(Seq<char>),
    UnsupportedArrayOperator(Seq<char>),
    UnresolvedRelationship(Seq<char>, Seq<char>),
    UnresolvedOrderByRelation(Seq<char>),
    UnsupportedTableName(Seq<Seq<char>>),
}

impl TranslateError {
    /// The mathematical value of this error.
    pub open spec fn model(self) -> SpecError {
        match self {
            TranslateError::UnsupportedUnaryOperator(op) => SpecError::UnsupportedUnaryOperator(
                op@,
            ),
            TranslateError::UnsupportedArrayOperator(op) => SpecError::UnsupportedArrayOperator(
                op@,
            ),
            TranslateError::UnresolvedRelationship(source, name) => {
                SpecError::UnresolvedRelationship(source@, name@)
            },
            TranslateError::UnresolvedOrderByRelation(segment) => {
                SpecError::UnresolvedOrderByRelation(segment@)
            },
            TranslateError::UnsupportedTableName(table) => SpecError::UnsupportedTableName(
                table.deep_view(),
            ),
        }
    }
}

} // verus!
