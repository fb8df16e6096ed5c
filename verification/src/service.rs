//! Plain service-level types shared with the surrounding process: the
//! per-source configuration, the values extracted from request headers, and
//! the structured client-facing error.

use vstd::prelude::*;

use crate::TranslateError;

verus! {

use vstd::string::StringExecFns;

/// Per-source configuration carried in a request header. The adapter takes
/// no configuration options of its own.
#[derive(Debug, PartialEq)]
pub struct Config {}

/// The source name carried in a request header.
#[derive(Debug, PartialEq)]
pub struct SourceName(pub String);

/// The per-source configuration carried in a request header.
#[derive(Debug, PartialEq)]
pub struct SourceConfig(pub Config);

/// The downstream base URL carried in the request's query parameters.
#[derive(Debug, PartialEq)]
pub struct ProxyTarget(pub String);

/// A JSON-carrying request body.
pub struct Json<T>(pub T);

/// The kind tag of a structured client-facing error.
#[derive(Debug, PartialEq)]
pub enum ErrorResponseType {
    UncaughtError,
}

/// A structured client-facing error: a kind tag, a human-readable message
/// and optional machine-readable details.
pub enum ServerError {
    UncaughtError {
        details: Option<serde_json::Value>,
        message: String,
        error_type: ErrorResponseType,
    },
}

impl TranslateError {
    /// The human-readable description of this error.
    pub open spec fn spec_message(self) -> Seq<char> {
        match self {
            TranslateError::UnsupportedUnaryOperator(op) => {
                "unsupported unary comparison operator: "@ + op@
            },
            TranslateError::UnsupportedArrayOperator(op) => {
                "unsupported binary array comparison operator: "@ + op@
            },
            TranslateError::UnresolvedRelationship(source, name) => {
                "unresolved relationship: "@ + source@ + "."@ + name@
            },
            TranslateError::UnresolvedOrderByRelation(segment) => {
                "order by path segment not declared in the relation registry: "@ + segment@
            },
            TranslateError::UnsupportedTableName(table) => {
                "unsupported table name: expected exactly one segment"@
            },
        }
    }

    /// Renders the human-readable description of this error.
    pub fn message(&self) -> (r: String)
        ensures
            r@ == self.spec_message(),
    {
        match self {
            TranslateError::UnsupportedUnaryOperator(op) => {
                let mut m = "unsupported unary comparison operator: ".to_owned();
                m.append(op.as_str());
                m
            },
            TranslateError::UnsupportedArrayOperator(op) => {
                let mut m = "unsupported binary array comparison operator: ".to_owned();
                m.append(op.as_str());
                m
            },
            TranslateError::UnresolvedRelationship(source, name) => {
                let mut m = "unresolved relationship: ".to_owned();
                m.append(source.as_str());
                m.append(".");
                m.append(name.as_str());
                m
            },
            TranslateError::UnresolvedOrderByRelation(segment) => {
                let mut m = "order by path segment not declared in the relation registry: "
                    .to_owned();
                m.append(segment.as_str());
                m
            },
            TranslateError::UnsupportedTableName(table) => {
                "unsupported table name: expected exactly one segment".to_owned()
            },
        }
    }
}

impl ServerError {
    /// Wraps a semantic translation failure as a structured client-facing
    /// error, rather than letting it abort the process.
    pub fn from_translate(e: &TranslateError) -> (r: ServerError)
        ensures
            match r {
                ServerError::UncaughtError { details, message, error_type } => {
                    &&& details is None
                    &&& message@ == e.spec_message()
                    &&& error_type == ErrorResponseType::UncaughtError
                },
            },
    {
        ServerError::UncaughtError {
            details: None,
            message: e.message(),
            error_type: ErrorResponseType::UncaughtError,
        }
    }
}

} // verus!
