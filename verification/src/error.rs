//! The error taxonomy shared by every builder and executor operation.

use vstd::prelude::*;

verus! {

/// Outcome classification for everything the core can refuse to do.
///
/// No user-supplied input may abort the process: malformed requests come back
/// as `QueryValidationError`, absent schema entities or rows as
/// `NotFoundError`, operations that would break a mandatory relation as
/// `RelationViolation`, and request features outside the supported language
/// as `UnsupportedFeatureError`.
#[derive(Debug, PartialEq, Eq)]
pub enum CoreError {
    QueryValidationError(String),
    NotFoundError(String),
    RelationViolation(String),
    UnsupportedFeatureError(String),
}

impl CoreError {
    /// The human-readable text carried by the error.
    pub fn message(&self) -> (r: String)
        ensures
            r@ == self.spec_message(),
    {
        match self {
            CoreError::QueryValidationError(m) => m.clone(),
            CoreError::NotFoundError(m) => m.clone(),
            CoreError::RelationViolation(m) => m.clone(),
            CoreError::UnsupportedFeatureError(m) => m.clone(),
        }
    }

    pub open spec fn spec_message(&self) -> Seq<char> {
        match self {
            CoreError::QueryValidationError(m) => m@,
            CoreError::NotFoundError(m) => m@,
            CoreError::RelationViolation(m) => m@,
            CoreError::UnsupportedFeatureError(m) => m@,
        }
    }

    pub open spec fn is_validation(&self) -> bool {
        self is QueryValidationError
    }

    pub open spec fn is_not_found(&self) -> bool {
        self is NotFoundError
    }

    pub open spec fn is_relation_violation(&self) -> bool {
        self is RelationViolation
    }
}

/// The kind of failure a builder reports, used by the builders'
/// specifications to classify outcomes.
#[derive(Debug, PartialEq, Eq, Structural, Clone, Copy)]
pub enum BuildErrKind {
    Validation,
    NotFound,
    Unsupported,
}

/// Whether an error value carries the given kind.
pub open spec fn err_kind_matches(e: CoreError, k: BuildErrKind) -> bool {
    match k {
        BuildErrKind::Validation => e is QueryValidationError,
        BuildErrKind::NotFound => e is NotFoundError,
        BuildErrKind::Unsupported => e is UnsupportedFeatureError,
    }
}

} // verus!
