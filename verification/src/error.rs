//! The error kinds that the crate's operations surface. Each carries enough
//! context for a caller to diagnose the failing token, stream or identifier.

use vstd::prelude::*;

use crate::input::Token;

verus! {

/// A per-token field that vectorization cannot proceed without.
#[derive(Clone, Debug, PartialEq, Eq)]
pub enum Field {
    /// The part-of-speech tag of a token.
    Pos,
    /// The topological-field feature, stored under the `tf` key of a token's
    /// feature map.
    TopologicalField,
}

/// Why a persisted vocabulary could not be restored.
#[derive(Clone, Debug, PartialEq, Eq)]
pub enum DeserializationReason {
    /// The byte stream is not a well-formed encoding of a label sequence.
    MalformedEncoding,
    /// Two identifiers would map to the same label, breaking the bijection.
    DuplicateLabel,
}

/// An error of one of the four kinds the crate's operations can surface.
#[derive(Clone, Debug, PartialEq)]
pub enum ToponnError {
    /// A required per-token field is absent; carries the offending token.
    MissingField { token: Token, field: Field },
    /// Persisted vocabulary state is malformed.
    Deserialization { reason: DeserializationReason },
    /// The underlying sink rejected a write during persistence.
    Io,
    /// A label identifier fell outside the known table range during scoring;
    /// carries the offending identifier.
    InconsistentVocabulary { id: usize },
}

} // verus!
