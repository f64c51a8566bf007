//! Preparation of natural-language sentences for an external sequence-labeling
//! engine, together with the categorical vocabulary that makes the engine's
//! numeric output interpretable.
//!
//! The crate provides a bidirectional symbol-numbering table ([`Numberer`]),
//! embedding lookup with a precomputed fallback for unknown keys
//! ([`Embeddings`]), a sentence vectorizer ([`SentVectorizer`]) and an
//! accuracy accumulator for scoring predictions ([`ModelPerformance`]).

pub mod cbor;
pub mod error;
pub mod input;
pub mod numberer;
pub mod serialization;
pub mod tag;

pub use error::{DeserializationReason, Field, ToponnError};
pub use input::{Embeddings, LayerEmbeddings, SentVec, SentVectorizer, Token};
pub use numberer::Numberer;
pub use serialization::{CborRead, CborWrite};
pub use tag::{ModelPerformance, Tag};
