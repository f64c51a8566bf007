//! Persistence of the symbol table through CBOR.
//!
//! A table is persisted as the CBOR encoding of its label sequence in
//! identifier order: a self-describing byte stream from which the exact
//! label-to-identifier bijection, insertion order included, is restored.
//! The encoding and decoding themselves are done by `serde_cbor`; this
//! module states their contract, validates what comes back, and proves the
//! round-trip law on top of them.

use vstd::prelude::*;

use crate::cbor::{cbor_decode_labels, cbor_encode_labels, cbor_of};
use crate::error::{DeserializationReason, ToponnError};
use crate::numberer::{table_distinct, Numberer};

verus! {

/// Persistence into a CBOR byte stream.
pub trait CborWrite {
    /// The byte encoding this value persists as.
    spec fn cbor_encoding(&self) -> Seq<u8>;

    /// Append the value's encoding to `write`. Success is owed: a byte
    /// buffer never rejects a write, so persistence into one cannot fail.
    /// (Failure of a real sink belongs to whoever drains the buffer into
    /// it.)
    fn to_cbor_write(&self, write: &mut Vec<u8>) -> (r: Result<(), ToponnError>)
        ensures
            r is Ok,
            final(write)@ == old(write)@ + self.cbor_encoding(),
    ;
}

/// Restoration from a CBOR byte stream.
pub trait CborRead {
    /// What restoration yields.
    type Value;

    /// Everything restoration promises of its result for the given bytes.
    spec fn cbor_read_post(data: Seq<u8>, r: Result<Self::Value, ToponnError>) -> bool;

    /// Restore a value from `data`.
    fn from_cbor_read(data: &[u8]) -> (r: Result<Self::Value, ToponnError>)
        ensures
            Self::cbor_read_post(data@, r),
    ;
}

impl CborWrite for Numberer {
    /// A table persists as the CBOR encoding of its labels in identifier
    /// order.
    open spec fn cbor_encoding(&self) -> Seq<u8> {
        cbor_of(self@)
    }

    fn to_cbor_write(&self, write: &mut Vec<u8>) -> (r: Result<(), ToponnError>) {
        match cbor_encode_labels(&self.values) {
            Ok(mut bytes) => {
                write.append(&mut bytes);
                Ok(())
            },
            Err(_) => {
                // The encoder is infallible for a vector of strings.
                proof {
                    assert(false);
                }
                Err(ToponnError::Io)
            },
        }
    }
}

impl CborRead for Numberer {
    type Value = Numberer;

    /// Restoring bytes that encode a distinct label sequence yields the
    /// table of exactly those labels; bytes that encode a label sequence
    /// with a repeated label are rejected as a broken bijection; and
    /// whatever the bytes were, a restored table is well formed.
    open spec fn cbor_read_post(data: Seq<u8>, r: Result<Numberer, ToponnError>) -> bool {
        &&& (r matches Ok(n) ==> n.wf())
        &&& forall|labels: Seq<Seq<char>>|
            data == cbor_of(labels) ==> if table_distinct(labels) {
                r matches Ok(n) && n@ == labels
            } else {
                r matches Err(e) && e == (ToponnError::Deserialization {
                    reason: DeserializationReason::DuplicateLabel,
                })
            }
    }

    fn from_cbor_read(data: &[u8]) -> (r: Result<Numberer, ToponnError>) {
        match cbor_decode_labels(data) {
            Ok(values) => {
                let r = Numberer::from_labels(values);
                proof {
                    assert forall|labels: Seq<Seq<char>>|
                        data@ == cbor_of(labels) implies if table_distinct(labels) {
                        r matches Ok(n) && n@ == labels
                    } else {
                        r matches Err(e) && e == (ToponnError::Deserialization {
                            reason: DeserializationReason::DuplicateLabel,
                        })
                    } by {
                        assert(values.deep_view() == labels);
                    }
                }
                r
            },
            Err(_) => {
                proof {
                    assert forall|labels: Seq<Seq<char>>|
                        data@ == cbor_of(labels) implies false by {}
                }
                Err(ToponnError::Deserialization {
                    reason: DeserializationReason::MalformedEncoding,
                })
            },
        }
    }
}

/// The round-trip law: for any well-formed table, the bytes that saving it
/// appends restore, through `from_cbor_read`'s contract, a table with the
/// identical mapping — the same labels under the same identifiers, and so
/// the same length.
pub proof fn lemma_save_load_round_trip(t: Numberer, saved: Seq<u8>, r: Result<Numberer, ToponnError>)
    requires
        t.wf(),
        saved == t.cbor_encoding(),
        <Numberer as CborRead>::cbor_read_post(saved, r),
    ensures
        r matches Ok(n) && n@ == t@ && n.wf(),
{
    assert(saved == cbor_of(t@));
}

} // verus!
