//! The trusted boundary to `serde_cbor`: the encoder and decoder that the
//! symbol table's persistence is built on, with the contracts the rest of
//! the crate proves against.

use vstd::prelude::*;

verus! {

/// The CBOR encoding of a sequence of text strings, as `serde_cbor::to_vec`
/// produces it for a vector of strings: a function of the strings alone.
pub uninterp spec fn cbor_of(labels: Seq<Seq<char>>) -> Seq<u8>;

#[verifier::external_type_specification]
#[verifier::external_body]
pub struct ExCborError(serde_cbor::Error);

/// Relies on `serde_cbor::to_vec`: for a vector of strings it writes the
/// CBOR array of those strings into a fresh buffer, a deterministic
/// function of the strings alone. It always succeeds: the buffer it writes
/// into accepts every write, and string serialization has no other failure
/// path.
#[verifier::external_body]
pub(crate) fn cbor_encode_labels(labels: &Vec<String>) -> (r: Result<Vec<u8>, serde_cbor::Error>)
    ensures
        r is Ok,
        r matches Ok(bytes) ==> bytes@ == cbor_of(labels.deep_view()),
{
    serde_cbor::to_vec(labels)
}

/// Relies on `serde_cbor::from_slice`: decoding inverts `to_vec`, so a
/// buffer that `to_vec` produced for some vector of strings decodes
/// successfully to exactly that vector.
#[verifier::external_body]
pub(crate) fn cbor_decode_labels(data: &[u8]) -> (r: Result<Vec<String>, serde_cbor::Error>)
    ensures
        r matches Ok(v) ==> forall|labels: Seq<Seq<char>>|
            data@ == cbor_of(labels) ==> v.deep_view() == labels,
        r matches Err(e) ==> forall|labels: Seq<Seq<char>>| data@ != cbor_of(labels),
{
    serde_cbor::from_slice(data)
}

} // verus!
