//! The serialised form of an operation, as it stands in the transaction log.
//!
//! MessagePack encoding and decoding are done by `rmp_serde` and are not
//! verified. What is relied on is that both are functions of their argument
//! alone: the same operation always gives the same bytes or always fails, and
//! the same bytes always give the same operation or always fail. Nothing is
//! claimed of what the bytes look like, nor that decoding undoes encoding.

use vstd::prelude::*;
use rustdb::GenQuery;

verus! {

/// The operation that the engine runs: the statement and its context.
#[verifier::external_type_specification]
#[verifier::external_body]
pub struct ExGenQuery(rustdb::GenQuery);

/// The failure of `rmp_serde` to encode.
#[verifier::external_type_specification]
#[verifier::external_body]
pub struct ExEncodeError(rmp_serde::encode::Error);

/// The failure of `rmp_serde` to decode.
#[verifier::external_type_specification]
#[verifier::external_body]
pub struct ExDecodeError(rmp_serde::decode::Error);

/// Why an operation could not be turned into a log entry or back.
#[derive(Clone, Copy, Debug, PartialEq, Eq, Structural)]
pub enum CodecError {
    /// The operation could not be serialised.
    Encode,
    /// The bytes are not a serialised operation.
    Decode,
}

/// The MessagePack bytes that `rmp_serde::to_vec` gives for an operation, if
/// it gives any.
pub uninterp spec fn packed(query: GenQuery) -> Option<Seq<u8>>;

/// The operation that `rmp_serde::from_slice` reads from bytes, if it reads one.
pub uninterp spec fn unpacked(bytes: Seq<u8>) -> Option<GenQuery>;

/// `rmp_serde::to_vec`: the operation as MessagePack bytes in the compact
/// form, or the encoder's failure. Which of the two, and which bytes,
/// depends on the operation alone.
#[verifier::external_body]
fn to_msgpack(query: &GenQuery) -> (r: Result<Vec<u8>, rmp_serde::encode::Error>)
    ensures
        r matches Ok(bytes) ==> packed(*query) == Some(bytes@),
        r is Err ==> packed(*query) is None,
{
    rmp_serde::to_vec(query)
}

/// `rmp_serde::from_slice`: the operation that the bytes encode, or the
/// decoder's failure. Which of the two, and which operation, depends on the
/// bytes alone.
#[verifier::external_body]
fn from_msgpack(bytes: &[u8]) -> (r: Result<GenQuery, rmp_serde::decode::Error>)
    ensures
        r matches Ok(query) ==> unpacked(bytes@) == Some(query),
        r is Err ==> unpacked(bytes@) is None,
{
    rmp_serde::from_slice(bytes)
}

/// Serialises an operation for the log: the operation's packed form, or
/// `CodecError::Encode` where it has none.
pub fn encode_operation(query: &GenQuery) -> (r: Result<Vec<u8>, CodecError>)
    ensures
        match r {
            Ok(entry) => packed(*query) == Some(entry@),
            Err(error) => error == CodecError::Encode && packed(*query) is None,
        },
{
    match to_msgpack(query) {
        Ok(entry) => Ok(entry),
        Err(_) => Err(CodecError::Encode),
    }
}

/// Reads an operation back from a log entry: the operation that the entry
/// unpacks to, or `CodecError::Decode` where it unpacks to none.
pub fn decode_operation(entry: &Vec<u8>) -> (r: Result<GenQuery, CodecError>)
    ensures
        match r {
            Ok(query) => unpacked(entry@) == Some(query),
            Err(error) => error == CodecError::Decode && unpacked(entry@) is None,
        },
{
    match from_msgpack(entry.as_slice()) {
        Ok(query) => Ok(query),
        Err(_) => Err(CodecError::Decode),
    }
}

} // verus!
