//! Decoder for the recursive length prefix (RLP) serialization: byte
//! strings and lists of items, each behind a header that tells its shape
//! and its length.
//!
//! [`decode`] reads one value from a byte slice. [`Rlp`] is a view onto an
//! encoded item that is inspected piece by piece, and reports malformed
//! bytes as a [`DecoderError`].

use vstd::prelude::*;
use vstd::pervasive::unreached;

pub mod error;
pub mod impls;
pub mod rlpin;
pub mod theorems;
pub mod traits;

pub use error::DecoderError;
pub use impls::decode_usize;
pub use rlpin::{BasicDecoder, PayloadInfo, Prototype, Rlp, RlpIterator};
pub use traits::Decodable;
use rlpin::list_of;
use traits::decoded;

verus! {

/// The encoding of the empty data item, used to mean "no value".
pub const NULL_RLP: [u8; 1] = [0x80];

/// The encoding of the empty list.
pub const EMPTY_LIST_RLP: [u8; 1] = [0xC0];

/// Decodes the item at the front of `bytes` as a `T`. Bytes behind that
/// item are not looked at.
pub fn decode<T: Decodable>(bytes: &[u8]) -> (r: Result<T, DecoderError>)
    ensures
        decoded(r) == T::spec_decode(bytes@),
{
    let rlp = Rlp::new(bytes);
    rlp.as_val()
}

/// Decodes every item of the list at the front of `bytes` as a `T`.
///
/// This is for bytes that are known to hold such a list; on others a
/// caller that proves nothing panics. For bytes of unknown origin, use
/// [`Rlp::as_list`], which reports what is wrong.
pub fn decode_list<T: Decodable>(bytes: &[u8]) -> (values: Vec<T>)
    requires
        list_of::<T>(bytes@) is Ok,
    ensures
        list_of::<T>(bytes@) == Ok::<Seq<T::V>, DecoderError>(values.deep_view()),
{
    let rlp = Rlp::new(bytes);
    match rlp.as_list() {
        Ok(values) => values,
        Err(_) => unreached(),
    }
}

} // verus!
