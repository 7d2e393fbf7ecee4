//! The trait of the types that can be decoded.

use vstd::prelude::*;
use crate::error::DecoderError;
use crate::rlpin::Rlp;

verus! {

/// A result with the deep view of what was decoded in place of the value.
pub open spec fn decoded<T: DeepView>(r: Result<T, DecoderError>) -> Result<T::V, DecoderError> {
    match r {
        Ok(value) => Ok(value.deep_view()),
        Err(e) => Err(e),
    }
}

/// A type whose values can be read from one encoded item.
pub trait Decodable: Sized + DeepView {
    /// What decoding the item at the front of `bytes` gives: the deep view
    /// of the value, or the failure.
    spec fn spec_decode(bytes: Seq<u8>) -> Result<<Self as DeepView>::V, DecoderError>;

    /// Decodes the item that `rlp` views.
    fn decode(rlp: &Rlp) -> (r: Result<Self, DecoderError>)
        ensures
            decoded(r) == Self::spec_decode(rlp@),
    ;
}

} // verus!
