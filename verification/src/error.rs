//! The failures a decode can end in.

use vstd::prelude::*;

verus! {

/// Why a byte string could not be decoded.
#[derive(Debug, Clone, Copy, PartialEq, Eq)]
pub enum DecoderError {
    /// A length or an integer does not fit its target type.
    RlpIsTooBig,
    /// The bytes end before the item they announce does, or fewer items are
    /// present than the one asked for.
    RlpIsTooShort,
    /// A list was asked for and the item is a data item.
    RlpExpectedToBeList,
    /// A data item was asked for and the item is a list, or its payload is
    /// not valid for the target type.
    RlpExpectedToBeData,
    /// A container holds another number of items than the target type takes.
    RlpIncorrectListLen,
    /// A length or an integer is written with a leading zero byte.
    RlpInvalidIndirection,
    /// A constraint of one target type is broken.
    Custom(&'static str),
}

} // verus!
