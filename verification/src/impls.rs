//! Decoding of the primitive types: what each of them makes of a payload.

use vstd::prelude::*;
use vstd::arithmetic::power::{lemma_pow0, lemma_pow_increases, pow};
use vstd::layout::{layout_of_primitives, unsigned_int_max_values};
use vstd::slice::slice_to_vec;
use vstd::string::StringSliceAdditionalSpecFns;
use vstd::utf8::{decode_utf8, encode_utf8_decode_utf8, valid_utf8};
use crate::error::DecoderError;
use crate::rlpin::{item_at, item_count_of, payload_of, Rlp};
use crate::traits::{decoded, Decodable};

verus! {

/// The error of `core::str::from_utf8`. Nothing is read from it.
#[verifier::external_type_specification]
#[verifier::external_body]
pub struct ExUtf8Error(core::str::Utf8Error);

/// `core::str::from_utf8` succeeds on the byte strings that are valid
/// UTF-8 and on no others, and the text it gives is made of those bytes.
pub assume_specification[ core::str::from_utf8 ](v: &[u8]) -> (r: Result<
    &str,
    core::str::Utf8Error,
>)
    ensures
        r is Ok <==> valid_utf8(v@),
        r matches Ok(text) ==> text.spec_bytes() == v@,
;

/// The number that `bytes` spell, most significant byte first. No bytes
/// spell zero.
pub open spec fn be_value(bytes: Seq<u8>) -> nat
    decreases bytes.len(),
{
    if bytes.len() == 0 {
        0
    } else {
        be_value(bytes.drop_last()) * 256 + bytes.last() as nat
    }
}

/// What [`decode_usize`] makes of `bytes`: more bytes than a `usize` has
/// are too big, a leading zero byte is an invalid indirection, and all else
/// is the number that the bytes spell.
pub open spec fn usize_of_bytes(bytes: Seq<u8>) -> Result<usize, DecoderError> {
    if bytes.len() > vstd::layout::size_of::<usize>() {
        Err(DecoderError::RlpIsTooBig)
    } else if bytes.len() > 0 && bytes[0] == 0 {
        Err(DecoderError::RlpInvalidIndirection)
    } else {
        Ok(be_value(bytes) as usize)
    }
}

/// What the one-byte integer type reads from a payload: nothing is zero,
/// one byte is itself, the zero byte too, and more is too big.
pub open spec fn byte_of_payload(payload: Seq<u8>) -> Result<u8, DecoderError> {
    if payload.len() == 0 {
        Ok(0u8)
    } else if payload.len() == 1 {
        Ok(payload[0])
    } else {
        Err(DecoderError::RlpIsTooBig)
    }
}

/// What an unsigned integer type of `width` bytes, two or more, reads from
/// a payload: nothing is zero, more than `width` bytes are too big, a
/// leading zero byte is an invalid indirection, and all else is the number
/// that the bytes spell.
pub open spec fn uint_of_payload(payload: Seq<u8>, width: nat) -> Result<nat, DecoderError> {
    if payload.len() == 0 {
        Ok(0nat)
    } else if payload.len() > width {
        Err(DecoderError::RlpIsTooBig)
    } else if payload[0] == 0 {
        Err(DecoderError::RlpInvalidIndirection)
    } else {
        Ok(be_value(payload))
    }
}

/// What a `bool` is read from: the byte 0 is `false`, the byte 1 is `true`,
/// and no other byte is a `bool`.
pub open spec fn bool_of_byte(byte: u8) -> Result<bool, DecoderError> {
    if byte == 0 {
        Ok(false)
    } else if byte == 1 {
        Ok(true)
    } else {
        Err(DecoderError::Custom("invalid boolean value"))
    }
}

/// What text reads from a payload: the characters that valid UTF-8 spells.
/// Other bytes are not the data that was expected.
pub open spec fn text_of_payload(payload: Seq<u8>) -> Result<Seq<char>, DecoderError> {
    if valid_utf8(payload) {
        Ok(decode_utf8(payload))
    } else {
        Err(DecoderError::RlpExpectedToBeData)
    }
}

/// `n` bytes spell a number below `256^n`.
pub proof fn lemma_be_value_bound(bytes: Seq<u8>)
    ensures
        be_value(bytes) < pow(256, bytes.len()),
    decreases bytes.len(),
{
    reveal(pow);
    if bytes.len() > 0 {
        lemma_be_value_bound(bytes.drop_last());
    }
}

/// One more byte at the end multiplies by 256 and adds that byte.
proof fn lemma_be_value_step(bytes: Seq<u8>, i: int)
    requires
        0 <= i < bytes.len(),
    ensures
        be_value(bytes.take(i + 1)) == be_value(bytes.take(i)) * 256 + bytes[i] as nat,
{
    assert(bytes.take(i + 1).drop_last() =~= bytes.take(i));
}

/// The widths of the integer types, as powers of 256.
proof fn lemma_pow256_widths()
    ensures
        pow(256, 2) == 0x1_0000,
        pow(256, 4) == 0x1_0000_0000,
        pow(256, 8) == 0x1_0000_0000_0000_0000,
        pow(256, 16) == 0x1_0000_0000_0000_0000_0000_0000_0000_0000,
{
    reveal_with_fuel(pow, 17);
}

/// The bytes that pass [`usize_of_bytes`] spell a number that a `usize`
/// holds.
pub proof fn lemma_usize_of_bytes_fits(bytes: Seq<u8>)
    requires
        bytes.len() <= vstd::layout::size_of::<usize>(),
    ensures
        be_value(bytes) <= usize::MAX,
{
    broadcast use layout_of_primitives;

    lemma_be_value_bound(bytes);
    lemma_pow_increases(256, bytes.len(), vstd::layout::size_of::<usize>());
    unsigned_int_max_values();
}

/// What [`uint_of_payload`] reads fits `width` bytes.
pub proof fn lemma_uint_of_payload_fits(payload: Seq<u8>, width: nat)
    requires
        uint_of_payload(payload, width) is Ok,
    ensures
        uint_of_payload(payload, width).unwrap() < pow(256, width),
{
    lemma_be_value_bound(payload);
    lemma_pow_increases(256, payload.len(), width);
    if payload.len() == 0 {
        reveal(pow);
        lemma_pow0(256);
    }
}

/// Reads up to sixteen bytes as one number, most significant byte first.
fn be_uint(bytes: &[u8]) -> (value: u128)
    requires
        bytes@.len() <= 16,
    ensures
        value == be_value(bytes@),
{
    let mut value: u128 = 0;
    let mut i: usize = 0;
    while i < bytes.len()
        invariant
            i <= bytes@.len() <= 16,
            value == be_value(bytes@.take(i as int)),
        decreases bytes@.len() - i,
    {
        proof {
            lemma_be_value_step(bytes@, i as int);
            lemma_be_value_bound(bytes@.take(i + 1));
            lemma_pow_increases(256, (i + 1) as nat, 16);
            lemma_pow256_widths();
        }
        value = value * 256 + bytes[i] as u128;
        i += 1;
    }
    assert(bytes@.take(i as int) =~= bytes@);
    value
}

/// Decodes a length field: a big-endian number without leading zero byte
/// that must fit a `usize`.
pub fn decode_usize(bytes: &[u8]) -> (r: Result<usize, DecoderError>)
    ensures
        r == usize_of_bytes(bytes@),
{
    broadcast use layout_of_primitives;

    let l = bytes.len();
    if l > core::mem::size_of::<usize>() {
        return Err(DecoderError::RlpIsTooBig);
    }
    if l > 0 && bytes[0] == 0 {
        return Err(DecoderError::RlpInvalidIndirection);
    }
    proof {
        lemma_usize_of_bytes_fits(bytes@);
    }
    Ok(be_uint(bytes) as usize)
}

/// Reads a payload as an unsigned integer of `width` bytes, by the rule of
/// the types wider than one byte.
fn decode_uint(payload: &[u8], width: usize) -> (r: Result<u128, DecoderError>)
    requires
        width <= 16,
    ensures
        match r {
            Ok(value) => uint_of_payload(payload@, width as nat) == Ok::<nat, DecoderError>(
                value as nat,
            ),
            Err(e) => uint_of_payload(payload@, width as nat) == Err::<nat, DecoderError>(e),
        },
{
    let l = payload.len();
    if l == 0 {
        Ok(0)
    } else if l > width {
        Err(DecoderError::RlpIsTooBig)
    } else if payload[0] == 0 {
        Err(DecoderError::RlpInvalidIndirection)
    } else {
        Ok(be_uint(payload))
    }
}

/// Reads a payload as a `u8`.
pub fn byte_from_payload(payload: &[u8]) -> (r: Result<u8, DecoderError>)
    ensures
        r == byte_of_payload(payload@),
{
    if payload.len() == 0 {
        Ok(0)
    } else if payload.len() == 1 {
        Ok(payload[0])
    } else {
        Err(DecoderError::RlpIsTooBig)
    }
}

/// Reads a payload as a `u16`.
pub fn u16_from_payload(payload: &[u8]) -> (r: Result<u16, DecoderError>)
    ensures
        match r {
            Ok(value) => uint_of_payload(payload@, 2) == Ok::<nat, DecoderError>(value as nat),
            Err(e) => uint_of_payload(payload@, 2) == Err::<nat, DecoderError>(e),
        },
{
    match decode_uint(payload, 2) {
        Ok(value) => {
            proof {
                lemma_uint_of_payload_fits(payload@, 2);
                lemma_pow256_widths();
            }
            Ok(value as u16)
        },
        Err(e) => Err(e),
    }
}

/// Reads a payload as a `u32`.
pub fn u32_from_payload(payload: &[u8]) -> (r: Result<u32, DecoderError>)
    ensures
        match r {
            Ok(value) => uint_of_payload(payload@, 4) == Ok::<nat, DecoderError>(value as nat),
            Err(e) => uint_of_payload(payload@, 4) == Err::<nat, DecoderError>(e),
        },
{
    match decode_uint(payload, 4) {
        Ok(value) => {
            proof {
                lemma_uint_of_payload_fits(payload@, 4);
                lemma_pow256_widths();
            }
            Ok(value as u32)
        },
        Err(e) => Err(e),
    }
}

/// Reads a payload as a `u64`.
pub fn u64_from_payload(payload: &[u8]) -> (r: Result<u64, DecoderError>)
    ensures
        match r {
            Ok(value) => uint_of_payload(payload@, 8) == Ok::<nat, DecoderError>(value as nat),
            Err(e) => uint_of_payload(payload@, 8) == Err::<nat, DecoderError>(e),
        },
{
    match decode_uint(payload, 8) {
        Ok(value) => {
            proof {
                lemma_uint_of_payload_fits(payload@, 8);
                lemma_pow256_widths();
            }
            Ok(value as u64)
        },
        Err(e) => Err(e),
    }
}

/// Reads a payload as a `u128`.
pub fn u128_from_payload(payload: &[u8]) -> (r: Result<u128, DecoderError>)
    ensures
        match r {
            Ok(value) => uint_of_payload(payload@, 16) == Ok::<nat, DecoderError>(value as nat),
            Err(e) => uint_of_payload(payload@, 16) == Err::<nat, DecoderError>(e),
        },
{
    decode_uint(payload, 16)
}

/// Reads a payload as a `usize`, an integer of as many bytes as the
/// machine word has.
pub fn usize_from_payload(payload: &[u8]) -> (r: Result<usize, DecoderError>)
    ensures
        match r {
            Ok(value) => uint_of_payload(payload@, vstd::layout::size_of::<usize>()) == Ok::<
                nat,
                DecoderError,
            >(value as nat),
            Err(e) => uint_of_payload(payload@, vstd::layout::size_of::<usize>()) == Err::<
                nat,
                DecoderError,
            >(e),
        },
{
    broadcast use layout_of_primitives;

    match decode_uint(payload, core::mem::size_of::<usize>()) {
        Ok(value) => {
            proof {
                lemma_uint_of_payload_fits(payload@, vstd::layout::size_of::<usize>());
                unsigned_int_max_values();
            }
            Ok(value as usize)
        },
        Err(e) => Err(e),
    }
}

/// Reads a byte as a `bool`.
pub fn bool_from_byte(byte: u8) -> (r: Result<bool, DecoderError>)
    ensures
        r == bool_of_byte(byte),
{
    match byte {
        0 => Ok(false),
        1 => Ok(true),
        _ => Err(DecoderError::Custom("invalid boolean value")),
    }
}

/// Copies a payload into a byte string of its own.
pub fn bytes_from_payload(payload: &[u8]) -> (r: Result<Vec<u8>, DecoderError>)
    ensures
        decoded(r) == Ok::<Seq<u8>, DecoderError>(payload@),
{
    let owned = slice_to_vec(payload);
    assert(owned.deep_view() =~= payload@);
    Ok(owned)
}

/// Reads a payload as text.
pub fn text_from_payload(payload: &[u8]) -> (r: Result<String, DecoderError>)
    ensures
        decoded(r) == text_of_payload(payload@),
{
    match core::str::from_utf8(payload) {
        Ok(text) => {
            proof {
                encode_utf8_decode_utf8(text@);
            }
            Ok(text.to_owned())
        },
        Err(_) => Err(DecoderError::RlpExpectedToBeData),
    }
}

impl Decodable for u8 {
    open spec fn spec_decode(bytes: Seq<u8>) -> Result<u8, DecoderError> {
        match payload_of(bytes) {
            Ok(payload) => byte_of_payload(payload),
            Err(e) => Err(e),
        }
    }

    fn decode(rlp: &Rlp) -> (r: Result<u8, DecoderError>) {
        rlp.decoder().decode_value(byte_from_payload)
    }
}

impl Decodable for bool {
    /// A `bool` is read as a `u8` is, and must then be 0 or 1.
    open spec fn spec_decode(bytes: Seq<u8>) -> Result<bool, DecoderError> {
        match u8::spec_decode(bytes) {
            Ok(byte) => bool_of_byte(byte),
            Err(e) => Err(e),
        }
    }

    fn decode(rlp: &Rlp) -> (r: Result<bool, DecoderError>) {
        match u8::decode(rlp) {
            Ok(byte) => bool_from_byte(byte),
            Err(e) => Err(e),
        }
    }
}

impl Decodable for u16 {
    open spec fn spec_decode(bytes: Seq<u8>) -> Result<u16, DecoderError> {
        match payload_of(bytes) {
            Ok(payload) => match uint_of_payload(payload, 2) {
                Ok(value) => Ok(value as u16),
                Err(e) => Err(e),
            },
            Err(e) => Err(e),
        }
    }

    fn decode(rlp: &Rlp) -> (r: Result<u16, DecoderError>) {
        rlp.decoder().decode_value(u16_from_payload)
    }
}

impl Decodable for u32 {
    open spec fn spec_decode(bytes: Seq<u8>) -> Result<u32, DecoderError> {
        match payload_of(bytes) {
            Ok(payload) => match uint_of_payload(payload, 4) {
                Ok(value) => Ok(value as u32),
                Err(e) => Err(e),
            },
            Err(e) => Err(e),
        }
    }

    fn decode(rlp: &Rlp) -> (r: Result<u32, DecoderError>) {
        rlp.decoder().decode_value(u32_from_payload)
    }
}

impl Decodable for u64 {
    open spec fn spec_decode(bytes: Seq<u8>) -> Result<u64, DecoderError> {
        match payload_of(bytes) {
            Ok(payload) => match uint_of_payload(payload, 8) {
                Ok(value) => Ok(value as u64),
                Err(e) => Err(e),
            },
            Err(e) => Err(e),
        }
    }

    fn decode(rlp: &Rlp) -> (r: Result<u64, DecoderError>) {
        rlp.decoder().decode_value(u64_from_payload)
    }
}

impl Decodable for u128 {
    open spec fn spec_decode(bytes: Seq<u8>) -> Result<u128, DecoderError> {
        match payload_of(bytes) {
            Ok(payload) => match uint_of_payload(payload, 16) {
                Ok(value) => Ok(value as u128),
                Err(e) => Err(e),
            },
            Err(e) => Err(e),
        }
    }

    fn decode(rlp: &Rlp) -> (r: Result<u128, DecoderError>) {
        rlp.decoder().decode_value(u128_from_payload)
    }
}

impl Decodable for usize {
    open spec fn spec_decode(bytes: Seq<u8>) -> Result<usize, DecoderError> {
        match payload_of(bytes) {
            Ok(payload) => match uint_of_payload(payload, vstd::layout::size_of::<usize>()) {
                Ok(value) => Ok(value as usize),
                Err(e) => Err(e),
            },
            Err(e) => Err(e),
        }
    }

    fn decode(rlp: &Rlp) -> (r: Result<usize, DecoderError>) {
        rlp.decoder().decode_value(usize_from_payload)
    }
}

impl Decodable for Vec<u8> {
    open spec fn spec_decode(bytes: Seq<u8>) -> Result<Seq<u8>, DecoderError> {
        payload_of(bytes)
    }

    fn decode(rlp: &Rlp) -> (r: Result<Vec<u8>, DecoderError>) {
        rlp.decoder().decode_value(bytes_from_payload)
    }
}

impl Decodable for String {
    open spec fn spec_decode(bytes: Seq<u8>) -> Result<Seq<char>, DecoderError> {
        match payload_of(bytes) {
            Ok(payload) => text_of_payload(payload),
            Err(e) => Err(e),
        }
    }

    fn decode(rlp: &Rlp) -> (r: Result<String, DecoderError>) {
        rlp.decoder().decode_value(text_from_payload)
    }
}

impl<T: Decodable> Decodable for Option<T> {
    /// No item is `None`, one item is `Some` of what it decodes to, and
    /// more are an incorrect count.
    open spec fn spec_decode(bytes: Seq<u8>) -> Result<Option<T::V>, DecoderError> {
        match item_count_of(bytes) {
            Ok(count) => if count == 0 {
                Ok(None)
            } else if count == 1 {
                match item_at(bytes, 0) {
                    Ok(item) => match T::spec_decode(item) {
                        Ok(value) => Ok(Some(value)),
                        Err(e) => Err(e),
                    },
                    Err(e) => Err(e),
                }
            } else {
                Err(DecoderError::RlpIncorrectListLen)
            },
            Err(e) => Err(e),
        }
    }

    fn decode(rlp: &Rlp) -> (r: Result<Option<T>, DecoderError>) {
        match rlp.item_count() {
            Ok(0) => Ok(None),
            Ok(1) => match rlp.val_at::<T>(0) {
                Ok(value) => Ok(Some(value)),
                Err(e) => Err(e),
            },
            Ok(_) => Err(DecoderError::RlpIncorrectListLen),
            Err(e) => Err(e),
        }
    }
}

impl<T: Decodable> Decodable for Box<T> {
    /// A box holds what its content decodes to.
    open spec fn spec_decode(bytes: Seq<u8>) -> Result<T::V, DecoderError> {
        T::spec_decode(bytes)
    }

    fn decode(rlp: &Rlp) -> (r: Result<Box<T>, DecoderError>) {
        match T::decode(rlp) {
            Ok(value) => Ok(Box::new(value)),
            Err(e) => Err(e),
        }
    }
}

} // verus!
