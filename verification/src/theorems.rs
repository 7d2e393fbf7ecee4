//! What holds of the decoder on every input.

use vstd::prelude::*;
use vstd::utf8::{encode_utf8, encode_utf8_decode_utf8, encode_utf8_valid_utf8, valid_utf8};
use crate::error::DecoderError;
use crate::rlpin::{
    count_items, decode_items, first_item, header_of, item_at, item_count_of, list_of,
    list_payload_of, nth_item, payload_of, prototype_of,
};
use crate::traits::Decodable;

verus! {

/// The encoding of the byte string that holds the one byte `byte`: the byte
/// itself below `0x80`, and the byte behind the header `0x81` from there on.
pub open spec fn encode_byte(byte: u8) -> Seq<u8> {
    if byte < 0x80 {
        seq![byte]
    } else {
        seq![0x81u8, byte]
    }
}

/// An item whose header can be read lies within the bytes, takes one byte
/// at least, and has a header of nine bytes at most.
pub proof fn theorem_item_within_bytes(bytes: Seq<u8>)
    requires
        header_of(bytes) is Ok,
    ensures
        0 < header_of(bytes).unwrap().spec_total() <= bytes.len(),
        header_of(bytes).unwrap().header_len <= 9,
{
}

/// Bytes that begin with `0x80` decode to no value as an `Option` of any
/// type, and to no bytes as a byte string, whatever follows.
pub proof fn theorem_null_is_empty<T: Decodable>(bytes: Seq<u8>)
    requires
        bytes.len() > 0,
        bytes[0] == 0x80,
    ensures
        Option::<T>::spec_decode(bytes) == Ok::<Option<T::V>, DecoderError>(None),
        Vec::<u8>::spec_decode(bytes) == Ok::<Seq<u8>, DecoderError>(Seq::empty()),
{
    assert(payload_of(bytes).unwrap() =~= Seq::<u8>::empty());
}

/// Every byte comes back from its encoding when it is decoded as a `u8`,
/// whatever follows the encoding, and so does zero from the empty data
/// item.
pub proof fn theorem_byte_round_trip(byte: u8, rest: Seq<u8>)
    ensures
        u8::spec_decode(encode_byte(byte) + rest) == Ok::<u8, DecoderError>(byte),
        u8::spec_decode(seq![0x80u8] + rest) == Ok::<u8, DecoderError>(0u8),
{
    assert(payload_of(encode_byte(byte) + rest).unwrap() =~= seq![byte]);
    assert(payload_of(seq![0x80u8] + rest).unwrap() =~= Seq::<u8>::empty());
}

/// A `bool` decodes from the encodings of the bytes 0 and 1 alone: 0 is
/// `false`, 1 is `true`, and the encoding of every other byte fails.
pub proof fn theorem_bool_is_zero_or_one(byte: u8, rest: Seq<u8>)
    ensures
        bool::spec_decode(encode_byte(byte) + rest) is Ok <==> byte <= 1,
        byte <= 1 ==> bool::spec_decode(encode_byte(byte) + rest) == Ok::<bool, DecoderError>(
            byte == 1,
        ),
        byte > 1 ==> bool::spec_decode(encode_byte(byte) + rest) == Err::<bool, DecoderError>(
            DecoderError::Custom("invalid boolean value"),
        ),
{
    theorem_byte_round_trip(byte, rest);
}

/// Wherever a `bool` decodes, the bytes decode as a `u8` to 0 or 1.
pub proof fn theorem_bool_needs_zero_or_one(bytes: Seq<u8>)
    requires
        bool::spec_decode(bytes) is Ok,
    ensures
        u8::spec_decode(bytes) == Ok::<u8, DecoderError>(0u8) || u8::spec_decode(bytes) == Ok::<
            u8,
            DecoderError,
        >(1u8),
{
}

/// A payload of more bytes than an unsigned integer type has is too big
/// for it.
pub proof fn theorem_integer_too_big(bytes: Seq<u8>, payload: Seq<u8>)
    requires
        payload_of(bytes) == Ok::<Seq<u8>, DecoderError>(payload),
    ensures
        payload.len() > 1 ==> u8::spec_decode(bytes) == Err::<u8, DecoderError>(
            DecoderError::RlpIsTooBig,
        ),
        payload.len() > 2 ==> u16::spec_decode(bytes) == Err::<u16, DecoderError>(
            DecoderError::RlpIsTooBig,
        ),
        payload.len() > 4 ==> u32::spec_decode(bytes) == Err::<u32, DecoderError>(
            DecoderError::RlpIsTooBig,
        ),
        payload.len() > 8 ==> u64::spec_decode(bytes) == Err::<u64, DecoderError>(
            DecoderError::RlpIsTooBig,
        ),
        payload.len() > 16 ==> u128::spec_decode(bytes) == Err::<u128, DecoderError>(
            DecoderError::RlpIsTooBig,
        ),
        payload.len() > vstd::layout::size_of::<usize>() ==> usize::spec_decode(bytes) == Err::<
            usize,
            DecoderError,
        >(DecoderError::RlpIsTooBig),
{
}

/// A payload of two bytes or more that an unsigned integer type has room
/// for, and that begins with a zero byte, is an invalid indirection.
pub proof fn theorem_integer_leading_zero(bytes: Seq<u8>, payload: Seq<u8>)
    requires
        payload_of(bytes) == Ok::<Seq<u8>, DecoderError>(payload),
        payload.len() > 1,
        payload[0] == 0,
    ensures
        payload.len() <= 2 ==> u16::spec_decode(bytes) == Err::<u16, DecoderError>(
            DecoderError::RlpInvalidIndirection,
        ),
        payload.len() <= 4 ==> u32::spec_decode(bytes) == Err::<u32, DecoderError>(
            DecoderError::RlpInvalidIndirection,
        ),
        payload.len() <= 8 ==> u64::spec_decode(bytes) == Err::<u64, DecoderError>(
            DecoderError::RlpInvalidIndirection,
        ),
        payload.len() <= 16 ==> u128::spec_decode(bytes) == Err::<u128, DecoderError>(
            DecoderError::RlpInvalidIndirection,
        ),
        payload.len() <= vstd::layout::size_of::<usize>() ==> usize::spec_decode(bytes) == Err::<
            usize,
            DecoderError,
        >(DecoderError::RlpInvalidIndirection),
{
}

/// Where the items that tile a payload can be counted, each place below
/// the count holds an item, and every place from the count on is past the
/// end.
pub proof fn lemma_count_bounds_nth(payload: Seq<u8>, index: nat)
    requires
        count_items(payload) is Ok,
    ensures
        index < count_items(payload).unwrap() ==> nth_item(payload, index) is Ok,
        index >= count_items(payload).unwrap() ==> nth_item(payload, index) == Err::<
            Seq<u8>,
            DecoderError,
        >(DecoderError::RlpIsTooShort),
    decreases payload.len(),
{
    if payload.len() > 0 {
        let rest = first_item(payload).unwrap().1;
        if index > 0 {
            lemma_count_bounds_nth(rest, (index - 1) as nat);
        }
    }
}

/// Where the items of a view can be counted, `at` finds an item at each
/// place below the count, and at the count and beyond it fails because the
/// bytes are too short.
pub proof fn theorem_item_count_bounds_at(bytes: Seq<u8>, index: nat)
    requires
        item_count_of(bytes) is Ok,
    ensures
        index < item_count_of(bytes).unwrap() ==> item_at(bytes, index) is Ok,
        index >= item_count_of(bytes).unwrap() ==> item_at(bytes, index) == Err::<
            Seq<u8>,
            DecoderError,
        >(DecoderError::RlpIsTooShort),
{
    if prototype_of(bytes).unwrap() is List {
        lemma_count_bounds_nth(list_payload_of(bytes).unwrap(), index);
    }
}

/// No more items tile a payload than it has bytes: each takes one at least.
pub proof fn lemma_count_within_length(payload: Seq<u8>)
    requires
        count_items(payload) is Ok,
    ensures
        count_items(payload).unwrap() <= payload.len(),
    decreases payload.len(),
{
    if payload.len() > 0 {
        lemma_count_within_length(first_item(payload).unwrap().1);
    }
}

/// A view holds no more items than it has bytes, so that a walk over them
/// ends within as many steps.
pub proof fn theorem_item_count_within_length(bytes: Seq<u8>)
    requires
        item_count_of(bytes) is Ok,
    ensures
        item_count_of(bytes).unwrap() <= bytes.len(),
{
    if prototype_of(bytes).unwrap() is List {
        lemma_count_within_length(list_payload_of(bytes).unwrap());
    }
}

/// Where the items that tile a payload all decode as a `T`, there is one
/// value for each item, and the value at each place is what the item at
/// that place decodes to.
pub proof fn lemma_items_decode_place_by_place<T: Decodable>(payload: Seq<u8>, index: nat)
    requires
        decode_items::<T>(payload) is Ok,
    ensures
        count_items(payload) == Ok::<nat, DecoderError>(
            decode_items::<T>(payload).unwrap().len(),
        ),
        index < decode_items::<T>(payload).unwrap().len() ==> nth_item(payload, index) is Ok
            && T::spec_decode(nth_item(payload, index).unwrap()) == Ok::<T::V, DecoderError>(
            decode_items::<T>(payload).unwrap()[index as int],
        ),
    decreases payload.len(),
{
    if payload.len() > 0 {
        let rest = first_item(payload).unwrap().1;
        lemma_items_decode_place_by_place::<T>(rest, (index - 1) as nat);
    }
}

/// Where a view decodes as a list of `T`, the list has as many values as
/// the view has items, and the value at each place is what `at` of that
/// place decodes to.
pub proof fn theorem_list_follows_at<T: Decodable>(bytes: Seq<u8>, index: nat)
    requires
        list_of::<T>(bytes) is Ok,
    ensures
        item_count_of(bytes) == Ok::<nat, DecoderError>(list_of::<T>(bytes).unwrap().len()),
        index < list_of::<T>(bytes).unwrap().len() ==> item_at(bytes, index) is Ok
            && T::spec_decode(item_at(bytes, index).unwrap()) == Ok::<T::V, DecoderError>(
            list_of::<T>(bytes).unwrap()[index as int],
        ),
{
    lemma_items_decode_place_by_place::<T>(list_payload_of(bytes).unwrap(), index);
}

/// Text comes back as it was from a payload that is its UTF-8 encoding.
pub proof fn theorem_text_round_trip(bytes: Seq<u8>, text: Seq<char>)
    requires
        payload_of(bytes) == Ok::<Seq<u8>, DecoderError>(encode_utf8(text)),
    ensures
        String::spec_decode(bytes) == Ok::<Seq<char>, DecoderError>(text),
{
    encode_utf8_valid_utf8(text);
    encode_utf8_decode_utf8(text);
}

/// A payload that is not valid UTF-8 is no text: data was expected.
pub proof fn theorem_invalid_text(bytes: Seq<u8>, payload: Seq<u8>)
    requires
        payload_of(bytes) == Ok::<Seq<u8>, DecoderError>(payload),
        !valid_utf8(payload),
    ensures
        String::spec_decode(bytes) == Err::<Seq<char>, DecoderError>(
            DecoderError::RlpExpectedToBeData,
        ),
{
}

} // verus!
