//! The view onto one encoded item: its header, its shape and its parts.

use vstd::prelude::*;
use vstd::slice::slice_subrange;
use crate::error::DecoderError;
use crate::impls::{decode_usize, usize_of_bytes};
use crate::traits::{decoded, Decodable};

verus! {

/// Where the payload of an item lies: how many bytes its header takes and
/// how many its payload.
#[derive(Debug, Clone, Copy, PartialEq, Eq, Structural)]
pub struct PayloadInfo {
    /// Header length in bytes.
    pub header_len: usize,
    /// Payload length in bytes.
    pub value_len: usize,
}

/// The shape of an item.
#[derive(Debug, Clone, Copy, PartialEq, Eq, Structural)]
pub enum Prototype {
    /// The empty data item.
    Null,
    /// A byte string of that many bytes.
    Data(usize),
    /// A list whose items take that many bytes together.
    List(usize),
}

/// A header of `header_len` bytes before a payload of `value_len` bytes,
/// if `bytes` hold both.
pub open spec fn bounded_header(bytes: Seq<u8>, header_len: usize, value_len: usize) -> Result<
    PayloadInfo,
    DecoderError,
> {
    if header_len + value_len <= bytes.len() {
        Ok(PayloadInfo { header_len, value_len })
    } else {
        Err(DecoderError::RlpIsTooShort)
    }
}

/// The header of a long item, whose first byte is followed by a length
/// field of `len_of_len` bytes.
pub open spec fn long_header(bytes: Seq<u8>, len_of_len: usize) -> Result<
    PayloadInfo,
    DecoderError,
> {
    if bytes.len() < 1 + len_of_len {
        Err(DecoderError::RlpIsTooShort)
    } else {
        match usize_of_bytes(bytes.subrange(1, 1 + len_of_len)) {
            Ok(value_len) => bounded_header(bytes, (1 + len_of_len) as usize, value_len),
            Err(e) => Err(e),
        }
    }
}

/// The header of the item at the front of `bytes`.
///
/// | first byte  | item        | header          | payload                 |
/// |-------------|-------------|-----------------|-------------------------|
/// | `00..=7f`   | single byte | none            | that byte               |
/// | `80..=b7`   | short data  | 1 byte          | `b - 0x80` bytes        |
/// | `b8..=bf`   | long data   | `1 + b - 0xb7`  | as the length field says |
/// | `c0..=f7`   | short list  | 1 byte          | `b - 0xc0` bytes        |
/// | `f8..=ff`   | long list   | `1 + b - 0xf7`  | as the length field says |
///
/// No bytes, a length field cut short and a payload cut short are too
/// short; a length field is read as [`usize_of_bytes`] says.
pub open spec fn header_of(bytes: Seq<u8>) -> Result<PayloadInfo, DecoderError> {
    if bytes.len() == 0 {
        Err(DecoderError::RlpIsTooShort)
    } else if bytes[0] <= 0x7f {
        bounded_header(bytes, 0, 1)
    } else if bytes[0] <= 0xb7 {
        bounded_header(bytes, 1, (bytes[0] - 0x80) as usize)
    } else if bytes[0] <= 0xbf {
        long_header(bytes, (bytes[0] - 0xb7) as usize)
    } else if bytes[0] <= 0xf7 {
        bounded_header(bytes, 1, (bytes[0] - 0xc0) as usize)
    } else {
        long_header(bytes, (bytes[0] - 0xf7) as usize)
    }
}

/// Whether the item at the front of `bytes` is a list: the first byte says.
pub open spec fn starts_list(bytes: Seq<u8>) -> bool {
    bytes.len() > 0 && bytes[0] >= 0xc0
}

/// The shape of the item at the front of `bytes`.
pub open spec fn prototype_of(bytes: Seq<u8>) -> Result<Prototype, DecoderError> {
    match header_of(bytes) {
        Ok(info) => if starts_list(bytes) {
            Ok(Prototype::List(info.value_len))
        } else if bytes[0] == 0x80 {
            Ok(Prototype::Null)
        } else {
            Ok(Prototype::Data(info.value_len))
        },
        Err(e) => Err(e),
    }
}

impl PayloadInfo {
    /// The bytes that header and payload take together.
    pub open spec fn spec_total(&self) -> int {
        self.header_len + self.value_len
    }

    /// The bytes that header and payload take together.
    pub fn total(&self) -> (t: usize)
        requires
            self.spec_total() <= usize::MAX,
        ensures
            t == self.spec_total(),
    {
        self.header_len + self.value_len
    }

    /// Reads the header of a long item, whose length field has
    /// `len_of_len` bytes.
    fn parse_long(bytes: &[u8], len_of_len: usize) -> (r: Result<PayloadInfo, DecoderError>)
        requires
            1 <= len_of_len <= 8,
        ensures
            r == long_header(bytes@, len_of_len),
    {
        let header_len = 1 + len_of_len;
        if bytes.len() < header_len {
            return Err(DecoderError::RlpIsTooShort);
        }
        match decode_usize(slice_subrange(bytes, 1, header_len)) {
            Ok(value_len) => {
                if value_len <= bytes.len() - header_len {
                    Ok(PayloadInfo { header_len, value_len })
                } else {
                    Err(DecoderError::RlpIsTooShort)
                }
            },
            Err(e) => Err(e),
        }
    }

    /// Reads the header of the item at the front of `bytes`. The item it
    /// tells of lies within `bytes`.
    pub fn parse(bytes: &[u8]) -> (r: Result<PayloadInfo, DecoderError>)
        ensures
            r == header_of(bytes@),
            r matches Ok(info) ==> 0 < info.spec_total() <= bytes@.len(),
    {
        if bytes.len() == 0 {
            return Err(DecoderError::RlpIsTooShort);
        }
        let first = bytes[0];
        if first <= 0x7f {
            Ok(PayloadInfo { header_len: 0, value_len: 1 })
        } else if first <= 0xb7 {
            let value_len = (first - 0x80) as usize;
            if value_len <= bytes.len() - 1 {
                Ok(PayloadInfo { header_len: 1, value_len })
            } else {
                Err(DecoderError::RlpIsTooShort)
            }
        } else if first <= 0xbf {
            Self::parse_long(bytes, (first - 0xb7) as usize)
        } else if first <= 0xf7 {
            let value_len = (first - 0xc0) as usize;
            if value_len <= bytes.len() - 1 {
                Ok(PayloadInfo { header_len: 1, value_len })
            } else {
                Err(DecoderError::RlpIsTooShort)
            }
        } else {
            Self::parse_long(bytes, (first - 0xf7) as usize)
        }
    }
}

impl Prototype {
    /// Tells the shape of the item at the front of `bytes`.
    pub fn classify(bytes: &[u8]) -> (r: Result<Prototype, DecoderError>)
        ensures
            r == prototype_of(bytes@),
    {
        match PayloadInfo::parse(bytes) {
            Ok(info) => {
                if bytes[0] >= 0xc0 {
                    Ok(Prototype::List(info.value_len))
                } else if bytes[0] == 0x80 {
                    Ok(Prototype::Null)
                } else {
                    Ok(Prototype::Data(info.value_len))
                }
            },
            Err(e) => Err(e),
        }
    }
}

/// A read-only view onto the encoded item at the front of a byte slice.
/// Nothing is copied, and nothing is checked before it is asked for.
#[derive(Debug, Clone, Copy)]
pub struct Rlp<'a> {
    bytes: &'a [u8],
}

impl<'a> View for Rlp<'a> {
    type V = Seq<u8>;

    /// The bytes that the view was made of.
    closed spec fn view(&self) -> Seq<u8> {
        self.bytes@
    }
}

/// A result with the view of what was found in place of the value.
pub open spec fn view_of<T: View>(r: Result<T, DecoderError>) -> Result<T::V, DecoderError> {
    match r {
        Ok(found) => Ok(found@),
        Err(e) => Err(e),
    }
}

/// The payload of the data item at the front of `bytes`. A list has none.
pub open spec fn payload_of(bytes: Seq<u8>) -> Result<Seq<u8>, DecoderError> {
    if starts_list(bytes) {
        Err(DecoderError::RlpExpectedToBeData)
    } else {
        match header_of(bytes) {
            Ok(info) => Ok(bytes.subrange(info.header_len as int, info.spec_total())),
            Err(e) => Err(e),
        }
    }
}

/// The bytes that the items of the list at the front of `bytes` take.
pub open spec fn list_payload_of(bytes: Seq<u8>) -> Result<Seq<u8>, DecoderError> {
    match header_of(bytes) {
        Ok(info) => if starts_list(bytes) {
            Ok(bytes.subrange(info.header_len as int, info.spec_total()))
        } else {
            Err(DecoderError::RlpExpectedToBeList)
        },
        Err(e) => Err(e),
    }
}

/// The item at the front of `bytes`, and the bytes behind it.
pub open spec fn first_item(bytes: Seq<u8>) -> Result<(Seq<u8>, Seq<u8>), DecoderError> {
    match header_of(bytes) {
        Ok(info) => Ok((bytes.take(info.spec_total()), bytes.skip(info.spec_total()))),
        Err(e) => Err(e),
    }
}

/// Cuts the item at the front of `bytes` from the bytes behind it.
fn split_first<'a>(bytes: &'a [u8]) -> (r: Result<(&'a [u8], &'a [u8]), DecoderError>)
    ensures
        match first_item(bytes@) {
            Ok((item, rest)) => r matches Ok((i, t)) && i@ == item && t@ == rest && t@.len()
                < bytes@.len(),
            Err(e) => r == Err::<(&'a [u8], &'a [u8]), DecoderError>(e),
        },
{
    let len = bytes.len();
    match PayloadInfo::parse(bytes) {
        Ok(info) => {
            let total = info.total();
            Ok((&bytes[0..total], &bytes[total..len]))
        },
        Err(e) => Err(e),
    }
}

/// Reads the payload of one data item and hands it to the function that
/// makes a value of it.
#[derive(Debug, Clone, Copy)]
pub struct BasicDecoder<'a> {
    rlp: &'a [u8],
}

impl<'a> View for BasicDecoder<'a> {
    type V = Seq<u8>;

    /// The bytes that the decoder was made of.
    closed spec fn view(&self) -> Seq<u8> {
        self.rlp@
    }
}

impl<'a> BasicDecoder<'a> {
    /// A decoder for the item at the front of `rlp`.
    pub fn new(rlp: &'a [u8]) -> (decoder: BasicDecoder<'a>)
        ensures
            decoder@ == rlp@,
    {
        BasicDecoder { rlp }
    }

    /// Gives what `f` makes of the payload of the data item. Where there
    /// is no such payload, `f` is not called.
    pub fn decode_value<T, F>(&self, f: F) -> (r: Result<T, DecoderError>) where
        F: Fn(&[u8]) -> Result<T, DecoderError>,

        requires
            forall|payload: &[u8]|
                payload_of(self@) == Ok::<Seq<u8>, DecoderError>(payload@) ==> call_requires(
                    f,
                    (payload,),
                ),
        ensures
            match payload_of(self@) {
                Ok(bytes) => exists|payload: &[u8]|
                    payload@ == bytes && #[trigger] call_ensures(f, (payload,), r),
                Err(e) => r == Err::<T, DecoderError>(e),
            },
    {
        match Rlp::new(self.rlp).payload() {
            Ok(payload) => f(payload),
            Err(e) => Err(e),
        }
    }
}

/// A walk over the items of a list, from the first to the last. Each step
/// cuts one item off the front of what is left.
#[derive(Debug, Clone, Copy)]
pub struct RlpIterator<'a> {
    rest: &'a [u8],
}

impl<'a> View for RlpIterator<'a> {
    type V = Seq<u8>;

    /// The bytes of the items that are still to come.
    closed spec fn view(&self) -> Seq<u8> {
        self.rest@
    }
}

impl<'a> RlpIterator<'a> {
    /// The next item, or the failure to cut it off, or `None` behind the
    /// last item. A failure ends the walk.
    pub fn next(&mut self) -> (r: Option<Result<Rlp<'a>, DecoderError>>)
        ensures
            old(self)@.len() == 0 ==> r is None && final(self)@ == old(self)@,
            old(self)@.len() > 0 ==> match first_item(old(self)@) {
                Ok((item, rest)) => r matches Some(Ok(rlp)) && rlp@ == item && final(self)@
                    == rest,
                Err(e) => r == Some(Err::<Rlp<'a>, DecoderError>(e)) && final(self)@.len() == 0,
            },
            final(self)@.len() <= old(self)@.len(),
            r is Some ==> final(self)@.len() < old(self)@.len(),
    {
        if self.rest.len() == 0 {
            return None;
        }
        match split_first(self.rest) {
            Ok((item, tail)) => {
                self.rest = tail;
                Some(Ok(Rlp::new(item)))
            },
            Err(e) => {
                self.rest = &self.rest[0..0];
                Some(Err(e))
            },
        }
    }
}

/// How many items tile `payload`, one behind the other. An item that is cut
/// short, or whose header is malformed, fails the count.
pub open spec fn count_items(payload: Seq<u8>) -> Result<nat, DecoderError>
    decreases payload.len(),
{
    if payload.len() == 0 {
        Ok(0)
    } else {
        match first_item(payload) {
            Ok((_, rest)) => match count_items(rest) {
                Ok(n) => Ok(n + 1),
                Err(e) => Err(e),
            },
            Err(e) => Err(e),
        }
    }
}

/// The item at place `index` among those that tile `payload`. What lies
/// behind it is not looked at; past the last item the payload is too short.
pub open spec fn nth_item(payload: Seq<u8>, index: nat) -> Result<Seq<u8>, DecoderError>
    decreases payload.len(),
{
    if payload.len() == 0 {
        Err(DecoderError::RlpIsTooShort)
    } else {
        match first_item(payload) {
            Ok((item, rest)) => if index == 0 {
                Ok(item)
            } else {
                nth_item(rest, (index - 1) as nat)
            },
            Err(e) => Err(e),
        }
    }
}

/// The number of items in the item at the front of `bytes`: those of a
/// list, one for a data item, which holds itself, and none for the empty
/// data item.
pub open spec fn item_count_of(bytes: Seq<u8>) -> Result<nat, DecoderError> {
    match prototype_of(bytes) {
        Ok(Prototype::Null) => Ok(0),
        Ok(Prototype::Data(_)) => Ok(1),
        Ok(Prototype::List(_)) => count_items(list_payload_of(bytes).unwrap()),
        Err(e) => Err(e),
    }
}

/// The item at place `index` in the item at the front of `bytes`, counted
/// as [`item_count_of`] counts.
pub open spec fn item_at(bytes: Seq<u8>, index: nat) -> Result<Seq<u8>, DecoderError> {
    match prototype_of(bytes) {
        Ok(Prototype::Null) => Err(DecoderError::RlpIsTooShort),
        Ok(Prototype::Data(_)) => if index == 0 {
            Ok(first_item(bytes).unwrap().0)
        } else {
            Err(DecoderError::RlpIsTooShort)
        },
        Ok(Prototype::List(_)) => nth_item(list_payload_of(bytes).unwrap(), index),
        Err(e) => Err(e),
    }
}

/// The values of the items that tile `payload`, each decoded as a `T`, up
/// to the first failure: an item that cannot be cut off, or one that does
/// not decode.
pub open spec fn decode_items<T: Decodable>(payload: Seq<u8>) -> Result<Seq<T::V>, DecoderError>
    decreases payload.len(),
{
    if payload.len() == 0 {
        Ok(Seq::empty())
    } else {
        match first_item(payload) {
            Ok((item, rest)) => match T::spec_decode(item) {
                Ok(value) => match decode_items::<T>(rest) {
                    Ok(more) => Ok(seq![value] + more),
                    Err(e) => Err(e),
                },
                Err(e) => Err(e),
            },
            Err(e) => Err(e),
        }
    }
}

/// The values of the items of the list at the front of `bytes`.
pub open spec fn list_of<T: Decodable>(bytes: Seq<u8>) -> Result<Seq<T::V>, DecoderError> {
    match list_payload_of(bytes) {
        Ok(payload) => decode_items::<T>(payload),
        Err(e) => Err(e),
    }
}

impl<'a> Rlp<'a> {
    /// A view onto the item at the front of `bytes`.
    pub fn new(bytes: &'a [u8]) -> (rlp: Rlp<'a>)
        ensures
            rlp@ == bytes@,
    {
        Rlp { bytes }
    }

    /// The bytes that the view was made of.
    pub fn as_raw(&self) -> (bytes: &'a [u8])
        ensures
            bytes@ == self@,
    {
        self.bytes
    }

    /// The header of the item.
    pub fn payload_info(&self) -> (r: Result<PayloadInfo, DecoderError>)
        ensures
            r == header_of(self@),
    {
        PayloadInfo::parse(self.bytes)
    }

    /// The shape of the item.
    pub fn prototype(&self) -> (r: Result<Prototype, DecoderError>)
        ensures
            r == prototype_of(self@),
    {
        Prototype::classify(self.bytes)
    }

    /// The payload of a data item.
    pub fn payload(&self) -> (r: Result<&'a [u8], DecoderError>)
        ensures
            view_of(r) == payload_of(self@),
    {
        if self.bytes.len() > 0 && self.bytes[0] >= 0xc0 {
            return Err(DecoderError::RlpExpectedToBeData);
        }
        match PayloadInfo::parse(self.bytes) {
            Ok(info) => Ok(&self.bytes[info.header_len..info.total()]),
            Err(e) => Err(e),
        }
    }

    /// The decoder that reads the payload of the item.
    pub fn decoder(&self) -> (decoder: BasicDecoder<'a>)
        ensures
            decoder@ == self@,
    {
        BasicDecoder::new(self.bytes)
    }

    /// The bytes that the items of a list take.
    fn list_payload(&self) -> (r: Result<&'a [u8], DecoderError>)
        ensures
            view_of(r) == list_payload_of(self@),
    {
        match PayloadInfo::parse(self.bytes) {
            Ok(info) => {
                if self.bytes[0] >= 0xc0 {
                    Ok(&self.bytes[info.header_len..info.total()])
                } else {
                    Err(DecoderError::RlpExpectedToBeList)
                }
            },
            Err(e) => Err(e),
        }
    }

    /// The number of items: those of a list, found by walking it, one for a
    /// data item and none for the empty data item.
    pub fn item_count(&self) -> (r: Result<usize, DecoderError>)
        ensures
            match r {
                Ok(n) => item_count_of(self@) == Ok::<nat, DecoderError>(n as nat),
                Err(e) => item_count_of(self@) == Err::<nat, DecoderError>(e),
            },
    {
        match Prototype::classify(self.bytes) {
            Ok(Prototype::Null) => Ok(0),
            Ok(Prototype::Data(_)) => Ok(1),
            Ok(Prototype::List(_)) => {
                let payload = match self.list_payload() {
                    Ok(payload) => payload,
                    Err(e) => { return Err(e); },
                };
                let mut rest = payload;
                let mut count: usize = 0;
                assert(payload@.len() <= usize::MAX) by {
                    vstd::slice::axiom_spec_len(payload);
                }
                while rest.len() > 0
                    invariant
                        item_count_of(self@) == count_items(payload@),
                        count + rest@.len() <= payload@.len() <= usize::MAX,
                        match count_items(rest@) {
                            Ok(n) => count_items(payload@) == Ok::<nat, DecoderError>(n + count as nat),
                            Err(e) => count_items(payload@) == Err::<nat, DecoderError>(e),
                        },
                    decreases rest@.len(),
                {
                    match split_first(rest) {
                        Ok((_, tail)) => {
                            count += 1;
                            rest = tail;
                        },
                        Err(e) => { return Err(e); },
                    }
                }
                Ok(count)
            },
            Err(e) => Err(e),
        }
    }

    /// The item at place `index`, found by walking from the front. A data
    /// item holds itself at place 0. Past the last item the bytes are too
    /// short.
    pub fn at(&self, index: usize) -> (r: Result<Rlp<'a>, DecoderError>)
        ensures
            view_of(r) == item_at(self@, index as nat),
    {
        match Prototype::classify(self.bytes) {
            Ok(Prototype::Null) => Err(DecoderError::RlpIsTooShort),
            Ok(Prototype::Data(_)) => {
                if index == 0 {
                    match split_first(self.bytes) {
                        Ok((item, _)) => Ok(Rlp::new(item)),
                        Err(e) => Err(e),
                    }
                } else {
                    Err(DecoderError::RlpIsTooShort)
                }
            },
            Ok(Prototype::List(_)) => {
                let payload = match self.list_payload() {
                    Ok(payload) => payload,
                    Err(e) => { return Err(e); },
                };
                let mut rest = payload;
                let mut left = index;
                while rest.len() > 0
                    invariant
                        item_at(self@, index as nat) == nth_item(payload@, index as nat),
                        nth_item(payload@, index as nat) == nth_item(rest@, left as nat),
                    decreases rest@.len(),
                {
                    match split_first(rest) {
                        Ok((item, tail)) => {
                            if left == 0 {
                                return Ok(Rlp::new(item));
                            }
                            left -= 1;
                            rest = tail;
                        },
                        Err(e) => { return Err(e); },
                    }
                }
                Err(DecoderError::RlpIsTooShort)
            },
            Err(e) => Err(e),
        }
    }

    /// Decodes the item as a `T`.
    pub fn as_val<T: Decodable>(&self) -> (r: Result<T, DecoderError>)
        ensures
            decoded(r) == T::spec_decode(self@),
    {
        T::decode(self)
    }

    /// Decodes every item of a list as a `T`, and gives up at the first
    /// that fails.
    pub fn as_list<T: Decodable>(&self) -> (r: Result<Vec<T>, DecoderError>)
        ensures
            decoded(r) == list_of::<T>(self@),
    {
        let payload = match self.list_payload() {
            Ok(payload) => payload,
            Err(e) => { return Err(e); },
        };
        let mut rest = payload;
        let mut values: Vec<T> = Vec::new();
        assert(values.deep_view() =~= Seq::<T::V>::empty());
        while rest.len() > 0
            invariant
                list_of::<T>(self@) == decode_items::<T>(payload@),
                match decode_items::<T>(rest@) {
                    Ok(more) => decode_items::<T>(payload@) == Ok::<Seq<T::V>, DecoderError>(
                        values.deep_view() + more,
                    ),
                    Err(e) => decode_items::<T>(payload@) == Err::<Seq<T::V>, DecoderError>(e),
                },
            decreases rest@.len(),
        {
            match split_first(rest) {
                Ok((item, tail)) => match T::decode(&Rlp::new(item)) {
                    Ok(value) => {
                        let ghost before = values.deep_view();
                        values.push(value);
                        proof {
                            assert(values.deep_view() =~= before.push(value.deep_view()));
                            if let Ok(more) = decode_items::<T>(tail@) {
                                assert(before + (seq![value.deep_view()] + more)
                                    =~= values.deep_view() + more);
                            }
                        }
                        rest = tail;
                    },
                    Err(e) => { return Err(e); },
                },
                Err(e) => { return Err(e); },
            }
        }
        assert(values.deep_view() + Seq::<T::V>::empty() =~= values.deep_view());
        Ok(values)
    }

    /// A walk over the items of a list.
    pub fn iter(&self) -> (r: Result<RlpIterator<'a>, DecoderError>)
        ensures
            view_of(r) == list_payload_of(self@),
    {
        match self.list_payload() {
            Ok(payload) => Ok(RlpIterator { rest: payload }),
            Err(e) => Err(e),
        }
    }

    /// Decodes the item at place `index` as a `T`.
    pub fn val_at<T: Decodable>(&self, index: usize) -> (r: Result<T, DecoderError>)
        ensures
            decoded(r) == match item_at(self@, index as nat) {
                Ok(item) => T::spec_decode(item),
                Err(e) => Err(e),
            },
    {
        match self.at(index) {
            Ok(item) => item.as_val(),
            Err(e) => Err(e),
        }
    }
}

} // verus!
