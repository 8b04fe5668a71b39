//! The fixed header that every message starts with.

use vstd::prelude::*;
use bytes::BytesMut;
use crate::buffer::{bytes_contents, put_u16, put_u8};
use crate::error::ConvertBytesToBgpMessageError;
use crate::wire::{lemma_u16_bytes_round_trip, lemma_u16_round_trip, read_u16, u16_be, u16_from_be};

verus! {

/// The number of bytes that a header takes.
pub const HEADER_LENGTH: usize = 19;

/// The kind of a message.
#[derive(PartialEq, Eq, Debug, Clone, Copy, Hash, Structural)]
pub enum MessageType {
    Open,
    Update,
    Keepalive,
}

impl MessageType {
    /// The byte that stands for the kind on the wire.
    pub open spec fn code(self) -> u8 {
        match self {
            MessageType::Open => 1,
            MessageType::Update => 2,
            MessageType::Keepalive => 4,
        }
    }

    /// The kind that a byte stands for, if any.
    pub open spec fn of_code(code: u8) -> Option<MessageType> {
        if code == 1 {
            Some(MessageType::Open)
        } else if code == 2 {
            Some(MessageType::Update)
        } else if code == 4 {
            Some(MessageType::Keepalive)
        } else {
            None
        }
    }

    /// The byte that stands for the kind on the wire.
    pub fn to_u8(&self) -> (code: u8)
        ensures
            code == self.code(),
    {
        match self {
            MessageType::Open => 1,
            MessageType::Update => 2,
            MessageType::Keepalive => 4,
        }
    }

    /// The kind that a byte stands for, if any.
    pub fn from_u8(code: u8) -> (kind: Option<MessageType>)
        ensures
            kind == MessageType::of_code(code),
    {
        if code == 1 {
            Some(MessageType::Open)
        } else if code == 2 {
            Some(MessageType::Update)
        } else if code == 4 {
            Some(MessageType::Keepalive)
        } else {
            None
        }
    }
}

/// The marker that opens every header: sixteen bytes of all ones.
pub open spec fn marker() -> Seq<u8> {
    Seq::new(16, |i: int| 0xffu8)
}

/// A message header: the length of the whole message, header included, and
/// the kind of the message.
#[derive(PartialEq, Eq, Debug, Clone, Copy, Hash, Structural)]
pub struct Header {
    pub length: u16,
    pub type_: MessageType,
}

/// Reads a header from the first nineteen bytes of `bytes`.
pub open spec fn parse_header(bytes: Seq<u8>) -> Result<Header, ConvertBytesToBgpMessageError> {
    if bytes.len() < 19 {
        Err(ConvertBytesToBgpMessageError::TooShort)
    } else if bytes.take(16) != marker() {
        Err(ConvertBytesToBgpMessageError::BadMarker)
    } else {
        match MessageType::of_code(bytes[18]) {
            Some(type_) => Ok(Header { length: u16_from_be(bytes[16], bytes[17]), type_ }),
            None => Err(ConvertBytesToBgpMessageError::UnknownType),
        }
    }
}

impl Header {
    /// The header on the wire: marker, length, kind.
    pub open spec fn encode(self) -> Seq<u8> {
        marker() + u16_be(self.length) + seq![self.type_.code()]
    }

    /// A header with the given length and kind.
    pub fn new(length: u16, type_: MessageType) -> (header: Self)
        ensures
            header == (Header { length, type_ }),
    {
        Header { length, type_ }
    }

    /// Appends the header's wire form to `buffer`.
    pub fn encode_into(&self, buffer: &mut BytesMut)
        ensures
            bytes_contents(*final(buffer)) == bytes_contents(*old(buffer)) + self.encode(),
    {
        let mut count: usize = 0;
        while count < 16
            invariant
                count <= 16,
                bytes_contents(*buffer) == bytes_contents(*old(buffer)) + marker().take(
                    count as int,
                ),
            decreases 16 - count,
        {
            put_u8(buffer, 0xff);
            count += 1;
        }
        put_u16(buffer, self.length);
        put_u8(buffer, self.type_.to_u8());
    }

    /// Reads a header from the first nineteen bytes of `bytes`.
    pub fn decode(bytes: &[u8]) -> (decoded: Result<Header, ConvertBytesToBgpMessageError>)
        ensures
            decoded == parse_header(bytes@),
    {
        if bytes.len() < HEADER_LENGTH {
            return Err(ConvertBytesToBgpMessageError::TooShort);
        }
        let mut index: usize = 0;
        while index < 16
            invariant
                index <= 16,
                bytes@.len() >= 19,
                forall|i: int| 0 <= i < index ==> bytes@[i] == 0xff,
            decreases 16 - index,
        {
            if bytes[index] != 0xff {
                assert(bytes@.take(16)[index as int] != marker()[index as int]);
                return Err(ConvertBytesToBgpMessageError::BadMarker);
            }
            index += 1;
        }
        assert(bytes@.take(16) =~= marker());
        let length = read_u16(bytes, 16);
        match MessageType::from_u8(bytes[18]) {
            Some(type_) => Ok(Header { length, type_ }),
            None => Err(ConvertBytesToBgpMessageError::UnknownType),
        }
    }
}

/// A header read from its own wire form, whatever follows it, is the same
/// header.
pub proof fn lemma_parse_encoded_header(header: Header, rest: Seq<u8>)
    ensures
        parse_header(header.encode() + rest) == Ok::<Header, ConvertBytesToBgpMessageError>(
            header,
        ),
        header.encode().len() == 19,
        (header.encode() + rest).skip(19) == rest,
{
    let bytes = header.encode() + rest;
    assert(bytes.take(16) =~= marker());
    lemma_u16_round_trip(header.length);
}

/// The wire form of a header that was read is the nineteen bytes it was read
/// from.
pub proof fn lemma_encode_parsed_header(bytes: Seq<u8>)
    requires
        parse_header(bytes) is Ok,
    ensures
        parse_header(bytes)->Ok_0.encode() == bytes.take(19),
{
    lemma_u16_bytes_round_trip(bytes[16], bytes[17]);
    assert forall|i: int| 0 <= i < 16 implies bytes[i] == 0xffu8 by {
        assert(bytes.take(16)[i] == marker()[i]);
    }
}

} // verus!
