//! The Open message, with which a speaker introduces itself.

use vstd::prelude::*;
use vstd::slice::slice_subrange;
use bytes::BytesMut;
use crate::bgp_type::{AutonomousSystemNumber, Ipv4Address};
use crate::buffer::{bytes_contents, put_slice, put_u16, put_u8};
use crate::error::{ConvertBgpMessageToBytesError, ConvertBytesToBgpMessageError};
use crate::wire::{
    lemma_u16_bytes_round_trip, lemma_u16_round_trip, lemma_u32_bytes_round_trip,
    lemma_u32_round_trip, read_u16, read_u32, u16_be, u16_from_be, u32_be, u32_from_be,
};

verus! {

/// The protocol version that this speaker announces.
pub const BGP_VERSION: u8 = 4;

/// An Open message as a mathematical value.
pub struct OpenMessageView {
    pub version: u8,
    pub my_as_number: AutonomousSystemNumber,
    pub hold_time: u16,
    pub bgp_identifier: Ipv4Address,
    pub optional_parameters: Seq<u8>,
}

impl OpenMessageView {
    /// The message has an encoding: the length of its optional parameters
    /// fits one byte.
    pub open spec fn encodable(self) -> bool {
        self.optional_parameters.len() <= 255
    }

    /// What follows the header on the wire: version, AS number, hold time,
    /// identifier, and the optional parameters behind their length.
    pub open spec fn body(self) -> Seq<u8> {
        seq![self.version] + u16_be(self.my_as_number.0) + u16_be(self.hold_time) + u32_be(
            self.bgp_identifier.0,
        ) + seq![self.optional_parameters.len() as u8] + self.optional_parameters
    }
}

/// Reads what follows the header of an Open message.
pub open spec fn parse_open_body(body: Seq<u8>) -> Result<
    OpenMessageView,
    ConvertBytesToBgpMessageError,
> {
    if body.len() < 10 {
        Err(ConvertBytesToBgpMessageError::TooShort)
    } else if body.len() != 10 + body[9] {
        Err(ConvertBytesToBgpMessageError::LengthMismatch)
    } else {
        Ok(
            OpenMessageView {
                version: body[0],
                my_as_number: AutonomousSystemNumber(u16_from_be(body[1], body[2])),
                hold_time: u16_from_be(body[3], body[4]),
                bgp_identifier: Ipv4Address(u32_from_be(body[5], body[6], body[7], body[8])),
                optional_parameters: body.skip(10),
            },
        )
    }
}

/// The body of an encodable Open message, read back, is the same message.
pub proof fn lemma_parse_encoded_open(open: OpenMessageView)
    requires
        open.encodable(),
    ensures
        parse_open_body(open.body()) == Ok::<OpenMessageView, ConvertBytesToBgpMessageError>(
            open,
        ),
        open.body().len() == 10 + open.optional_parameters.len(),
{
    let body = open.body();
    lemma_u16_round_trip(open.my_as_number.0);
    lemma_u16_round_trip(open.hold_time);
    lemma_u32_round_trip(open.bgp_identifier.0);
    assert(body.skip(10) =~= open.optional_parameters);
}

/// The body of an Open message that was read is the bytes it was read from.
pub proof fn lemma_encode_parsed_open(body: Seq<u8>)
    requires
        parse_open_body(body) is Ok,
    ensures
        parse_open_body(body)->Ok_0.encodable(),
        parse_open_body(body)->Ok_0.body() == body,
{
    lemma_u16_bytes_round_trip(body[1], body[2]);
    lemma_u16_bytes_round_trip(body[3], body[4]);
    lemma_u32_bytes_round_trip(body[5], body[6], body[7], body[8]);
}

/// An Open message.
#[derive(PartialEq, Eq, Debug, Hash)]
pub struct OpenMessage {
    pub version: u8,
    pub my_as_number: AutonomousSystemNumber,
    pub hold_time: u16,
    pub bgp_identifier: Ipv4Address,
    pub optional_parameters: Vec<u8>,
}

impl View for OpenMessage {
    type V = OpenMessageView;

    open spec fn view(&self) -> OpenMessageView {
        OpenMessageView {
            version: self.version,
            my_as_number: self.my_as_number,
            hold_time: self.hold_time,
            bgp_identifier: self.bgp_identifier,
            optional_parameters: self.optional_parameters@,
        }
    }
}

impl Clone for OpenMessage {
    fn clone(&self) -> (copy: Self)
        ensures
            copy@ == self@,
    {
        let mut optional_parameters: Vec<u8> = Vec::new();
        let mut index: usize = 0;
        while index < self.optional_parameters.len()
            invariant
                index <= self.optional_parameters.len(),
                optional_parameters@ == self.optional_parameters@.take(index as int),
            decreases self.optional_parameters.len() - index,
        {
            optional_parameters.push(self.optional_parameters[index]);
            index += 1;
        }
        assert(optional_parameters@ =~= self.optional_parameters@);
        OpenMessage {
            version: self.version,
            my_as_number: self.my_as_number,
            hold_time: self.hold_time,
            bgp_identifier: self.bgp_identifier,
            optional_parameters,
        }
    }
}

impl OpenMessage {
    /// The Open message of a speaker in the given AS with the given address:
    /// version 4, hold time 0, the address as identifier, no optional
    /// parameters.
    pub fn new(my_as_number: AutonomousSystemNumber, my_ip_addr: Ipv4Address) -> (message: Self)
        ensures
            message@ == (OpenMessageView {
                version: 4,
                my_as_number,
                hold_time: 0,
                bgp_identifier: my_ip_addr,
                optional_parameters: Seq::empty(),
            }),
    {
        OpenMessage {
            version: BGP_VERSION,
            my_as_number,
            hold_time: 0,
            bgp_identifier: my_ip_addr,
            optional_parameters: Vec::new(),
        }
    }

    /// Appends what follows the header to `buffer`, or refuses optional
    /// parameters of more than 255 bytes and leaves the buffer as it was.
    pub fn encode_body_into(&self, buffer: &mut BytesMut) -> (done: Result<
        (),
        ConvertBgpMessageToBytesError,
    >)
        ensures
            match done {
                Ok(_) => self@.encodable() && bytes_contents(*final(buffer)) == bytes_contents(
                    *old(buffer),
                ) + self@.body(),
                Err(error) => !self@.encodable() && error
                    == ConvertBgpMessageToBytesError::OptionalParametersTooLong
                    && bytes_contents(*final(buffer)) == bytes_contents(*old(buffer)),
            },
    {
        if self.optional_parameters.len() > 255 {
            return Err(ConvertBgpMessageToBytesError::OptionalParametersTooLong);
        }
        put_u8(buffer, self.version);
        put_u16(buffer, self.my_as_number.0);
        put_u16(buffer, self.hold_time);
        let octets = self.bgp_identifier.octets();
        put_slice(buffer, octets.as_slice());
        put_u8(buffer, self.optional_parameters.len() as u8);
        put_slice(buffer, self.optional_parameters.as_slice());
        Ok(())
    }

    /// Reads what follows the header of an Open message.
    pub fn decode_body(body: &[u8]) -> (decoded: Result<
        OpenMessage,
        ConvertBytesToBgpMessageError,
    >)
        ensures
            match decoded {
                Ok(message) => parse_open_body(body@) == Ok::<
                    OpenMessageView,
                    ConvertBytesToBgpMessageError,
                >(message@),
                Err(error) => parse_open_body(body@) == Err::<
                    OpenMessageView,
                    ConvertBytesToBgpMessageError,
                >(error),
            },
    {
        if body.len() < 10 {
            return Err(ConvertBytesToBgpMessageError::TooShort);
        }
        let length = body[9] as usize;
        if body.len() != 10 + length {
            return Err(ConvertBytesToBgpMessageError::LengthMismatch);
        }
        let optional_parameters = vstd::slice::slice_to_vec(slice_subrange(body, 10, body.len()));
        Ok(
            OpenMessage {
                version: body[0],
                my_as_number: AutonomousSystemNumber(read_u16(body, 1)),
                hold_time: read_u16(body, 3),
                bgp_identifier: Ipv4Address(read_u32(body, 5)),
                optional_parameters,
            },
        )
    }
}

} // verus!
