//! The connection to a peer, as far as it is a matter of rules: which end of
//! it a speaker takes, and how the stream of bytes that arrives is cut into
//! messages, however TCP has cut it into segments.

use vstd::prelude::*;
use bytes::BytesMut;
use crate::bgp_type::Ipv4Address;
use crate::buffer::{buffer_bytes, buffer_len, bytes_contents, split_to};
use crate::config::{Config, Mode};
use crate::error::ConvertBytesToBgpMessageError;
use crate::packets::header::HEADER_LENGTH;
use crate::packets::message::{parse_message, theorem_decode_encode, Message, MessageView};
use crate::wire::{lemma_u16_round_trip, read_u16, u16_be, u16_from_be};

verus! {

/// The TCP port on which speakers talk.
pub const BGP_PORT: u16 = 179;

/// The end of the TCP connection that a speaker takes.
#[derive(PartialEq, Eq, Hash, Debug, Clone, Copy, Structural)]
pub enum Endpoint {
    /// Connect to this address and port.
    Connect { address: Ipv4Address, port: u16 },
    /// Listen on this address and port, accept one connection, and stop
    /// listening.
    Accept { address: Ipv4Address, port: u16 },
}

/// The end that the configuration assigns: an active speaker connects to the
/// peer's address, a passive one accepts on its own, both on the BGP port.
pub fn endpoint(config: &Config) -> (end: Endpoint)
    ensures
        end == match config.mode {
            Mode::Active => Endpoint::Connect { address: config.remote_ip, port: 179 },
            Mode::Passive => Endpoint::Accept { address: config.local_ip, port: 179 },
        },
{
    match config.mode {
        Mode::Active => Endpoint::Connect { address: config.remote_ip, port: BGP_PORT },
        Mode::Passive => Endpoint::Accept { address: config.local_ip, port: BGP_PORT },
    }
}

/// Where the first message among the received bytes ends, as its header says;
/// `None` while the header has not arrived in full.
pub open spec fn message_separator(received: Seq<u8>) -> Option<nat> {
    if received.len() < 19 {
        None
    } else {
        Some(u16_from_be(received[16], received[17]) as nat)
    }
}

/// The bytes of the first message among the received bytes; `None` while it
/// has not arrived in full.
pub open spec fn first_frame(received: Seq<u8>) -> Option<Seq<u8>> {
    match message_separator(received) {
        Some(end) => if end <= received.len() {
            Some(received.take(end as int))
        } else {
            None
        },
        None => None,
    }
}

/// Where the first message in the buffer ends, as its header says.
pub fn get_index_of_message_separator(buffer: &BytesMut) -> (index: Option<usize>)
    ensures
        match index {
            Some(end) => message_separator(bytes_contents(*buffer)) == Some(end as nat),
            None => message_separator(bytes_contents(*buffer)) is None,
        },
{
    if buffer_len(buffer) < HEADER_LENGTH {
        return None;
    }
    Some(read_u16(buffer_bytes(buffer), 16) as usize)
}

/// Takes the bytes of the first message out of the buffer, if it has arrived
/// in full; otherwise leaves the buffer as it is.
pub fn split_buffer_at_message_separator(buffer: &mut BytesMut) -> (frame: Option<BytesMut>)
    ensures
        match frame {
            Some(head) => first_frame(bytes_contents(*old(buffer))) == Some(bytes_contents(head))
                && bytes_contents(*final(buffer)) == bytes_contents(*old(buffer)).skip(
                bytes_contents(head).len() as int,
            ),
            None => first_frame(bytes_contents(*old(buffer))) is None && bytes_contents(
                *final(buffer),
            ) == bytes_contents(*old(buffer)),
        },
{
    let end = match get_index_of_message_separator(buffer) {
        Some(end) => end,
        None => {
            return None;
        },
    };
    if buffer_len(buffer) < end {
        return None;
    }
    let head = split_to(buffer, end);
    Some(head)
}

/// Takes the first message out of the buffer, if it has arrived in full:
/// `Ok(None)` and the buffer untouched while it has not; otherwise its bytes
/// leave the buffer, and the result is the message they decode to, or the
/// reason why they are no message.
pub fn take_message(buffer: &mut BytesMut) -> (taken: Result<
    Option<Message>,
    ConvertBytesToBgpMessageError,
>)
    ensures
        match first_frame(bytes_contents(*old(buffer))) {
            None => taken matches Ok(None) && bytes_contents(*final(buffer)) == bytes_contents(
                *old(buffer),
            ),
            Some(frame) => bytes_contents(*final(buffer)) == bytes_contents(*old(buffer)).skip(
                frame.len() as int,
            ) && match taken {
                Ok(Some(message)) => parse_message(frame) == Ok::<
                    MessageView,
                    ConvertBytesToBgpMessageError,
                >(message@),
                Ok(None) => false,
                Err(error) => parse_message(frame) == Err::<
                    MessageView,
                    ConvertBytesToBgpMessageError,
                >(error),
            },
        },
{
    match split_buffer_at_message_separator(buffer) {
        None => Ok(None),
        Some(frame) => match Message::from_bytes(&frame) {
            Ok(message) => Ok(Some(message)),
            Err(error) => Err(error),
        },
    }
}

/// Several messages in one read: where the received bytes start with the wire
/// form of a well-formed message, the first frame is that wire form, whatever
/// follows it.
pub proof fn lemma_frame_of_encoded_message(message: MessageView, rest: Seq<u8>)
    requires
        message.well_formed(),
    ensures
        first_frame(message.encode() + rest) == Some(message.encode()),
        (message.encode() + rest).skip(message.encode().len() as int) == rest,
{
    theorem_decode_encode(message);
    lemma_u16_round_trip(message.header().length);
}

/// One message split across reads: while only a part of the wire form of a
/// well-formed message has arrived, there is no first frame yet.
pub proof fn lemma_no_frame_of_partial_message(message: MessageView, arrived: int)
    requires
        message.well_formed(),
        0 <= arrived < message.encode().len(),
    ensures
        first_frame(message.encode().take(arrived)) is None,
{
    theorem_decode_encode(message);
    lemma_u16_round_trip(message.header().length);
}

} // verus!
