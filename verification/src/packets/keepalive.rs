//! The Keepalive message: a header and nothing else.

use vstd::prelude::*;
use bytes::BytesMut;
use crate::buffer::{bytes_contents, new_buffer};
use crate::error::ConvertBytesToBgpMessageError;
use crate::packets::header::{Header, MessageType};
use crate::packets::message::{parse_message, Message, MessageView};

verus! {

/// A Keepalive message. It carries nothing but its header.
#[derive(PartialEq, Eq, Debug, Clone, Copy, Hash, Structural)]
pub struct KeepaliveMessage {}

impl KeepaliveMessage {
    /// A Keepalive message.
    pub fn new() -> (message: Self)
        ensures
            message == (KeepaliveMessage {  }),
    {
        KeepaliveMessage {  }
    }

    /// The message on the wire: a header of kind Keepalive that announces
    /// nineteen bytes.
    pub fn to_bytes(&self) -> (buffer: BytesMut)
        ensures
            bytes_contents(buffer) == MessageView::Keepalive(*self).encode(),
            bytes_contents(buffer).len() == 19,
    {
        let mut buffer = new_buffer();
        Header::new(19, MessageType::Keepalive).encode_into(&mut buffer);
        buffer
    }

    /// Reads a Keepalive message from a buffer that holds one message and
    /// nothing else. A message of another kind is refused as `UnknownType`.
    pub fn from_bytes(buffer: &BytesMut) -> (decoded: Result<
        KeepaliveMessage,
        ConvertBytesToBgpMessageError,
    >)
        ensures
            match decoded {
                Ok(message) => parse_message(bytes_contents(*buffer)) == Ok::<
                    MessageView,
                    ConvertBytesToBgpMessageError,
                >(MessageView::Keepalive(message)),
                Err(error) => match parse_message(bytes_contents(*buffer)) {
                    Ok(other) => !(other is Keepalive) && error
                        == ConvertBytesToBgpMessageError::UnknownType,
                    Err(refused) => error == refused,
                },
            },
    {
        match Message::from_bytes(buffer) {
            Ok(Message::Keepalive(message)) => Ok(message),
            Ok(_) => Err(ConvertBytesToBgpMessageError::UnknownType),
            Err(error) => Err(error),
        }
    }
}

} // verus!
