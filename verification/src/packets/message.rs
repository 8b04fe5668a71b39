//! A message of any kind, and its wire form from header to last byte.

use vstd::prelude::*;
use vstd::slice::slice_subrange;
use bytes::BytesMut;
use crate::bgp_type::{AutonomousSystemNumber, Ipv4Address};
use crate::buffer::{buffer_bytes, buffer_len, bytes_contents, new_buffer, put_slice};
use crate::error::{ConvertBgpMessageToBytesError, ConvertBytesToBgpMessageError};
use crate::packets::header::{
    lemma_encode_parsed_header, lemma_parse_encoded_header, parse_header, Header, MessageType,
    HEADER_LENGTH,
};
use crate::packets::keepalive::KeepaliveMessage;
use crate::packets::open::{
    lemma_encode_parsed_open, lemma_parse_encoded_open, parse_open_body, OpenMessage,
    OpenMessageView,
};
use crate::packets::update::{
    lemma_encode_parsed_update, lemma_parse_encoded_update, parse_update_body, UpdateMessage,
    UpdateMessageView,
};

verus! {

/// A message as a mathematical value.
pub enum MessageView {
    Open(OpenMessageView),
    Keepalive(KeepaliveMessage),
    Update(UpdateMessageView),
}

impl MessageView {
    /// The kind of the message.
    pub open spec fn message_type(self) -> MessageType {
        match self {
            MessageView::Open(_) => MessageType::Open,
            MessageView::Keepalive(_) => MessageType::Keepalive,
            MessageView::Update(_) => MessageType::Update,
        }
    }

    /// What follows the header on the wire.
    pub open spec fn body(self) -> Seq<u8> {
        match self {
            MessageView::Open(open) => open.body(),
            MessageView::Keepalive(_) => Seq::empty(),
            MessageView::Update(update) => update.body(),
        }
    }

    /// Why the message has no encoding, if it has none.
    pub open spec fn encode_error(self) -> Option<ConvertBgpMessageToBytesError> {
        match self {
            MessageView::Open(open) => if open.encodable() {
                None
            } else {
                Some(ConvertBgpMessageToBytesError::OptionalParametersTooLong)
            },
            MessageView::Keepalive(_) => None,
            MessageView::Update(update) => update.encode_error(),
        }
    }

    /// The message has an encoding that reads back as the message itself.
    pub open spec fn well_formed(self) -> bool {
        match self {
            MessageView::Open(open) => open.encodable(),
            MessageView::Keepalive(_) => true,
            MessageView::Update(update) => update.well_formed(),
        }
    }

    /// The header that the message goes out with: its length field is the
    /// exact number of bytes of the whole message.
    pub open spec fn header(self) -> Header {
        Header { length: (19 + self.body().len()) as u16, type_: self.message_type() }
    }

    /// The message on the wire: header, then body.
    pub open spec fn encode(self) -> Seq<u8> {
        self.header().encode() + self.body()
    }
}

/// Reads a message from `bytes`, which must hold the message and nothing
/// else. Errors come in this order: too few bytes for a header, a marker that
/// is not all ones, an unknown type, a length field that is not the number of
/// bytes, and then what the body of that type refuses.
pub open spec fn parse_message(bytes: Seq<u8>) -> Result<
    MessageView,
    ConvertBytesToBgpMessageError,
> {
    match parse_header(bytes) {
        Err(error) => Err(error),
        Ok(header) => if header.length != bytes.len() {
            Err(ConvertBytesToBgpMessageError::LengthMismatch)
        } else {
            match header.type_ {
                MessageType::Open => match parse_open_body(bytes.skip(19)) {
                    Ok(open) => Ok(MessageView::Open(open)),
                    Err(error) => Err(error),
                },
                MessageType::Keepalive => if bytes.len() == 19 {
                    Ok(MessageView::Keepalive(KeepaliveMessage {  }))
                } else {
                    Err(ConvertBytesToBgpMessageError::LengthMismatch)
                },
                MessageType::Update => match parse_update_body(bytes.skip(19)) {
                    Ok(update) => Ok(MessageView::Update(update)),
                    Err(error) => Err(error),
                },
            }
        },
    }
}

/// Decoding inverts encoding: every well-formed message, read back from its
/// own wire form, is the same message, and the length field of that wire form
/// is its exact length.
pub proof fn theorem_decode_encode(message: MessageView)
    requires
        message.well_formed(),
    ensures
        parse_message(message.encode()) == Ok::<MessageView, ConvertBytesToBgpMessageError>(
            message,
        ),
        message.encode().len() == message.header().length,
        message.encode().len() == 19 + message.body().len(),
{
    lemma_parse_encoded_header(message.header(), message.body());
    match message {
        MessageView::Open(open) => {
            lemma_parse_encoded_open(open);
        },
        MessageView::Keepalive(_) => {},
        MessageView::Update(update) => {
            lemma_parse_encoded_update(update);
        },
    }
}

/// Encoding inverts decoding: every byte string that decodes is the wire form
/// of the message it decodes to, and that message is well formed.
pub proof fn theorem_encode_decode(bytes: Seq<u8>)
    requires
        parse_message(bytes) is Ok,
    ensures
        parse_message(bytes)->Ok_0.well_formed(),
        parse_message(bytes)->Ok_0.encode() == bytes,
{
    let header = parse_header(bytes)->Ok_0;
    let body = bytes.skip(19);
    lemma_encode_parsed_header(bytes);
    assert(header.length == bytes.len());
    match header.type_ {
        MessageType::Open => {
            lemma_encode_parsed_open(body);
        },
        MessageType::Keepalive => {},
        MessageType::Update => {
            lemma_encode_parsed_update(body);
        },
    }
    assert(bytes.take(19) + bytes.skip(19) =~= bytes);
}

/// A message.
#[derive(PartialEq, Eq, Debug, Hash)]
pub enum Message {
    Open(OpenMessage),
    Keepalive(KeepaliveMessage),
    Update(UpdateMessage),
}

impl View for Message {
    type V = MessageView;

    open spec fn view(&self) -> MessageView {
        match self {
            Message::Open(open) => MessageView::Open(open@),
            Message::Keepalive(keepalive) => MessageView::Keepalive(*keepalive),
            Message::Update(update) => MessageView::Update(update@),
        }
    }
}

impl Clone for Message {
    fn clone(&self) -> (copy: Self)
        ensures
            copy@ == self@,
    {
        match self {
            Message::Open(open) => Message::Open(open.clone()),
            Message::Keepalive(keepalive) => Message::Keepalive(*keepalive),
            Message::Update(update) => Message::Update(update.clone()),
        }
    }
}

impl Message {
    /// The Open message of a speaker in the given AS with the given address.
    pub fn new_open(my_as_number: AutonomousSystemNumber, my_ip_addr: Ipv4Address) -> (message:
        Self)
        ensures
            message@ == MessageView::Open(
                OpenMessageView {
                    version: 4,
                    my_as_number,
                    hold_time: 0,
                    bgp_identifier: my_ip_addr,
                    optional_parameters: Seq::empty(),
                },
            ),
            message@.well_formed(),
    {
        Self::Open(OpenMessage::new(my_as_number, my_ip_addr))
    }

    /// A Keepalive message.
    pub fn new_keepalive() -> (message: Self)
        ensures
            message@ == MessageView::Keepalive(KeepaliveMessage {  }),
            message@.well_formed(),
    {
        Self::Keepalive(KeepaliveMessage::new())
    }

    /// The message on the wire, or why it has no encoding.
    pub fn to_bytes(&self) -> (encoded: Result<BytesMut, ConvertBgpMessageToBytesError>)
        ensures
            match encoded {
                Ok(buffer) => self@.encode_error() is None && bytes_contents(buffer)
                    == self@.encode(),
                Err(error) => self@.encode_error() == Some(error),
            },
    {
        let mut buffer = new_buffer();
        match self {
            Message::Open(open) => {
                if open.optional_parameters.len() > 255 {
                    return Err(ConvertBgpMessageToBytesError::OptionalParametersTooLong);
                }
                let length: usize = 29 + open.optional_parameters.len();
                proof {
                    lemma_parse_encoded_open(open@);
                }
                Header::new(length as u16, MessageType::Open).encode_into(&mut buffer);
                match open.encode_body_into(&mut buffer) {
                    Ok(_) => Ok(buffer),
                    Err(error) => Err(error),
                }
            },
            Message::Keepalive(_) => {
                Header::new(19, MessageType::Keepalive).encode_into(&mut buffer);
                Ok(buffer)
            },
            Message::Update(update) => {
                let body = match update.encode_body() {
                    Ok(body) => body,
                    Err(error) => {
                        return Err(error);
                    },
                };
                let length: usize = HEADER_LENGTH + buffer_len(&body);
                Header::new(length as u16, MessageType::Update).encode_into(&mut buffer);
                put_slice(&mut buffer, buffer_bytes(&body));
                Ok(buffer)
            },
        }
    }

    /// Reads a message from `bytes`, which must hold the message and nothing
    /// else.
    pub fn decode(bytes: &[u8]) -> (decoded: Result<Message, ConvertBytesToBgpMessageError>)
        ensures
            match decoded {
                Ok(message) => parse_message(bytes@) == Ok::<
                    MessageView,
                    ConvertBytesToBgpMessageError,
                >(message@),
                Err(error) => parse_message(bytes@) == Err::<
                    MessageView,
                    ConvertBytesToBgpMessageError,
                >(error),
            },
    {
        let header = match Header::decode(bytes) {
            Ok(header) => header,
            Err(error) => {
                return Err(error);
            },
        };
        if header.length as usize != bytes.len() {
            return Err(ConvertBytesToBgpMessageError::LengthMismatch);
        }
        let body = slice_subrange(bytes, HEADER_LENGTH, bytes.len());
        match header.type_ {
            MessageType::Open => match OpenMessage::decode_body(body) {
                Ok(open) => Ok(Message::Open(open)),
                Err(error) => Err(error),
            },
            MessageType::Keepalive => if bytes.len() == HEADER_LENGTH {
                Ok(Message::Keepalive(KeepaliveMessage::new()))
            } else {
                Err(ConvertBytesToBgpMessageError::LengthMismatch)
            },
            MessageType::Update => match UpdateMessage::decode_body(body) {
                Ok(update) => Ok(Message::Update(update)),
                Err(error) => Err(error),
            },
        }
    }

    /// Reads a message from a buffer that holds the message and nothing else.
    pub fn from_bytes(buffer: &BytesMut) -> (decoded: Result<
        Message,
        ConvertBytesToBgpMessageError,
    >)
        ensures
            match decoded {
                Ok(message) => parse_message(bytes_contents(*buffer)) == Ok::<
                    MessageView,
                    ConvertBytesToBgpMessageError,
                >(message@),
                Err(error) => parse_message(bytes_contents(*buffer)) == Err::<
                    MessageView,
                    ConvertBytesToBgpMessageError,
                >(error),
            },
    {
        Message::decode(buffer_bytes(buffer))
    }
}

} // verus!
