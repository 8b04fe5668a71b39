//! The Update message, which withdraws routes and advertises new ones.

use vstd::prelude::*;
use vstd::slice::slice_subrange;
use bytes::BytesMut;
use crate::buffer::{buffer_bytes, buffer_len, bytes_contents, new_buffer, put_slice, put_u16};
use crate::error::{ConvertBgpMessageToBytesError, ConvertBytesToBgpMessageError};
use crate::path_attribute::{
    attribute_views, attributes_encodable, copy_attributes, decode_attributes,
    encode_attributes, encode_attributes_into, lemma_encode_parsed_attributes,
    lemma_parse_encoded_attributes, parse_attributes, PathAttribute, PathAttributeView,
};
use crate::routing::{
    copy_networks, decode_prefixes, encode_prefixes, encode_prefixes_into,
    lemma_encode_parsed_prefixes, lemma_parse_encoded_prefixes, network_views, parse_prefixes,
    prefixes_canonical, prefixes_valid, Ipv4Network, Ipv4NetworkView,
};
use crate::wire::{lemma_u16_bytes_round_trip, lemma_u16_round_trip, read_u16, u16_be, u16_from_be};

verus! {

/// An Update message as a mathematical value.
pub struct UpdateMessageView {
    pub withdrawn_routes: Seq<Ipv4NetworkView>,
    pub path_attributes: Seq<PathAttributeView>,
    pub network_layer_reachability_information: Seq<Ipv4NetworkView>,
}

impl UpdateMessageView {
    /// The withdrawn routes on the wire.
    pub open spec fn withdrawn_bytes(self) -> Seq<u8> {
        encode_prefixes(self.withdrawn_routes)
    }

    /// The path attributes on the wire.
    pub open spec fn attribute_bytes(self) -> Seq<u8> {
        encode_attributes(self.path_attributes)
    }

    /// The advertised prefixes on the wire.
    pub open spec fn nlri_bytes(self) -> Seq<u8> {
        encode_prefixes(self.network_layer_reachability_information)
    }

    /// The number of bytes that follow the header.
    pub open spec fn body_length(self) -> nat {
        4 + self.withdrawn_bytes().len() + self.attribute_bytes().len() + self.nlri_bytes().len()
    }

    /// What follows the header on the wire: the withdrawn routes behind their
    /// length in bytes, the path attributes behind theirs, and the advertised
    /// prefixes.
    pub open spec fn body(self) -> Seq<u8> {
        u16_be(self.withdrawn_bytes().len() as u16) + self.withdrawn_bytes() + u16_be(
            self.attribute_bytes().len() as u16,
        ) + self.attribute_bytes() + self.nlri_bytes()
    }

    /// Why the message has no encoding, if it has none: an AS path of more
    /// than 255 numbers, or, failing that, a message of more than 65535
    /// bytes.
    pub open spec fn encode_error(self) -> Option<ConvertBgpMessageToBytesError> {
        if !attributes_encodable(self.path_attributes) {
            Some(ConvertBgpMessageToBytesError::AsPathTooLong)
        } else if 19 + self.body_length() > 65535 {
            Some(ConvertBgpMessageToBytesError::MessageTooLong)
        } else {
            None
        }
    }

    /// The message has an encoding that reads back as the message itself:
    /// its prefixes are valid and canonical, and it is not too long.
    pub open spec fn well_formed(self) -> bool {
        &&& prefixes_valid(self.withdrawn_routes)
        &&& prefixes_canonical(self.withdrawn_routes)
        &&& prefixes_valid(self.network_layer_reachability_information)
        &&& prefixes_canonical(self.network_layer_reachability_information)
        &&& self.encode_error() is None
    }
}

/// Reads what follows the header of an Update message.
pub open spec fn parse_update_body(body: Seq<u8>) -> Result<
    UpdateMessageView,
    ConvertBytesToBgpMessageError,
> {
    if body.len() < 4 {
        Err(ConvertBytesToBgpMessageError::TooShort)
    } else {
        let withdrawn = u16_from_be(body[0], body[1]) as int;
        if body.len() < 4 + withdrawn {
            Err(ConvertBytesToBgpMessageError::LengthMismatch)
        } else {
            let attributes = u16_from_be(body[2 + withdrawn], body[3 + withdrawn]) as int;
            if body.len() < 4 + withdrawn + attributes {
                Err(ConvertBytesToBgpMessageError::LengthMismatch)
            } else {
                match parse_prefixes(body.subrange(2, 2 + withdrawn)) {
                    None => Err(ConvertBytesToBgpMessageError::MalformedNlri),
                    Some(withdrawn_routes) => match parse_attributes(
                        body.subrange(4 + withdrawn, 4 + withdrawn + attributes),
                    ) {
                        None => Err(ConvertBytesToBgpMessageError::MalformedAttribute),
                        Some(path_attributes) => match parse_prefixes(
                            body.skip(4 + withdrawn + attributes),
                        ) {
                            None => Err(ConvertBytesToBgpMessageError::MalformedNlri),
                            Some(network_layer_reachability_information) => Ok(
                                UpdateMessageView {
                                    withdrawn_routes,
                                    path_attributes,
                                    network_layer_reachability_information,
                                },
                            ),
                        },
                    },
                }
            }
        }
    }
}

/// The body of a well-formed Update message, read back, is the same message.
pub proof fn lemma_parse_encoded_update(update: UpdateMessageView)
    requires
        update.well_formed(),
    ensures
        parse_update_body(update.body()) == Ok::<
            UpdateMessageView,
            ConvertBytesToBgpMessageError,
        >(update),
        update.body().len() == update.body_length(),
{
    let body = update.body();
    let withdrawn = update.withdrawn_bytes();
    let attributes = update.attribute_bytes();
    let nlri = update.nlri_bytes();
    lemma_u16_round_trip(withdrawn.len() as u16);
    lemma_u16_round_trip(attributes.len() as u16);
    lemma_parse_encoded_prefixes(update.withdrawn_routes);
    lemma_parse_encoded_attributes(update.path_attributes);
    lemma_parse_encoded_prefixes(update.network_layer_reachability_information);
    let w = withdrawn.len() as int;
    let a = attributes.len() as int;
    assert(body.subrange(2, 2 + w) =~= withdrawn);
    assert(body.subrange(4 + w, 4 + w + a) =~= attributes);
    assert(body.skip(4 + w + a) =~= nlri);
}

/// An Update message that was read from no more bytes than a message can
/// hold is well formed, and its body is the bytes it was read from.
pub proof fn lemma_encode_parsed_update(body: Seq<u8>)
    requires
        parse_update_body(body) is Ok,
        19 + body.len() <= 65535,
    ensures
        parse_update_body(body)->Ok_0.well_formed(),
        parse_update_body(body)->Ok_0.body() == body,
{
    let w = u16_from_be(body[0], body[1]) as int;
    let a = u16_from_be(body[2 + w], body[3 + w]) as int;
    lemma_u16_bytes_round_trip(body[0], body[1]);
    lemma_u16_bytes_round_trip(body[2 + w], body[3 + w]);
    lemma_encode_parsed_prefixes(body.subrange(2, 2 + w));
    lemma_encode_parsed_attributes(body.subrange(4 + w, 4 + w + a));
    lemma_encode_parsed_prefixes(body.skip(4 + w + a));
}

/// An Update message.
#[derive(PartialEq, Eq, Debug, Hash)]
pub struct UpdateMessage {
    pub withdrawn_routes: Vec<Ipv4Network>,
    pub path_attributes: Vec<PathAttribute>,
    pub network_layer_reachability_information: Vec<Ipv4Network>,
}

impl View for UpdateMessage {
    type V = UpdateMessageView;

    open spec fn view(&self) -> UpdateMessageView {
        UpdateMessageView {
            withdrawn_routes: network_views(self.withdrawn_routes@),
            path_attributes: attribute_views(self.path_attributes@),
            network_layer_reachability_information: network_views(
                self.network_layer_reachability_information@,
            ),
        }
    }
}

/// The views of a run of Update messages, in order.
pub open spec fn update_views(updates: Seq<UpdateMessage>) -> Seq<UpdateMessageView> {
    updates.map_values(|update: UpdateMessage| update@)
}

impl Clone for UpdateMessage {
    fn clone(&self) -> (copy: Self)
        ensures
            copy@ == self@,
    {
        UpdateMessage {
            withdrawn_routes: copy_networks(&self.withdrawn_routes),
            path_attributes: copy_attributes(&self.path_attributes),
            network_layer_reachability_information: copy_networks(
                &self.network_layer_reachability_information,
            ),
        }
    }
}

impl UpdateMessage {
    /// An Update message that carries the given attributes, advertises the
    /// given prefixes and withdraws the given routes.
    pub fn new(
        path_attributes: Vec<PathAttribute>,
        network_layer_reachability_information: Vec<Ipv4Network>,
        withdrawn_routes: Vec<Ipv4Network>,
    ) -> (message: Self)
        ensures
            message.path_attributes == path_attributes,
            message.network_layer_reachability_information
                == network_layer_reachability_information,
            message.withdrawn_routes == withdrawn_routes,
    {
        UpdateMessage { withdrawn_routes, path_attributes, network_layer_reachability_information }
    }

    /// What follows the header, in a buffer of its own; or why the message
    /// has no encoding.
    pub fn encode_body(&self) -> (encoded: Result<BytesMut, ConvertBgpMessageToBytesError>)
        ensures
            match encoded {
                Ok(buffer) => self@.encode_error() is None && bytes_contents(buffer)
                    == self@.body() && bytes_contents(buffer).len() == self@.body_length(),
                Err(error) => self@.encode_error() == Some(error),
            },
    {
        let mut withdrawn = new_buffer();
        encode_prefixes_into(&self.withdrawn_routes, &mut withdrawn);
        let mut attributes = new_buffer();
        match encode_attributes_into(&self.path_attributes, &mut attributes) {
            Ok(_) => {},
            Err(error) => {
                return Err(error);
            },
        }
        let mut nlri = new_buffer();
        encode_prefixes_into(&self.network_layer_reachability_information, &mut nlri);
        let withdrawn_length = buffer_len(&withdrawn);
        let attributes_length = buffer_len(&attributes);
        let nlri_length = buffer_len(&nlri);
        if withdrawn_length > 65535 || attributes_length > 65535 || nlri_length > 65535 {
            return Err(ConvertBgpMessageToBytesError::MessageTooLong);
        }
        if 23 + withdrawn_length + attributes_length + nlri_length > 65535 {
            return Err(ConvertBgpMessageToBytesError::MessageTooLong);
        }
        let mut body = new_buffer();
        put_u16(&mut body, withdrawn_length as u16);
        put_slice(&mut body, buffer_bytes(&withdrawn));
        put_u16(&mut body, attributes_length as u16);
        put_slice(&mut body, buffer_bytes(&attributes));
        put_slice(&mut body, buffer_bytes(&nlri));
        Ok(body)
    }

    /// Reads what follows the header of an Update message.
    pub fn decode_body(body: &[u8]) -> (decoded: Result<
        UpdateMessage,
        ConvertBytesToBgpMessageError,
    >)
        ensures
            match decoded {
                Ok(message) => parse_update_body(body@) == Ok::<
                    UpdateMessageView,
                    ConvertBytesToBgpMessageError,
                >(message@),
                Err(error) => parse_update_body(body@) == Err::<
                    UpdateMessageView,
                    ConvertBytesToBgpMessageError,
                >(error),
            },
    {
        if body.len() < 4 {
            return Err(ConvertBytesToBgpMessageError::TooShort);
        }
        let withdrawn_length = read_u16(body, 0) as usize;
        if body.len() - 4 < withdrawn_length {
            return Err(ConvertBytesToBgpMessageError::LengthMismatch);
        }
        let attributes_length = read_u16(body, 2 + withdrawn_length) as usize;
        if body.len() - 4 - withdrawn_length < attributes_length {
            return Err(ConvertBytesToBgpMessageError::LengthMismatch);
        }
        let attributes_start = 4 + withdrawn_length;
        let nlri_start = attributes_start + attributes_length;
        let withdrawn_routes = match decode_prefixes(
            slice_subrange(body, 2, 2 + withdrawn_length),
        ) {
            Some(networks) => networks,
            None => {
                return Err(ConvertBytesToBgpMessageError::MalformedNlri);
            },
        };
        let path_attributes = match decode_attributes(
            slice_subrange(body, attributes_start, nlri_start),
        ) {
            Some(attributes) => attributes,
            None => {
                return Err(ConvertBytesToBgpMessageError::MalformedAttribute);
            },
        };
        let tail = slice_subrange(body, nlri_start, body.len());
        let network_layer_reachability_information = match decode_prefixes(tail) {
            Some(networks) => networks,
            None => {
                return Err(ConvertBytesToBgpMessageError::MalformedNlri);
            },
        };
        Ok(UpdateMessage { withdrawn_routes, path_attributes, network_layer_reachability_information })
    }
}

} // verus!
