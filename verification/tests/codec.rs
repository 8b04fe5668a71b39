use bytes::BytesMut;
use how_to_create_bgp::bgp_type::{AutonomousSystemNumber, Ipv4Address};
use how_to_create_bgp::error::{ConvertBgpMessageToBytesError, ConvertBytesToBgpMessageError};
use how_to_create_bgp::packets::header::{Header, MessageType};
use how_to_create_bgp::packets::keepalive::KeepaliveMessage;
use how_to_create_bgp::packets::message::Message;
use how_to_create_bgp::packets::open::OpenMessage;
use how_to_create_bgp::packets::update::UpdateMessage;
use how_to_create_bgp::path_attribute::{AsPath, Origin, PathAttribute};
use how_to_create_bgp::routing::Ipv4Network;

fn keepalive_bytes() -> Vec<u8> {
    let mut bytes = vec![0xffu8; 16];
    bytes.extend_from_slice(&[0x00, 0x13, 0x04]);
    bytes
}

fn open_bytes() -> Vec<u8> {
    let mut bytes = vec![0xffu8; 16];
    bytes.extend_from_slice(&[0x00, 0x1d, 0x01]);
    bytes.extend_from_slice(&[0x04, 0xfc, 0x00, 0x00, 0x00, 0x7f, 0x00, 0x00, 0x01, 0x00]);
    bytes
}

fn network(a: u8, b: u8, c: u8, d: u8, prefix: u8) -> Ipv4Network {
    Ipv4Network::new(Ipv4Address::new(a, b, c, d), prefix).unwrap()
}

fn sample_update() -> UpdateMessage {
    UpdateMessage::new(
        vec![
            PathAttribute::Origin(Origin::Igp),
            PathAttribute::AsPath(AsPath::AsSequence(vec![
                AutonomousSystemNumber(64513),
                AutonomousSystemNumber(64512),
            ])),
            PathAttribute::NextHop(Ipv4Address::new(10, 200, 100, 3)),
        ],
        vec![network(10, 100, 220, 0, 24)],
        vec![network(192, 168, 0, 0, 16)],
    )
}

fn sample_update_bytes() -> Vec<u8> {
    let mut bytes = vec![0xffu8; 16];
    // length 19 + 2 + 3 + 2 + (4 + 9 + 7) + 4 = 50, type 2
    bytes.extend_from_slice(&[0x00, 0x32, 0x02]);
    // withdrawn routes: 3 bytes, 192.168.0.0/16
    bytes.extend_from_slice(&[0x00, 0x03, 0x10, 0xc0, 0xa8]);
    // path attributes: 20 bytes
    bytes.extend_from_slice(&[0x00, 0x14]);
    bytes.extend_from_slice(&[0x40, 0x01, 0x01, 0x00]);
    bytes.extend_from_slice(&[0x40, 0x02, 0x06, 0x02, 0x02, 0xfc, 0x01, 0xfc, 0x00]);
    bytes.extend_from_slice(&[0x40, 0x03, 0x04, 0x0a, 0xc8, 0x64, 0x03]);
    // advertised prefixes: 10.100.220.0/24
    bytes.extend_from_slice(&[0x18, 0x0a, 0x64, 0xdc]);
    bytes
}

#[test]
fn keepalive_encodes_to_nineteen_bytes() {
    let bytes = Message::new_keepalive().to_bytes().unwrap();
    assert_eq!(bytes.len(), 19);
    assert_eq!(&bytes[..], &keepalive_bytes()[..]);
}

#[test]
fn keepalive_decodes_from_nineteen_bytes() {
    let message = Message::decode(&keepalive_bytes()).unwrap();
    assert_eq!(message, Message::Keepalive(KeepaliveMessage::new()));
}

#[test]
fn keepalive_message_has_its_own_conversions() {
    let bytes = KeepaliveMessage::new().to_bytes();
    assert_eq!(&bytes[..], &keepalive_bytes()[..]);
    assert_eq!(KeepaliveMessage::from_bytes(&bytes), Ok(KeepaliveMessage::new()));
    let open = BytesMut::from(&open_bytes()[..]);
    assert_eq!(
        KeepaliveMessage::from_bytes(&open),
        Err(ConvertBytesToBgpMessageError::UnknownType)
    );
}

#[test]
fn open_encodes_to_twenty_nine_bytes() {
    let message = Message::new_open(AutonomousSystemNumber(64512), Ipv4Address::new(127, 0, 0, 1));
    let bytes = message.to_bytes().unwrap();
    assert_eq!(bytes.len(), 29);
    assert_eq!(&bytes[..], &open_bytes()[..]);
}

#[test]
fn open_decodes_to_the_message_that_was_encoded() {
    let message = Message::decode(&open_bytes()).unwrap();
    let expected = OpenMessage {
        version: 4,
        my_as_number: AutonomousSystemNumber(64512),
        hold_time: 0,
        bgp_identifier: Ipv4Address::new(127, 0, 0, 1),
        optional_parameters: vec![],
    };
    assert_eq!(message, Message::Open(expected));
    assert_eq!(
        message,
        Message::new_open(AutonomousSystemNumber(64512), Ipv4Address::new(127, 0, 0, 1))
    );
}

#[test]
fn open_keeps_optional_parameters_through_a_round_trip() {
    let message = Message::Open(OpenMessage {
        version: 4,
        my_as_number: AutonomousSystemNumber(65000),
        hold_time: 180,
        bgp_identifier: Ipv4Address::new(192, 0, 2, 1),
        optional_parameters: vec![2, 6, 1, 4, 0, 1, 0, 1],
    });
    let bytes = message.to_bytes().unwrap();
    assert_eq!(bytes.len(), 37);
    assert_eq!(bytes[17], 37);
    assert_eq!(bytes[22], 0);
    assert_eq!(bytes[23], 180);
    assert_eq!(bytes[28], 8);
    assert_eq!(Message::from_bytes(&bytes).unwrap(), message);
}

#[test]
fn update_encodes_to_its_wire_form() {
    let bytes = Message::Update(sample_update()).to_bytes().unwrap();
    assert_eq!(&bytes[..], &sample_update_bytes()[..]);
}

#[test]
fn update_decodes_from_its_wire_form() {
    let message = Message::decode(&sample_update_bytes()).unwrap();
    assert_eq!(message, Message::Update(sample_update()));
}

#[test]
fn decode_then_encode_gives_the_same_bytes() {
    for bytes in [keepalive_bytes(), open_bytes(), sample_update_bytes()] {
        let message = Message::decode(&bytes).unwrap();
        let again = message.to_bytes().unwrap();
        assert_eq!(&again[..], &bytes[..]);
    }
}

#[test]
fn encode_then_decode_gives_the_same_message() {
    let messages = vec![
        Message::new_keepalive(),
        Message::new_open(AutonomousSystemNumber(1), Ipv4Address::new(1, 2, 3, 4)),
        Message::Update(sample_update()),
        Message::Update(UpdateMessage::new(vec![], vec![], vec![])),
    ];
    for message in messages {
        let bytes = message.to_bytes().unwrap();
        assert_eq!(Message::from_bytes(&bytes).unwrap(), message);
        assert_eq!(bytes.len(), (bytes[16] as usize) * 256 + bytes[17] as usize);
    }
}

#[test]
fn empty_update_is_twenty_three_bytes() {
    let bytes = Message::Update(UpdateMessage::new(vec![], vec![], vec![])).to_bytes().unwrap();
    let mut expected = vec![0xffu8; 16];
    expected.extend_from_slice(&[0x00, 0x17, 0x02, 0x00, 0x00, 0x00, 0x00]);
    assert_eq!(&bytes[..], &expected[..]);
}

#[test]
fn header_encodes_marker_length_and_type() {
    let mut buffer = BytesMut::new();
    Header::new(0x0102, MessageType::Update).encode_into(&mut buffer);
    let mut expected = vec![0xffu8; 16];
    expected.extend_from_slice(&[0x01, 0x02, 0x02]);
    assert_eq!(&buffer[..], &expected[..]);
    assert_eq!(Header::decode(&expected), Ok(Header { length: 0x0102, type_: MessageType::Update }));
}

#[test]
fn header_encoding_appends_to_what_the_buffer_holds() {
    let mut buffer = BytesMut::from(&[1u8, 2, 3][..]);
    Header::new(19, MessageType::Keepalive).encode_into(&mut buffer);
    assert_eq!(buffer.len(), 22);
    assert_eq!(&buffer[..3], &[1, 2, 3]);
    assert_eq!(&buffer[3..], &keepalive_bytes()[..]);
}

#[test]
fn decode_refuses_a_short_buffer() {
    assert_eq!(Message::decode(&[]), Err(ConvertBytesToBgpMessageError::TooShort));
    assert_eq!(
        Message::decode(&keepalive_bytes()[..18]),
        Err(ConvertBytesToBgpMessageError::TooShort)
    );
}

#[test]
fn decode_refuses_a_bad_marker() {
    let mut bytes = keepalive_bytes();
    bytes[7] = 0xfe;
    assert_eq!(Message::decode(&bytes), Err(ConvertBytesToBgpMessageError::BadMarker));
}

#[test]
fn decode_refuses_an_unknown_type() {
    for code in [0u8, 3, 5, 255] {
        let mut bytes = keepalive_bytes();
        bytes[18] = code;
        assert_eq!(Message::decode(&bytes), Err(ConvertBytesToBgpMessageError::UnknownType));
    }
}

#[test]
fn decode_refuses_a_length_that_exceeds_the_buffer() {
    let mut bytes = keepalive_bytes();
    bytes[17] = 20;
    assert_eq!(Message::decode(&bytes), Err(ConvertBytesToBgpMessageError::LengthMismatch));
}

#[test]
fn decode_refuses_bytes_after_the_message() {
    let mut bytes = keepalive_bytes();
    bytes.push(0);
    assert_eq!(Message::decode(&bytes), Err(ConvertBytesToBgpMessageError::LengthMismatch));
}

#[test]
fn decode_refuses_a_keepalive_with_a_body() {
    let mut bytes = keepalive_bytes();
    bytes.push(0);
    bytes[17] = 20;
    assert_eq!(Message::decode(&bytes), Err(ConvertBytesToBgpMessageError::LengthMismatch));
}

#[test]
fn decode_refuses_an_open_that_is_cut_short() {
    let mut bytes = open_bytes();
    bytes.truncate(28);
    bytes[17] = 28;
    assert_eq!(Message::decode(&bytes), Err(ConvertBytesToBgpMessageError::TooShort));
}

#[test]
fn decode_refuses_an_open_whose_parameter_length_is_wrong() {
    let mut bytes = open_bytes();
    bytes[28] = 1;
    assert_eq!(Message::decode(&bytes), Err(ConvertBytesToBgpMessageError::LengthMismatch));
}

#[test]
fn decode_refuses_an_update_that_is_cut_short() {
    let mut bytes = vec![0xffu8; 16];
    bytes.extend_from_slice(&[0x00, 0x16, 0x02, 0x00, 0x00, 0x00]);
    assert_eq!(Message::decode(&bytes), Err(ConvertBytesToBgpMessageError::TooShort));
}

#[test]
fn decode_refuses_an_update_whose_sections_overrun() {
    let mut bytes = vec![0xffu8; 16];
    bytes.extend_from_slice(&[0x00, 0x17, 0x02, 0x00, 0x01, 0x00, 0x00]);
    assert_eq!(Message::decode(&bytes), Err(ConvertBytesToBgpMessageError::LengthMismatch));
    let mut bytes = vec![0xffu8; 16];
    bytes.extend_from_slice(&[0x00, 0x17, 0x02, 0x00, 0x00, 0x00, 0x01]);
    assert_eq!(Message::decode(&bytes), Err(ConvertBytesToBgpMessageError::LengthMismatch));
}

#[test]
fn decode_refuses_a_malformed_attribute() {
    // an origin of 3
    let mut bytes = vec![0xffu8; 16];
    bytes.extend_from_slice(&[0x00, 0x1b, 0x02, 0x00, 0x00, 0x00, 0x04, 0x40, 0x01, 0x01, 0x03]);
    assert_eq!(Message::decode(&bytes), Err(ConvertBytesToBgpMessageError::MalformedAttribute));
    // an attribute of a type that is not known
    let mut bytes = vec![0xffu8; 16];
    bytes.extend_from_slice(&[0x00, 0x1b, 0x02, 0x00, 0x00, 0x00, 0x04, 0x40, 0x04, 0x01, 0x00]);
    assert_eq!(Message::decode(&bytes), Err(ConvertBytesToBgpMessageError::MalformedAttribute));
    // flags that are not those of a well-known attribute
    let mut bytes = vec![0xffu8; 16];
    bytes.extend_from_slice(&[0x00, 0x1b, 0x02, 0x00, 0x00, 0x00, 0x04, 0x80, 0x01, 0x01, 0x00]);
    assert_eq!(Message::decode(&bytes), Err(ConvertBytesToBgpMessageError::MalformedAttribute));
}

#[test]
fn decode_refuses_a_malformed_prefix() {
    // a prefix length of 33
    let mut bytes = vec![0xffu8; 16];
    bytes.extend_from_slice(&[0x00, 0x1c, 0x02, 0x00, 0x00, 0x00, 0x00, 0x21, 1, 2, 3, 4]);
    assert_eq!(Message::decode(&bytes), Err(ConvertBytesToBgpMessageError::MalformedNlri));
    // a prefix that is cut short
    let mut bytes = vec![0xffu8; 16];
    bytes.extend_from_slice(&[0x00, 0x19, 0x02, 0x00, 0x00, 0x00, 0x00, 0x18, 10]);
    assert_eq!(Message::decode(&bytes), Err(ConvertBytesToBgpMessageError::MalformedNlri));
    // host bits set: 10.100.220.1/24 has none on the wire, but 10.100.221.0/23 has
    let mut bytes = vec![0xffu8; 16];
    bytes.extend_from_slice(&[0x00, 0x1b, 0x02, 0x00, 0x00, 0x00, 0x00, 0x17, 10, 100, 221]);
    assert_eq!(Message::decode(&bytes), Err(ConvertBytesToBgpMessageError::MalformedNlri));
    // the same in the withdrawn routes
    let mut bytes = vec![0xffu8; 16];
    bytes.extend_from_slice(&[0x00, 0x1b, 0x02, 0x00, 0x04, 0x17, 10, 100, 221, 0x00, 0x00]);
    assert_eq!(Message::decode(&bytes), Err(ConvertBytesToBgpMessageError::MalformedNlri));
}

#[test]
fn encode_refuses_optional_parameters_that_are_too_long() {
    let message = Message::Open(OpenMessage {
        version: 4,
        my_as_number: AutonomousSystemNumber(1),
        hold_time: 0,
        bgp_identifier: Ipv4Address::new(1, 1, 1, 1),
        optional_parameters: vec![0; 256],
    });
    assert_eq!(
        message.to_bytes(),
        Err(ConvertBgpMessageToBytesError::OptionalParametersTooLong)
    );
}

#[test]
fn encode_refuses_an_as_path_that_is_too_long() {
    let path = AsPath::AsSequence(vec![AutonomousSystemNumber(7); 256]);
    let message = Message::Update(UpdateMessage::new(
        vec![PathAttribute::AsPath(path)],
        vec![],
        vec![],
    ));
    assert_eq!(message.to_bytes(), Err(ConvertBgpMessageToBytesError::AsPathTooLong));
}

#[test]
fn encode_refuses_a_message_that_is_too_long() {
    // 23 bytes of header and lengths, 13102 prefixes of 5 bytes, one of 2: 65535 in all
    let mut prefixes = vec![network(10, 0, 0, 1, 32); 13102];
    prefixes.push(network(10, 0, 0, 0, 8));
    let fits = Message::Update(UpdateMessage::new(vec![], prefixes.clone(), vec![]));
    let bytes = fits.to_bytes().unwrap();
    assert_eq!(bytes.len(), 65535);
    assert_eq!(&bytes[16..18], &[0xff, 0xff]);
    assert_eq!(Message::from_bytes(&bytes).unwrap(), fits);
    // one byte more
    let too_long =
        Message::Update(UpdateMessage::new(vec![], prefixes, vec![network(0, 0, 0, 0, 0)]));
    assert_eq!(too_long.to_bytes(), Err(ConvertBgpMessageToBytesError::MessageTooLong));
}

#[test]
fn long_as_path_uses_the_extended_length() {
    let numbers: Vec<AutonomousSystemNumber> =
        (0..200u16).map(|n| AutonomousSystemNumber(n + 1000)).collect();
    let attribute = PathAttribute::AsPath(AsPath::AsSequence(numbers));
    let mut buffer = BytesMut::new();
    attribute.encode_into(&mut buffer).unwrap();
    assert_eq!(buffer.len(), 4 + 2 + 400);
    assert_eq!(&buffer[..6], &[0x50, 0x02, 0x01, 0x92, 0x02, 200]);
    assert_eq!(&buffer[6..8], &[0x03, 0xe8]);
    let (decoded, taken) = PathAttribute::decode(&buffer).unwrap();
    assert_eq!(taken, 406);
    assert_eq!(decoded, attribute);
}

#[test]
fn short_as_path_is_refused_with_the_extended_length() {
    // the extended form of a value that fits one byte is not canonical
    let bytes = [0x50, 0x02, 0x00, 0x02, 0x02, 0x00];
    assert_eq!(PathAttribute::decode(&bytes), None);
    let bytes = [0x40, 0x02, 0x02, 0x02, 0x00];
    assert_eq!(
        PathAttribute::decode(&bytes),
        Some((PathAttribute::AsPath(AsPath::AsSequence(vec![])), 5))
    );
}

#[test]
fn as_set_and_sequence_have_their_own_segment_types() {
    let numbers = vec![AutonomousSystemNumber(0x0102)];
    let mut buffer = BytesMut::new();
    AsPath::AsSet(numbers.clone()).encode_into(&mut buffer).unwrap();
    assert_eq!(&buffer[..], &[1, 1, 1, 2]);
    let mut buffer = BytesMut::new();
    AsPath::AsSequence(numbers.clone()).encode_into(&mut buffer).unwrap();
    assert_eq!(&buffer[..], &[2, 1, 1, 2]);
    assert_eq!(AsPath::decode(&[1, 1, 1, 2]), Some(AsPath::AsSet(numbers.clone())));
    assert_eq!(AsPath::decode(&[2, 1, 1, 2]), Some(AsPath::AsSequence(numbers)));
    assert_eq!(AsPath::decode(&[3, 1, 1, 2]), None);
    assert_eq!(AsPath::decode(&[2, 2, 1, 2]), None);
}

#[test]
fn origin_codes_are_zero_one_two() {
    assert_eq!(Origin::Igp.to_u8(), 0);
    assert_eq!(Origin::Egp.to_u8(), 1);
    assert_eq!(Origin::Incomplete.to_u8(), 2);
    assert_eq!(Origin::from_u8(0), Some(Origin::Igp));
    assert_eq!(Origin::from_u8(1), Some(Origin::Egp));
    assert_eq!(Origin::from_u8(2), Some(Origin::Incomplete));
    assert_eq!(Origin::from_u8(3), None);
}

#[test]
fn message_type_codes_are_one_two_four() {
    assert_eq!(MessageType::Open.to_u8(), 1);
    assert_eq!(MessageType::Update.to_u8(), 2);
    assert_eq!(MessageType::Keepalive.to_u8(), 4);
    assert_eq!(MessageType::from_u8(1), Some(MessageType::Open));
    assert_eq!(MessageType::from_u8(2), Some(MessageType::Update));
    assert_eq!(MessageType::from_u8(4), Some(MessageType::Keepalive));
    assert_eq!(MessageType::from_u8(3), None);
}

#[test]
fn clone_gives_an_equal_message() {
    let message = Message::Update(sample_update());
    assert_eq!(message.clone(), message);
}
