use bytes::BytesMut;
use how_to_create_bgp::bgp_type::{AutonomousSystemNumber, Ipv4Address};
use how_to_create_bgp::config::Config;
use how_to_create_bgp::connection::{
    endpoint, get_index_of_message_separator, split_buffer_at_message_separator, take_message,
    Endpoint, BGP_PORT,
};
use how_to_create_bgp::error::{
    ConfigParseError, ConvertBgpMessageToBytesError, ConvertBytesToBgpMessageError, ErrorKind,
    Scope,
};
use how_to_create_bgp::packets::message::Message;

fn keepalive_bytes() -> Vec<u8> {
    let mut bytes = vec![0xffu8; 16];
    bytes.extend_from_slice(&[0x00, 0x13, 0x04]);
    bytes
}

fn open() -> Message {
    Message::new_open(AutonomousSystemNumber(64512), Ipv4Address::new(127, 0, 0, 1))
}

#[test]
fn nothing_is_taken_from_an_empty_buffer() {
    let mut buffer = BytesMut::new();
    assert_eq!(get_index_of_message_separator(&buffer), None);
    assert_eq!(take_message(&mut buffer), Ok(None));
    assert_eq!(buffer.len(), 0);
}

#[test]
fn a_message_that_arrives_in_pieces_is_taken_when_it_is_whole() {
    let bytes = open().to_bytes().unwrap();
    let mut buffer = BytesMut::new();
    for (arrived, byte) in bytes.iter().enumerate() {
        assert_eq!(take_message(&mut buffer), Ok(None));
        assert_eq!(buffer.len(), arrived);
        buffer.extend_from_slice(&[*byte]);
    }
    assert_eq!(get_index_of_message_separator(&buffer), Some(29));
    assert_eq!(take_message(&mut buffer), Ok(Some(open())));
    assert_eq!(buffer.len(), 0);
}

#[test]
fn messages_that_arrive_together_are_taken_one_by_one() {
    let mut buffer = BytesMut::new();
    buffer.extend_from_slice(&open().to_bytes().unwrap());
    buffer.extend_from_slice(&keepalive_bytes());
    buffer.extend_from_slice(&keepalive_bytes()[..10]);
    assert_eq!(take_message(&mut buffer), Ok(Some(open())));
    assert_eq!(buffer.len(), 29);
    assert_eq!(take_message(&mut buffer), Ok(Some(Message::new_keepalive())));
    assert_eq!(&buffer[..], &keepalive_bytes()[..10]);
    assert_eq!(take_message(&mut buffer), Ok(None));
    assert_eq!(buffer.len(), 10);
}

#[test]
fn split_takes_exactly_the_first_frame() {
    let mut buffer = BytesMut::new();
    buffer.extend_from_slice(&keepalive_bytes());
    buffer.extend_from_slice(&[1, 2, 3]);
    let frame = split_buffer_at_message_separator(&mut buffer).unwrap();
    assert_eq!(&frame[..], &keepalive_bytes()[..]);
    assert_eq!(&buffer[..], &[1, 2, 3]);
    assert!(split_buffer_at_message_separator(&mut buffer).is_none());
    assert_eq!(&buffer[..], &[1, 2, 3]);
}

#[test]
fn a_frame_that_is_no_message_is_an_error() {
    let mut bytes = keepalive_bytes();
    bytes[0] = 0;
    let mut buffer = BytesMut::from(&bytes[..]);
    assert_eq!(take_message(&mut buffer), Err(ConvertBytesToBgpMessageError::BadMarker));
    assert_eq!(buffer.len(), 0);

    // a header that announces fewer bytes than a header takes
    let mut bytes = keepalive_bytes();
    bytes[17] = 5;
    let mut buffer = BytesMut::from(&bytes[..]);
    assert_eq!(take_message(&mut buffer), Err(ConvertBytesToBgpMessageError::TooShort));
    assert_eq!(buffer.len(), 14);
}

#[test]
fn active_speaker_connects_and_passive_speaker_accepts() {
    assert_eq!(BGP_PORT, 179);
    let active: Config = "64512 127.0.0.1 64513 127.0.0.2 active".parse().unwrap();
    assert_eq!(
        endpoint(&active),
        Endpoint::Connect { address: Ipv4Address::new(127, 0, 0, 2), port: 179 }
    );
    let passive: Config = "64513 127.0.0.2 64512 127.0.0.1 passive".parse().unwrap();
    assert_eq!(
        endpoint(&passive),
        Endpoint::Accept { address: Ipv4Address::new(127, 0, 0, 2), port: 179 }
    );
}

#[test]
fn failures_before_any_session_stop_the_program() {
    assert_eq!(ErrorKind::ConfigParse(ConfigParseError::InvalidMode).scope(), Scope::Process);
    assert_eq!(ErrorKind::RouteSourceFailed.scope(), Scope::Process);
    assert_eq!(ErrorKind::ConnectFailed.scope(), Scope::Session);
    assert_eq!(ErrorKind::IoFailed.scope(), Scope::Session);
    assert_eq!(
        ErrorKind::DecodeFailed(ConvertBytesToBgpMessageError::BadMarker).scope(),
        Scope::Session
    );
    assert_eq!(
        ErrorKind::EncodeFailed(ConvertBgpMessageToBytesError::MessageTooLong).scope(),
        Scope::Session
    );
}
