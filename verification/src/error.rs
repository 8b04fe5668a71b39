//! The ways in which the library's conversions fail.

use vstd::prelude::*;

verus! {

/// Why a byte string is not a well-formed message.
#[derive(PartialEq, Eq, Hash, Debug, Clone, Copy, Structural)]
pub enum ConvertBytesToBgpMessageError {
    /// Fewer bytes than the fixed part of the message takes.
    TooShort,
    /// The first sixteen bytes are not all ones.
    BadMarker,
    /// The type byte names no message that this speaker knows.
    UnknownType,
    /// A length field disagrees with the number of bytes at hand.
    LengthMismatch,
    /// The path attributes are not in the canonical form of a known attribute.
    MalformedAttribute,
    /// A prefix is cut short, longer than 32 bits, or has host bits set.
    MalformedNlri,
}

/// Why a message has no encoding.
#[derive(PartialEq, Eq, Hash, Debug, Clone, Copy, Structural)]
pub enum ConvertBgpMessageToBytesError {
    /// The optional parameters of an Open take more than 255 bytes.
    OptionalParametersTooLong,
    /// An AS path holds more than 255 numbers.
    AsPathTooLong,
    /// A section of the message, or the message, takes more bytes than its
    /// 16-bit length field can say.
    MessageTooLong,
}

/// Why a text is not a configuration.
#[derive(PartialEq, Eq, Hash, Debug, Clone, Copy, Structural)]
pub enum ConfigParseError {
    /// One of the five leading fields is absent.
    MissingField,
    /// An AS number is not a decimal number below 65536.
    InvalidAsNumber,
    /// An address is not four decimal octets joined by dots.
    InvalidIpAddress,
    /// The mode is neither `active` nor `passive`.
    InvalidMode,
    /// A network is not an address and a prefix length in CIDR notation.
    InvalidNetwork,
}

/// What went wrong, by kind.
#[derive(PartialEq, Eq, Hash, Debug, Clone, Copy, Structural)]
pub enum ErrorKind {
    /// The configuration did not read.
    ConfigParse(ConfigParseError),
    /// The TCP connection to the peer could not be established.
    ConnectFailed,
    /// Bytes that arrived from the peer are no message.
    DecodeFailed(ConvertBytesToBgpMessageError),
    /// A message to send has no encoding.
    EncodeFailed(ConvertBgpMessageToBytesError),
    /// Reading from the peer or writing to it failed, or the peer closed the
    /// connection.
    IoFailed,
    /// The host's routing table could not be read.
    RouteSourceFailed,
}

/// How much a failure brings down.
#[derive(PartialEq, Eq, Hash, Debug, Clone, Copy, Structural)]
pub enum Scope {
    /// The whole program stops.
    Process,
    /// The session with one peer ends; the others go on.
    Session,
}

impl ErrorKind {
    /// How much a failure of this kind brings down: one that happens before
    /// any session runs, while the configuration is read or the routes are
    /// gathered, stops the program; one that happens on the network ends the
    /// session it happened in. Nothing is retried.
    pub fn scope(&self) -> (scope: Scope)
        ensures
            scope == match *self {
                ErrorKind::ConfigParse(_) => Scope::Process,
                ErrorKind::RouteSourceFailed => Scope::Process,
                ErrorKind::ConnectFailed => Scope::Session,
                ErrorKind::DecodeFailed(_) => Scope::Session,
                ErrorKind::EncodeFailed(_) => Scope::Session,
                ErrorKind::IoFailed => Scope::Session,
            },
    {
        match self {
            ErrorKind::ConfigParse(_) | ErrorKind::RouteSourceFailed => Scope::Process,
            _ => Scope::Session,
        }
    }
}

} // verus!
