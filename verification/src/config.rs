//! What a speaker is told about itself and one peer.

use vstd::prelude::*;
use vstd::slice::slice_subrange;
use vstd::string::StrSliceExecFns;
use crate::bgp_type::{AutonomousSystemNumber, Ipv4Address};
use crate::error::ConfigParseError;
use crate::routing::{
    copy_networks, ipnetwork_from_str, network_views, Ipv4Network, Ipv4NetworkView,
};
use crate::text::{
    address, chars_of, decimal, field_spans, parse_address, parse_decimal, split_on,
};

verus! {

/// Which side opens the TCP connection.
#[derive(PartialEq, Eq, Debug, Clone, Copy, Hash, Structural)]
pub enum Mode {
    /// Wait for the peer to connect.
    Passive,
    /// Connect to the peer.
    Active,
}

/// A configuration as a mathematical value.
pub struct ConfigView {
    pub local_as: AutonomousSystemNumber,
    pub local_ip: Ipv4Address,
    pub remote_as: AutonomousSystemNumber,
    pub remote_ip: Ipv4Address,
    pub mode: Mode,
    pub networks: Seq<Ipv4NetworkView>,
}

/// The configuration of one session: who the speaker is, who the peer is,
/// which side connects, and which networks the speaker announces.
#[derive(PartialEq, Eq, Debug, Hash)]
pub struct Config {
    pub local_as: AutonomousSystemNumber,
    pub local_ip: Ipv4Address,
    pub remote_as: AutonomousSystemNumber,
    pub remote_ip: Ipv4Address,
    pub mode: Mode,
    pub networks: Vec<Ipv4Network>,
}

impl View for Config {
    type V = ConfigView;

    open spec fn view(&self) -> ConfigView {
        ConfigView {
            local_as: self.local_as,
            local_ip: self.local_ip,
            remote_as: self.remote_as,
            remote_ip: self.remote_ip,
            mode: self.mode,
            networks: network_views(self.networks@),
        }
    }
}

impl Clone for Config {
    fn clone(&self) -> (copy: Self)
        ensures
            copy@ == self@,
    {
        Config {
            local_as: self.local_as,
            local_ip: self.local_ip,
            remote_as: self.remote_as,
            remote_ip: self.remote_ip,
            mode: self.mode,
            networks: copy_networks(&self.networks),
        }
    }
}

impl Config {
    /// A configuration made of its six parts.
    pub fn new(
        local_as: AutonomousSystemNumber,
        local_ip: Ipv4Address,
        remote_as: AutonomousSystemNumber,
        remote_ip: Ipv4Address,
        mode: Mode,
        networks: Vec<Ipv4Network>,
    ) -> (config: Self)
        ensures
            config@ == (ConfigView {
                local_as,
                local_ip,
                remote_as,
                remote_ip,
                mode,
                networks: network_views(networks@),
            }),
    {
        Config { local_as, local_ip, remote_as, remote_ip, mode, networks }
    }
}

/// The AS number that a text stands for: one or more decimal digits that make
/// a number below 65536.
pub open spec fn parse_as_number(text: Seq<char>) -> Option<AutonomousSystemNumber> {
    match parse_decimal(text, 65535) {
        Some(value) => Some(AutonomousSystemNumber(value as u16)),
        None => None,
    }
}

/// The mode that a text stands for: `active` or `passive`.
pub open spec fn parse_mode(text: Seq<char>) -> Option<Mode> {
    if text == seq!['a', 'c', 't', 'i', 'v', 'e'] {
        Some(Mode::Active)
    } else if text == seq!['p', 'a', 's', 's', 'i', 'v', 'e'] {
        Some(Mode::Passive)
    } else {
        None
    }
}

/// The network that a text in CIDR notation stands for.
pub open spec fn parse_network(text: Seq<char>) -> Option<Ipv4NetworkView> {
    match ipnetwork_from_str(text) {
        Some((addr, prefix)) => Some(Ipv4NetworkView { addr: Ipv4Address(addr), prefix }),
        None => None,
    }
}

/// The networks that a run of texts stands for, where each of them stands for
/// one.
pub open spec fn parse_networks(fields: Seq<Seq<char>>) -> Option<Seq<Ipv4NetworkView>> {
    if forall|i: int| 0 <= i < fields.len() ==> parse_network(#[trigger] fields[i]) is Some {
        Some(Seq::new(fields.len(), |i: int| parse_network(fields[i])->Some_0))
    } else {
        None
    }
}

/// The configuration that a line stands for. Its fields stand between single
/// spaces: local AS number, local address, remote AS number, remote address,
/// mode, and then any number of networks. The first field that does not read
/// decides the error.
pub open spec fn parse_config(text: Seq<char>) -> Result<ConfigView, ConfigParseError> {
    let fields = split_on(text, ' ');
    if fields.len() < 5 {
        Err(ConfigParseError::MissingField)
    } else if parse_as_number(fields[0]) is None {
        Err(ConfigParseError::InvalidAsNumber)
    } else if parse_address(fields[1]) is None {
        Err(ConfigParseError::InvalidIpAddress)
    } else if parse_as_number(fields[2]) is None {
        Err(ConfigParseError::InvalidAsNumber)
    } else if parse_address(fields[3]) is None {
        Err(ConfigParseError::InvalidIpAddress)
    } else if parse_mode(fields[4]) is None {
        Err(ConfigParseError::InvalidMode)
    } else if parse_networks(fields.skip(5)) is None {
        Err(ConfigParseError::InvalidNetwork)
    } else {
        Ok(
            ConfigView {
                local_as: parse_as_number(fields[0])->Some_0,
                local_ip: parse_address(fields[1])->Some_0,
                remote_as: parse_as_number(fields[2])->Some_0,
                remote_ip: parse_address(fields[3])->Some_0,
                mode: parse_mode(fields[4])->Some_0,
                networks: parse_networks(fields.skip(5))->Some_0,
            },
        )
    }
}

/// Reads an AS number.
fn as_number(chars: &[char]) -> (parsed: Option<AutonomousSystemNumber>)
    ensures
        parsed == parse_as_number(chars@),
{
    match decimal(chars, 65535) {
        Some(value) => Some(AutonomousSystemNumber(value as u16)),
        None => None,
    }
}

/// Reads a mode.
fn mode(chars: &[char]) -> (parsed: Option<Mode>)
    ensures
        parsed == parse_mode(chars@),
{
    let active = ['a', 'c', 't', 'i', 'v', 'e'];
    let passive = ['p', 'a', 's', 's', 'i', 'v', 'e'];
    if same_chars(chars, active.as_slice()) {
        Some(Mode::Active)
    } else if same_chars(chars, passive.as_slice()) {
        Some(Mode::Passive)
    } else {
        None
    }
}

/// Whether two runs of characters are the same.
fn same_chars(left: &[char], right: &[char]) -> (same: bool)
    ensures
        same == (left@ == right@),
{
    if left.len() != right.len() {
        return false;
    }
    let mut index: usize = 0;
    while index < left.len()
        invariant
            index <= left.len(),
            left@.len() == right@.len(),
            left@.take(index as int) == right@.take(index as int),
        decreases left.len() - index,
    {
        if left[index] != right[index] {
            return false;
        }
        index += 1;
    }
    assert(left@.take(index as int) =~= left@);
    assert(right@.take(index as int) =~= right@);
    true
}

impl Config {
    /// Reads a configuration from a line of the form
    /// `local-AS local-IP remote-AS remote-IP mode [network ...]`.
    pub fn from_str(text: &str) -> (config: Result<Config, ConfigParseError>)
        ensures
            match config {
                Ok(read) => parse_config(text@) == Ok::<ConfigView, ConfigParseError>(read@),
                Err(error) => parse_config(text@) == Err::<ConfigView, ConfigParseError>(error),
            },
    {
        let chars = chars_of(text);
        let spans = field_spans(chars.as_slice(), ' ');
        let ghost fields = split_on(text@, ' ');
        if spans.len() < 5 {
            return Err(ConfigParseError::MissingField);
        }
        let local_as = match as_number(slice_subrange(chars.as_slice(), spans[0].0, spans[0].1)) {
            Some(number) => number,
            None => {
                return Err(ConfigParseError::InvalidAsNumber);
            },
        };
        let local_ip = match address(slice_subrange(chars.as_slice(), spans[1].0, spans[1].1)) {
            Some(addr) => addr,
            None => {
                return Err(ConfigParseError::InvalidIpAddress);
            },
        };
        let remote_as = match as_number(slice_subrange(chars.as_slice(), spans[2].0, spans[2].1)) {
            Some(number) => number,
            None => {
                return Err(ConfigParseError::InvalidAsNumber);
            },
        };
        let remote_ip = match address(slice_subrange(chars.as_slice(), spans[3].0, spans[3].1)) {
            Some(addr) => addr,
            None => {
                return Err(ConfigParseError::InvalidIpAddress);
            },
        };
        let mode = match mode(slice_subrange(chars.as_slice(), spans[4].0, spans[4].1)) {
            Some(mode) => mode,
            None => {
                return Err(ConfigParseError::InvalidMode);
            },
        };
        let mut networks: Vec<Ipv4Network> = Vec::new();
        let mut index: usize = 5;
        let ghost rest = fields.skip(5);
        while index < spans.len()
            invariant
                5 <= index <= spans.len(),
                chars@ == text@,
                fields == split_on(text@, ' '),
                rest == fields.skip(5),
                spans@.len() == fields.len(),
                parse_as_number(fields[0]) == Some(local_as),
                parse_address(fields[1]) == Some(local_ip),
                parse_as_number(fields[2]) == Some(remote_as),
                parse_address(fields[3]) == Some(remote_ip),
                parse_mode(fields[4]) == Some(mode),
                forall|k: int|
                    0 <= k < spans@.len() ==> (#[trigger] spans@[k]).0 <= spans@[k].1
                        <= chars@.len() && fields[k] == chars@.subrange(
                        spans@[k].0 as int,
                        spans@[k].1 as int,
                    ),
                networks@.len() == index - 5,
                forall|k: int|
                    0 <= k < networks@.len() ==> parse_network(#[trigger] rest[k]) == Some(
                        networks@[k]@,
                    ),
            decreases spans.len() - index,
        {
            let field = text.substring_char(spans[index].0, spans[index].1);
            match Ipv4Network::from_str(field) {
                Ok(network) => {
                    networks.push(network);
                },
                Err(error) => {
                    assert(parse_network(rest[index - 5]) is None);
                    return Err(error);
                },
            }
            index += 1;
        }
        proof {
            assert(network_views(networks@) =~= parse_networks(rest)->Some_0);
        }
        Ok(Config { local_as, local_ip, remote_as, remote_ip, mode, networks })
    }
}

impl std::str::FromStr for Config {
    type Err = ConfigParseError;

    /// Reads a configuration as `Config::from_str` does.
    fn from_str(text: &str) -> (config: Result<Self, Self::Err>)
        ensures
            match config {
                Ok(read) => parse_config(text@) == Ok::<ConfigView, ConfigParseError>(read@),
                Err(error) => parse_config(text@) == Err::<ConfigView, ConfigParseError>(error),
            },
    {
        Config::from_str(text)
    }
}

} // verus!
