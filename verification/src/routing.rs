//! IPv4 prefixes and the routing information bases built from them.

use vstd::prelude::*;
use vstd::slice::slice_subrange;
use bytes::BytesMut;
use crate::bgp_type::{AutonomousSystemNumber, Ipv4Address};
use crate::buffer::{bytes_contents, new_buffer, put_slice, put_u8};
use crate::config::Config;
use crate::error::ConfigParseError;
use crate::packets::update::{update_views, UpdateMessage, UpdateMessageView};
use crate::path_attribute::{
    attribute_views, copy_attributes, AsPath, AsPathView, Origin, PathAttribute,
    PathAttributeView,
};
use crate::wire::{join_u32, lemma_u32_bytes_round_trip, lemma_u32_round_trip, u32_be, u32_from_be};

verus! {

/// `ipnetwork::IpNetworkError`, which is carried through and never looked
/// into.
#[verifier::external_type_specification]
#[verifier::external_body]
pub struct ExIpNetworkError(ipnetwork::IpNetworkError);

/// What `ipnetwork` reads a text in CIDR notation as: the address as given,
/// host bits included, and the prefix length; `None` where it refuses the
/// text.
pub uninterp spec fn ipnetwork_from_str(text: Seq<char>) -> Option<(u32, u8)>;

/// `<ipnetwork::Ipv4Network as FromStr>::from_str`, with the parsed network
/// handed back as its address and prefix length. Every network that the
/// crate makes has gone through `Ipv4Network::new`, which lets no prefix
/// length above 32 pass.
#[verifier::external_body]
fn parse_cidr(text: &str) -> (parsed: Result<(u32, u8), ipnetwork::IpNetworkError>)
    ensures
        match parsed {
            Ok(network) => ipnetwork_from_str(text@) == Some(network) && network.1 <= 32,
            Err(_) => ipnetwork_from_str(text@) is None,
        },
{
    match text.parse::<ipnetwork::Ipv4Network>() {
        Ok(network) => Ok((network.ip().into(), network.prefix())),
        Err(error) => Err(error),
    }
}

/// `ipnetwork::Ipv4Network::new` followed by `network`: a prefix length above
/// 32 is refused; otherwise the result is the address with every bit after the
/// first `prefix` bits cleared.
#[verifier::external_body]
fn masked_address(addr: u32, prefix: u8) -> (masked: Result<u32, ipnetwork::IpNetworkError>)
    ensures
        match masked {
            Ok(network) => prefix <= 32 && network == addr & prefix_mask(prefix),
            Err(_) => prefix > 32,
        },
{
    match ipnetwork::Ipv4Network::new(addr.into(), prefix) {
        Ok(network) => Ok(network.network().into()),
        Err(error) => Err(error),
    }
}

/// The netmask of a prefix length: the first `prefix` bits set, the rest
/// clear.
pub open spec fn prefix_mask(prefix: u8) -> u32 {
    ((!(0xffff_ffffu64 >> (prefix as u64))) & 0xffff_ffffu64) as u32
}

/// The number of address octets that a prefix of this length takes on the
/// wire.
pub open spec fn prefix_octets(prefix: u8) -> nat {
    ((prefix + 7) / 8) as nat
}

/// A prefix as a mathematical value: the address as given, and the number of
/// its leading bits that name the network.
pub struct Ipv4NetworkView {
    pub addr: Ipv4Address,
    pub prefix: u8,
}

impl Ipv4NetworkView {
    /// The prefix length is one that IPv4 has.
    pub open spec fn valid(self) -> bool {
        self.prefix <= 32
    }

    /// The network address: the address with its host bits cleared.
    pub open spec fn network(self) -> Ipv4Address {
        Ipv4Address(self.addr.0 & prefix_mask(self.prefix))
    }

    /// The address has no host bit set.
    pub open spec fn canonical(self) -> bool {
        self.network() == self.addr
    }

    /// The same network in canonical form.
    pub open spec fn canonicalized(self) -> Ipv4NetworkView {
        Ipv4NetworkView { addr: self.network(), prefix: self.prefix }
    }

    /// The number of bytes that the prefix takes on the wire.
    pub open spec fn byte_length(self) -> nat {
        1 + prefix_octets(self.prefix)
    }

    /// The prefix on the wire: its length in bits, then as many leading
    /// octets of the network address as hold those bits.
    pub open spec fn encode(self) -> Seq<u8> {
        seq![self.prefix] + self.network().spec_octets().take(prefix_octets(self.prefix) as int)
    }
}

/// The byte at `index`, or zero where the sequence has none there.
pub open spec fn octet_or_zero(bytes: Seq<u8>, index: int) -> u8 {
    if 0 <= index < bytes.len() {
        bytes[index]
    } else {
        0
    }
}

/// Reads one prefix from the head of `bytes`: the prefix and the number of
/// bytes it took, or `None` where the bytes are cut short, the length is
/// above 32, or a bit after the prefix is set.
pub open spec fn parse_prefix(bytes: Seq<u8>) -> Option<(Ipv4NetworkView, nat)> {
    if bytes.len() == 0 {
        None
    } else if bytes[0] > 32 || bytes.len() < 1 + prefix_octets(bytes[0]) {
        None
    } else {
        let octets = bytes.subrange(1, 1 + prefix_octets(bytes[0]) as int);
        let addr = u32_from_be(
            octet_or_zero(octets, 0),
            octet_or_zero(octets, 1),
            octet_or_zero(octets, 2),
            octet_or_zero(octets, 3),
        );
        if addr & prefix_mask(bytes[0]) != addr {
            None
        } else {
            Some(
                (
                    Ipv4NetworkView { addr: Ipv4Address(addr), prefix: bytes[0] },
                    1 + prefix_octets(bytes[0]),
                ),
            )
        }
    }
}

/// Clearing the host bits twice is clearing them once, and a cleared address
/// is zero in every octet that lies wholly after the prefix.
pub proof fn lemma_masked_address(addr: u32, prefix: u8)
    requires
        prefix <= 32,
    ensures
        ({
            let masked = addr & prefix_mask(prefix);
            &&& masked & prefix_mask(prefix) == masked
            &&& prefix <= 24 ==> masked % 256 == 0
            &&& prefix <= 16 ==> (masked / 0x100) % 256 == 0
            &&& prefix <= 8 ==> (masked / 0x1_0000) % 256 == 0
            &&& prefix == 0 ==> masked / 0x100_0000 == 0
        }),
{
    let mask = prefix_mask(prefix);
    let masked = addr & mask;
    assert((addr & mask) & mask == addr & mask) by (bit_vector);
    assert(prefix <= 32 && mask == ((!(0xffff_ffffu64 >> (prefix as u64))) & 0xffff_ffffu64) as u32
        && masked == addr & mask ==> (prefix <= 24 ==> masked % 256 == 0) && (prefix <= 16 ==> (
    masked / 0x100) % 256 == 0) && (prefix <= 8 ==> (masked / 0x1_0000) % 256 == 0) && (prefix == 0
        ==> masked / 0x100_0000 == 0)) by (bit_vector);
}

/// An IPv4 prefix: an address and the number of its leading bits, at most 32,
/// that name the network. The address is kept as given; its host bits need
/// not be clear.
#[derive(Debug, PartialEq, Eq, Clone, Copy, Hash, PartialOrd, Ord, Structural)]
pub struct Ipv4Network {
    addr: Ipv4Address,
    prefix: u8,
}

impl View for Ipv4Network {
    type V = Ipv4NetworkView;

    closed spec fn view(&self) -> Ipv4NetworkView {
        Ipv4NetworkView { addr: self.addr, prefix: self.prefix }
    }
}

impl Ipv4Network {
    #[verifier::type_invariant]
    spec fn well_formed(self) -> bool {
        self.prefix <= 32
    }

    /// Two prefixes are the same value exactly when their views are.
    pub proof fn lemma_view_determines(self, other: Ipv4Network)
        ensures
            (self@ == other@) == (self == other),
    {
    }

    /// The prefix `addr/prefix`, or `None` where `prefix` is above 32.
    pub fn new(addr: Ipv4Address, prefix: u8) -> (network: Option<Ipv4Network>)
        ensures
            match network {
                Some(made) => prefix <= 32 && made@ == (Ipv4NetworkView { addr, prefix }),
                None => prefix > 32,
            },
    {
        if prefix > 32 {
            None
        } else {
            Some(Ipv4Network { addr, prefix })
        }
    }

    /// The address as given, host bits included.
    pub fn ip(&self) -> (addr: Ipv4Address)
        ensures
            addr == self@.addr,
    {
        self.addr
    }

    /// The prefix length in bits.
    pub fn prefix(&self) -> (prefix: u8)
        ensures
            prefix == self@.prefix,
            prefix <= 32,
            self@.valid(),
    {
        proof {
            use_type_invariant(self);
        }
        self.prefix
    }

    /// The network address: the address with its host bits cleared.
    pub fn network(&self) -> (addr: Ipv4Address)
        ensures
            addr == self@.network(),
    {
        proof {
            use_type_invariant(self);
        }
        match masked_address(self.addr.0, self.prefix) {
            Ok(network) => Ipv4Address(network),
            Err(_) => self.addr,
        }
    }

    /// The number of bytes that the prefix takes on the wire: one for the
    /// length, and one for each octet that holds a bit of the prefix.
    pub fn bytes_len(&self) -> (len: usize)
        ensures
            len == self@.byte_length(),
            len == self@.encode().len(),
            1 <= len <= 5,
    {
        proof {
            use_type_invariant(self);
        }
        1 + (self.prefix as usize + 7) / 8
    }

    /// Reads a prefix in CIDR notation, as `ipnetwork` reads it.
    pub fn from_str(text: &str) -> (network: Result<Ipv4Network, ConfigParseError>)
        ensures
            match network {
                Ok(made) => ipnetwork_from_str(text@) == Some((made@.addr.0, made@.prefix)),
                Err(error) => ipnetwork_from_str(text@) is None && error
                    == ConfigParseError::InvalidNetwork,
            },
    {
        match parse_cidr(text) {
            Ok((addr, prefix)) => match Ipv4Network::new(Ipv4Address(addr), prefix) {
                Some(network) => Ok(network),
                None => Err(ConfigParseError::InvalidNetwork),
            },
            Err(_) => Err(ConfigParseError::InvalidNetwork),
        }
    }

    /// Appends the prefix in its wire form to `buffer`.
    pub fn encode_into(&self, buffer: &mut BytesMut)
        ensures
            bytes_contents(*final(buffer)) == bytes_contents(*old(buffer)) + self@.encode(),
    {
        proof {
            use_type_invariant(self);
        }
        let octets = self.network().octets();
        let count = (self.prefix as usize + 7) / 8;
        put_u8(buffer, self.prefix);
        put_slice(buffer, slice_subrange(octets.as_slice(), 0, count));
    }

    /// The prefix in its wire form.
    pub fn to_bytes(&self) -> (buffer: BytesMut)
        ensures
            bytes_contents(buffer) == self@.encode(),
    {
        let mut buffer = new_buffer();
        self.encode_into(&mut buffer);
        buffer
    }

    /// Reads one prefix from the head of `bytes`, and says how many bytes it
    /// took.
    pub fn decode(bytes: &[u8]) -> (decoded: Option<(Ipv4Network, usize)>)
        ensures
            match decoded {
                Some((network, taken)) => parse_prefix(bytes@) == Some((network@, taken as nat)),
                None => parse_prefix(bytes@) is None,
            },
    {
        if bytes.len() == 0 {
            return None;
        }
        let prefix = bytes[0];
        if prefix > 32 {
            return None;
        }
        let count = (prefix as usize + 7) / 8;
        if bytes.len() < 1 + count {
            return None;
        }
        let b0 = if count > 0 { bytes[1] } else { 0 };
        let b1 = if count > 1 { bytes[2] } else { 0 };
        let b2 = if count > 2 { bytes[3] } else { 0 };
        let b3 = if count > 3 { bytes[4] } else { 0 };
        let addr = join_u32(b0, b1, b2, b3);
        let network = Ipv4Network { addr: Ipv4Address(addr), prefix };
        if network.network().0 != addr {
            return None;
        }
        Some((network, 1 + count))
    }
}

impl std::str::FromStr for Ipv4Network {
    type Err = ConfigParseError;

    /// Reads a prefix as `Ipv4Network::from_str` does.
    fn from_str(text: &str) -> (network: Result<Self, Self::Err>)
        ensures
            match network {
                Ok(made) => ipnetwork_from_str(text@) == Some((made@.addr.0, made@.prefix)),
                Err(error) => ipnetwork_from_str(text@) is None && error
                    == ConfigParseError::InvalidNetwork,
            },
    {
        Ipv4Network::from_str(text)
    }
}

/// The wire form of a prefix of length `l` takes one byte and as many more as
/// hold `l` bits; its first byte is `l`; and the bytes after it are the leading
/// octets of the network address, in network order.
pub proof fn lemma_prefix_encoding(network: Ipv4NetworkView)
    requires
        network.valid(),
    ensures
        network.encode().len() == 1 + (network.prefix + 7) / 8,
        network.encode().len() == network.byte_length(),
        network.encode()[0] == network.prefix,
        forall|i: int|
            0 <= i < (network.prefix + 7) / 8 ==> #[trigger] network.encode()[1 + i]
                == network.network().spec_octets()[i],
{
}

/// A prefix read from its own wire form, whatever follows it, is the prefix
/// in canonical form, and the bytes taken are those of the wire form.
pub proof fn lemma_parse_encoded_prefix(network: Ipv4NetworkView, rest: Seq<u8>)
    requires
        network.valid(),
    ensures
        parse_prefix(network.encode() + rest) == Some(
            (network.canonicalized(), network.encode().len()),
        ),
        network.encode().len() == network.byte_length(),
{
    let masked = network.network().0;
    lemma_masked_address(network.addr.0, network.prefix);
    lemma_u32_round_trip(masked);
}

/// What a prefix was read from is its wire form: a prefix that parses is
/// valid and canonical, and encodes to exactly the bytes that were taken.
pub proof fn lemma_encode_parsed_prefix(bytes: Seq<u8>)
    requires
        parse_prefix(bytes) is Some,
    ensures
        ({
            let (network, taken) = parse_prefix(bytes)->Some_0;
            &&& network.valid()
            &&& network.canonical()
            &&& 1 <= taken <= bytes.len()
            &&& taken == network.byte_length()
            &&& network.encode() == bytes.take(taken as int)
        }),
{
    let count = prefix_octets(bytes[0]) as int;
    let octets = bytes.subrange(1, 1 + count);
    lemma_u32_bytes_round_trip(
        octet_or_zero(octets, 0),
        octet_or_zero(octets, 1),
        octet_or_zero(octets, 2),
        octet_or_zero(octets, 3),
    );
}

/// The views of a run of prefixes, in order.
pub open spec fn network_views(networks: Seq<Ipv4Network>) -> Seq<Ipv4NetworkView> {
    networks.map_values(|network: Ipv4Network| network@)
}

/// A run of prefixes on the wire: each in its wire form, one after the other.
pub open spec fn encode_prefixes(networks: Seq<Ipv4NetworkView>) -> Seq<u8>
    decreases networks.len(),
{
    if networks.len() == 0 {
        Seq::empty()
    } else {
        networks[0].encode() + encode_prefixes(networks.drop_first())
    }
}

/// Reads prefixes until the bytes are used up: the prefixes in order, or
/// `None` where one of them does not parse.
pub open spec fn parse_prefixes(bytes: Seq<u8>) -> Option<Seq<Ipv4NetworkView>>
    decreases bytes.len(),
{
    if bytes.len() == 0 {
        Some(Seq::empty())
    } else {
        match parse_prefix(bytes) {
            Some((network, taken)) => if 1 <= taken <= bytes.len() {
                match parse_prefixes(bytes.skip(taken as int)) {
                    Some(rest) => Some(seq![network] + rest),
                    None => None,
                }
            } else {
                None
            },
            None => None,
        }
    }
}

/// Every prefix of the run has a valid length.
pub open spec fn prefixes_valid(networks: Seq<Ipv4NetworkView>) -> bool {
    forall|i: int| 0 <= i < networks.len() ==> (#[trigger] networks[i]).valid()
}

/// Every prefix of the run is in canonical form.
pub open spec fn prefixes_canonical(networks: Seq<Ipv4NetworkView>) -> bool {
    forall|i: int| 0 <= i < networks.len() ==> (#[trigger] networks[i]).canonical()
}

/// The wire form of two runs joined is the two wire forms joined.
pub proof fn lemma_encode_prefixes_concat(
    first: Seq<Ipv4NetworkView>,
    second: Seq<Ipv4NetworkView>,
)
    ensures
        encode_prefixes(first + second) == encode_prefixes(first) + encode_prefixes(second),
    decreases first.len(),
{
    if first.len() == 0 {
    } else {
        lemma_encode_prefixes_concat(first.drop_first(), second);
        assert((first + second).drop_first() =~= first.drop_first() + second);
    }
}

/// The wire form of a run with one more prefix is the wire form of the run,
/// then that of the prefix.
pub proof fn lemma_encode_prefixes_push(networks: Seq<Ipv4NetworkView>, last: Ipv4NetworkView)
    ensures
        encode_prefixes(networks.push(last)) == encode_prefixes(networks) + last.encode(),
{
    lemma_encode_prefixes_concat(networks, seq![last]);
    assert(networks.push(last) =~= networks + seq![last]);
    assert(encode_prefixes(seq![last].drop_first()) =~= Seq::<u8>::empty());
}

/// A run of valid, canonical prefixes read from its own wire form is the same
/// run.
pub proof fn lemma_parse_encoded_prefixes(networks: Seq<Ipv4NetworkView>)
    requires
        prefixes_valid(networks),
        prefixes_canonical(networks),
    ensures
        parse_prefixes(encode_prefixes(networks)) == Some(networks),
    decreases networks.len(),
{
    if networks.len() == 0 {
    } else {
        let head = networks[0];
        let tail = networks.drop_first();
        assert forall|i: int| 0 <= i < tail.len() implies (#[trigger] tail[i]).valid()
            && tail[i].canonical() by {
        }
        let bytes = encode_prefixes(networks);
        lemma_parse_encoded_prefix(head, encode_prefixes(tail));
        lemma_parse_encoded_prefixes(tail);
        let taken = head.encode().len() as int;
        assert(bytes.skip(taken) =~= encode_prefixes(tail));
    }
}

/// A run of prefixes that was read is valid and canonical, and its wire form
/// is the bytes it was read from.
pub proof fn lemma_encode_parsed_prefixes(bytes: Seq<u8>)
    requires
        parse_prefixes(bytes) is Some,
    ensures
        ({
            let networks = parse_prefixes(bytes)->Some_0;
            &&& prefixes_valid(networks)
            &&& prefixes_canonical(networks)
            &&& encode_prefixes(networks) == bytes
        }),
    decreases bytes.len(),
{
    if bytes.len() == 0 {
    } else {
        let (network, taken) = parse_prefix(bytes)->Some_0;
        let rest = parse_prefixes(bytes.skip(taken as int))->Some_0;
        let networks = seq![network] + rest;
        lemma_encode_parsed_prefix(bytes);
        lemma_encode_parsed_prefixes(bytes.skip(taken as int));
        assert(networks.drop_first() =~= rest);
        assert forall|i: int| 0 <= i < networks.len() implies (#[trigger] networks[i]).valid()
            && networks[i].canonical() by {
        }
    }
}

/// A copy of a list of prefixes.
pub fn copy_networks(networks: &Vec<Ipv4Network>) -> (copy: Vec<Ipv4Network>)
    ensures
        copy@ == networks@,
{
    let mut copy: Vec<Ipv4Network> = Vec::new();
    let mut index: usize = 0;
    while index < networks.len()
        invariant
            index <= networks.len(),
            copy@ == networks@.take(index as int),
        decreases networks.len() - index,
    {
        copy.push(networks[index]);
        index += 1;
    }
    copy
}

/// Appends the wire form of each prefix in turn to `buffer`.
pub fn encode_prefixes_into(networks: &Vec<Ipv4Network>, buffer: &mut BytesMut)
    ensures
        bytes_contents(*final(buffer)) == bytes_contents(*old(buffer)) + encode_prefixes(
            network_views(networks@),
        ),
{
    let mut index: usize = 0;
    while index < networks.len()
        invariant
            index <= networks.len(),
            bytes_contents(*buffer) == bytes_contents(*old(buffer)) + encode_prefixes(
                network_views(networks@).take(index as int),
            ),
        decreases networks.len() - index,
    {
        networks[index].encode_into(buffer);
        proof {
            let views = network_views(networks@);
            lemma_encode_prefixes_push(views.take(index as int), views[index as int]);
            assert(views.take(index as int).push(views[index as int]) =~= views.take(
                index as int + 1,
            ));
        }
        index += 1;
    }
    assert(network_views(networks@).take(index as int) =~= network_views(networks@));
}

/// Reads prefixes until `bytes` is used up.
pub fn decode_prefixes(bytes: &[u8]) -> (decoded: Option<Vec<Ipv4Network>>)
    ensures
        match decoded {
            Some(networks) => parse_prefixes(bytes@) == Some(network_views(networks@)),
            None => parse_prefixes(bytes@) is None,
        },
{
    let mut networks: Vec<Ipv4Network> = Vec::new();
    let mut position: usize = 0;
    assert(bytes@.skip(0) =~= bytes@);
    while position < bytes.len()
        invariant
            position <= bytes.len(),
            parse_prefixes(bytes@) == match parse_prefixes(bytes@.skip(position as int)) {
                Some(rest) => Some(network_views(networks@) + rest),
                None => None,
            },
        decreases bytes.len() - position,
    {
        let tail = slice_subrange(bytes, position, bytes.len());
        match Ipv4Network::decode(tail) {
            None => {
                return None;
            },
            Some((network, taken)) => {
                proof {
                    lemma_encode_parsed_prefix(tail@);
                    assert(tail@.skip(taken as int) =~= bytes@.skip(position + taken));
                    let before = network_views(networks@);
                    assert forall|rest: Seq<Ipv4NetworkView>|
                        before + (seq![network@] + rest) == #[trigger] (before.push(network@)
                            + rest) by {
                    }
                }
                networks.push(network);
                position += taken;
            },
        }
    }
    Some(networks)
}

/// The attribute as a speaker hands it on after putting its own AS number on
/// the path: an AS path gets the number, any other attribute stays.
pub open spec fn with_as_number(
    attribute: PathAttributeView,
    as_number: AutonomousSystemNumber,
) -> PathAttributeView {
    match attribute {
        PathAttributeView::AsPath(path) => PathAttributeView::AsPath(path.add(as_number)),
        other => other,
    }
}

/// The attribute with the next hop replaced: a next hop becomes the given
/// address, any other attribute stays.
pub open spec fn with_next_hop(
    attribute: PathAttributeView,
    next_hop: Ipv4Address,
) -> PathAttributeView {
    match attribute {
        PathAttributeView::NextHop(_) => PathAttributeView::NextHop(next_hop),
        other => other,
    }
}

/// An entry of a routing information base as a mathematical value.
pub struct RibEntryView {
    pub network_address: Ipv4NetworkView,
    pub path_attributes: Seq<PathAttributeView>,
}

impl RibEntryView {
    /// Some attribute of the entry has the given type code.
    pub open spec fn has_attribute(self, type_code: u8) -> bool {
        exists|i: int|
            0 <= i < self.path_attributes.len() && (
            #[trigger] self.path_attributes[i]).type_code() == type_code
    }

    /// The entry holds exactly one origin, one AS path and one next hop.
    pub open spec fn well_formed(self) -> bool {
        &&& self.path_attributes.len() == 3
        &&& self.has_attribute(1)
        &&& self.has_attribute(2)
        &&& self.has_attribute(3)
    }

    /// The entry with an AS number put on each of its AS paths.
    pub open spec fn append_as_path(self, as_number: AutonomousSystemNumber) -> RibEntryView {
        RibEntryView {
            network_address: self.network_address,
            path_attributes: self.path_attributes.map_values(
                |attribute: PathAttributeView| with_as_number(attribute, as_number),
            ),
        }
    }

    /// The entry with each of its next hops replaced.
    pub open spec fn change_next_hop(self, next_hop: Ipv4Address) -> RibEntryView {
        RibEntryView {
            network_address: self.network_address,
            path_attributes: self.path_attributes.map_values(
                |attribute: PathAttributeView| with_next_hop(attribute, next_hop),
            ),
        }
    }

    /// The entry as a speaker with the given AS number and address advertises
    /// it: its own number on the AS path, itself as next hop.
    pub open spec fn advertised(
        self,
        local_as: AutonomousSystemNumber,
        local_ip: Ipv4Address,
    ) -> RibEntryView {
        self.append_as_path(local_as).change_next_hop(local_ip)
    }

    /// The Update message that advertises the entry: its attributes, and its
    /// network as the one advertised prefix.
    pub open spec fn update(self) -> UpdateMessageView {
        UpdateMessageView {
            withdrawn_routes: Seq::empty(),
            path_attributes: self.path_attributes,
            network_layer_reachability_information: seq![self.network_address],
        }
    }
}

/// The entry that stands for a route of the speaker's own: origin IGP, an
/// empty AS sequence, and the speaker's address as next hop.
pub open spec fn local_entry(route: Ipv4NetworkView, local_ip: Ipv4Address) -> RibEntryView {
    RibEntryView {
        network_address: route,
        path_attributes: seq![
            PathAttributeView::Origin(Origin::Igp),
            PathAttributeView::AsPath(AsPathView::AsSequence(Seq::empty())),
            PathAttributeView::NextHop(local_ip),
        ],
    }
}

/// An entry of a routing information base: a network and the attributes of
/// the path to it.
#[derive(Debug, PartialEq, Eq)]
pub struct RibEntry {
    pub network_address: Ipv4Network,
    pub path_attributes: Vec<PathAttribute>,
}

impl View for RibEntry {
    type V = RibEntryView;

    open spec fn view(&self) -> RibEntryView {
        RibEntryView {
            network_address: self.network_address@,
            path_attributes: attribute_views(self.path_attributes@),
        }
    }
}

impl Clone for RibEntry {
    fn clone(&self) -> (copy: Self)
        ensures
            copy@ == self@,
    {
        RibEntry {
            network_address: self.network_address,
            path_attributes: copy_attributes(&self.path_attributes),
        }
    }
}

impl RibEntry {
    /// Puts an AS number on each AS path of the entry.
    pub fn append_as_path(&mut self, as_number: AutonomousSystemNumber)
        ensures
            final(self)@ == old(self)@.append_as_path(as_number),
    {
        let mut index: usize = 0;
        let ghost before = attribute_views(self.path_attributes@);
        while index < self.path_attributes.len()
            invariant
                index <= self.path_attributes.len(),
                self.network_address == old(self).network_address,
                before == attribute_views(old(self).path_attributes@),
                self.path_attributes.len() == before.len(),
                forall|i: int|
                    0 <= i < index ==> (#[trigger] self.path_attributes@[i])@ == with_as_number(
                        before[i],
                        as_number,
                    ),
                forall|i: int|
                    index <= i < before.len() ==> (#[trigger] self.path_attributes@[i])@
                        == before[i],
            decreases self.path_attributes.len() - index,
        {
            match &mut self.path_attributes[index] {
                PathAttribute::AsPath(path) => {
                    path.add(as_number);
                },
                _ => {},
            }
            index += 1;
        }
        assert(self@.path_attributes =~= old(self)@.append_as_path(as_number).path_attributes);
    }

    /// Replaces each next hop of the entry.
    pub fn change_next_hop(&mut self, next_hop: Ipv4Address)
        ensures
            final(self)@ == old(self)@.change_next_hop(next_hop),
    {
        let mut index: usize = 0;
        let ghost before = attribute_views(self.path_attributes@);
        while index < self.path_attributes.len()
            invariant
                index <= self.path_attributes.len(),
                self.network_address == old(self).network_address,
                before == attribute_views(old(self).path_attributes@),
                self.path_attributes.len() == before.len(),
                forall|i: int|
                    0 <= i < index ==> (#[trigger] self.path_attributes@[i])@ == with_next_hop(
                        before[i],
                        next_hop,
                    ),
                forall|i: int|
                    index <= i < before.len() ==> (#[trigger] self.path_attributes@[i])@
                        == before[i],
            decreases self.path_attributes.len() - index,
        {
            match &mut self.path_attributes[index] {
                PathAttribute::NextHop(addr) => {
                    *addr = next_hop;
                },
                _ => {},
            }
            index += 1;
        }
        assert(self@.path_attributes =~= old(self)@.change_next_hop(next_hop).path_attributes);
    }
}

/// The views of a run of entries, in order.
pub open spec fn rib_views(entries: Seq<RibEntry>) -> Seq<RibEntryView> {
    entries.map_values(|entry: RibEntry| entry@)
}

/// Every entry of the run holds exactly one origin, one AS path and one next
/// hop.
pub open spec fn rib_well_formed(entries: Seq<RibEntryView>) -> bool {
    forall|i: int| 0 <= i < entries.len() ==> (#[trigger] entries[i]).well_formed()
}

/// The rows of a routing table whose destination is exactly the given
/// network, address and prefix length alike, in the order of the table.
pub open spec fn matching_routes(
    table: Seq<Ipv4NetworkView>,
    network: Ipv4NetworkView,
) -> Seq<Ipv4NetworkView> {
    table.filter(|destination: Ipv4NetworkView| destination == network)
}

/// The entries that a speaker holds for its own networks: for each network in
/// turn, one entry for each row of the routing table that matches it.
pub open spec fn local_entries(
    networks: Seq<Ipv4NetworkView>,
    table: Seq<Ipv4NetworkView>,
    local_ip: Ipv4Address,
) -> Seq<RibEntryView>
    decreases networks.len(),
{
    if networks.len() == 0 {
        Seq::empty()
    } else {
        local_entries(networks.drop_last(), table, local_ip) + matching_routes(
            table,
            networks.last(),
        ).map_values(|route: Ipv4NetworkView| local_entry(route, local_ip))
    }
}

/// The entries of a base as a speaker with the given AS number and address
/// advertises them, in the same order.
pub open spec fn advertised_entries(
    entries: Seq<RibEntryView>,
    local_as: AutonomousSystemNumber,
    local_ip: Ipv4Address,
) -> Seq<RibEntryView> {
    entries.map_values(|entry: RibEntryView| entry.advertised(local_as, local_ip))
}

/// The Update messages that advertise the entries: one for each, in order.
pub open spec fn update_messages(entries: Seq<RibEntryView>) -> Seq<UpdateMessageView> {
    entries.map_values(|entry: RibEntryView| entry.update())
}

/// An entry for a route of the speaker's own holds exactly one origin, one AS
/// path and one next hop.
pub proof fn lemma_local_entry_well_formed(route: Ipv4NetworkView, local_ip: Ipv4Address)
    ensures
        local_entry(route, local_ip).well_formed(),
{
    let entry = local_entry(route, local_ip);
    assert(entry.path_attributes[0].type_code() == 1);
    assert(entry.path_attributes[1].type_code() == 2);
    assert(entry.path_attributes[2].type_code() == 3);
}

/// Advertising keeps an entry well formed.
pub proof fn lemma_advertised_well_formed(
    entry: RibEntryView,
    local_as: AutonomousSystemNumber,
    local_ip: Ipv4Address,
)
    requires
        entry.well_formed(),
    ensures
        entry.advertised(local_as, local_ip).well_formed(),
{
    let advertised = entry.advertised(local_as, local_ip);
    assert forall|i: int| 0 <= i < entry.path_attributes.len() implies (
    #[trigger] advertised.path_attributes[i]).type_code()
        == entry.path_attributes[i].type_code() by {
    }
    let origin = choose|i: int|
        0 <= i < entry.path_attributes.len() && (#[trigger] entry.path_attributes[i]).type_code()
            == 1;
    let path = choose|i: int|
        0 <= i < entry.path_attributes.len() && (#[trigger] entry.path_attributes[i]).type_code()
            == 2;
    let next_hop = choose|i: int|
        0 <= i < entry.path_attributes.len() && (#[trigger] entry.path_attributes[i]).type_code()
            == 3;
    assert(advertised.path_attributes[origin].type_code() == 1);
    assert(advertised.path_attributes[path].type_code() == 2);
    assert(advertised.path_attributes[next_hop].type_code() == 3);
}

/// What a speaker in AS `local_as` at `local_ip` advertises for a route of its
/// own: origin IGP, the AS sequence made of its own number, and itself as
/// next hop, whatever next hop the entry held before.
pub proof fn lemma_local_entry_advertised(
    route: Ipv4NetworkView,
    next_hop: Ipv4Address,
    local_as: AutonomousSystemNumber,
    local_ip: Ipv4Address,
)
    ensures
        local_entry(route, next_hop).advertised(local_as, local_ip) == (RibEntryView {
            network_address: route,
            path_attributes: seq![
                PathAttributeView::Origin(Origin::Igp),
                PathAttributeView::AsPath(AsPathView::AsSequence(seq![local_as])),
                PathAttributeView::NextHop(local_ip),
            ],
        }),
{
    let advertised = local_entry(route, next_hop).advertised(local_as, local_ip);
    let expected = seq![
        PathAttributeView::Origin(Origin::Igp),
        PathAttributeView::AsPath(AsPathView::AsSequence(seq![local_as])),
        PathAttributeView::NextHop(local_ip),
    ];
    assert(Seq::<AutonomousSystemNumber>::empty().insert(0, local_as) =~= seq![local_as]);
    assert(advertised.path_attributes =~= expected);
}

/// The routes that the speaker holds to be true.
#[derive(Debug, PartialEq, Eq)]
pub struct LocRib(Vec<RibEntry>);

impl View for LocRib {
    type V = Seq<RibEntryView>;

    closed spec fn view(&self) -> Seq<RibEntryView> {
        rib_views(self.0@)
    }
}

impl Clone for LocRib {
    fn clone(&self) -> (copy: Self)
        ensures
            copy@ == self@,
    {
        LocRib(copy_entries(&self.0))
    }
}

/// A copy of a list of entries.
pub fn copy_entries(entries: &Vec<RibEntry>) -> (copy: Vec<RibEntry>)
    ensures
        rib_views(copy@) == rib_views(entries@),
{
    let mut copy: Vec<RibEntry> = Vec::new();
    let mut index: usize = 0;
    while index < entries.len()
        invariant
            index <= entries.len(),
            rib_views(copy@) == rib_views(entries@).take(index as int),
        decreases entries.len() - index,
    {
        let entry = entries[index].clone();
        let ghost before = rib_views(copy@);
        copy.push(entry);
        assert(rib_views(copy@) =~= before.push(entry@));
        index += 1;
    }
    copy
}

impl LocRib {
    /// The rows of `routing_table` whose destination is exactly
    /// `network_address`, in the order of the table.
    pub fn lookup_routing_table(
        routing_table: &Vec<Ipv4Network>,
        network_address: Ipv4Network,
    ) -> (routes: Vec<Ipv4Network>)
        ensures
            network_views(routes@) == matching_routes(
                network_views(routing_table@),
                network_address@,
            ),
    {
        let ghost table = network_views(routing_table@);
        let ghost wanted = |destination: Ipv4NetworkView| destination == network_address@;
        let mut routes: Vec<Ipv4Network> = Vec::new();
        let mut index: usize = 0;
        proof {
            reveal(Seq::filter);
        }
        while index < routing_table.len()
            invariant
                index <= routing_table.len(),
                table == network_views(routing_table@),
                wanted == |destination: Ipv4NetworkView| destination == network_address@,
                network_views(routes@) == table.take(index as int).filter(wanted),
            decreases routing_table.len() - index,
        {
            let destination = routing_table[index];
            proof {
                reveal(Seq::filter);
                destination.lemma_view_determines(network_address);
                assert(table.take(index as int + 1).drop_last() =~= table.take(index as int));
            }
            if destination == network_address {
                routes.push(destination);
            }
            index += 1;
        }
        assert(table.take(index as int) =~= table);
        routes
    }

    /// The routes that a speaker with this configuration holds to be true,
    /// given the destinations of the host's IPv4 routing table: for each
    /// configured network in turn, one entry for each row of the table that
    /// matches it, with origin IGP, an empty AS sequence, and the speaker's
    /// own address as next hop.
    pub fn new(config: &Config, routing_table: &Vec<Ipv4Network>) -> (loc_rib: Self)
        ensures
            loc_rib@ == local_entries(
                config@.networks,
                network_views(routing_table@),
                config.local_ip,
            ),
            rib_well_formed(loc_rib@),
    {
        let ghost networks = config@.networks;
        let ghost table = network_views(routing_table@);
        let local_ip = config.local_ip;
        let mut rib: Vec<RibEntry> = Vec::new();
        let mut index: usize = 0;
        while index < config.networks.len()
            invariant
                index <= config.networks.len(),
                networks == network_views(config.networks@),
                table == network_views(routing_table@),
                rib_views(rib@) == local_entries(networks.take(index as int), table, local_ip),
                rib_well_formed(rib_views(rib@)),
            decreases config.networks.len() - index,
        {
            let network = config.networks[index];
            let routes = Self::lookup_routing_table(routing_table, network);
            let ghost found = network_views(routes@);
            let ghost entry_of = |route: Ipv4NetworkView| local_entry(route, local_ip);
            let ghost base = rib_views(rib@);
            let mut position: usize = 0;
            while position < routes.len()
                invariant
                    position <= routes.len(),
                    found == network_views(routes@),
                    entry_of == |route: Ipv4NetworkView| local_entry(route, local_ip),
                    rib_views(rib@) == base + found.take(position as int).map_values(entry_of),
                    rib_well_formed(rib_views(rib@)),
                decreases routes.len() - position,
            {
                let route = routes[position];
                let path_attributes = vec![
                    PathAttribute::Origin(Origin::Igp),
                    PathAttribute::AsPath(AsPath::AsSequence(Vec::new())),
                    PathAttribute::NextHop(local_ip),
                ];
                let entry = RibEntry { network_address: route, path_attributes };
                proof {
                    assert(entry@.path_attributes =~= local_entry(route@, local_ip).path_attributes);
                    lemma_local_entry_well_formed(route@, local_ip);
                }
                let ghost before = rib_views(rib@);
                rib.push(entry);
                proof {
                    assert(rib_views(rib@) =~= before.push(entry@));
                }
                position += 1;
            }
            proof {
                assert(networks.take(index as int + 1).drop_last() =~= networks.take(
                    index as int,
                ));
            }
            index += 1;
        }
        assert(networks.take(index as int) =~= networks);
        LocRib(rib)
    }

    /// The number of routes held.
    pub fn len(&self) -> (len: usize)
        ensures
            len == self@.len(),
    {
        self.0.len()
    }

    /// A copy of the routes held, in order.
    pub fn entries(&self) -> (entries: Vec<RibEntry>)
        ensures
            rib_views(entries@) == self@,
    {
        copy_entries(&self.0)
    }
}

/// The routes to advertise to one peer, in order.
#[derive(Debug, PartialEq, Eq)]
pub struct AdjRibOut(pub Vec<RibEntry>);

impl View for AdjRibOut {
    type V = Seq<RibEntryView>;

    open spec fn view(&self) -> Seq<RibEntryView> {
        rib_views(self.0@)
    }
}

impl Clone for AdjRibOut {
    fn clone(&self) -> (copy: Self)
        ensures
            copy@ == self@,
    {
        AdjRibOut(copy_entries(&self.0))
    }
}

impl AdjRibOut {
    /// A base with nothing to advertise.
    pub fn new() -> (adj_rib_out: Self)
        ensures
            adj_rib_out@ == Seq::<RibEntryView>::empty(),
    {
        let adj_rib_out = AdjRibOut(Vec::new());
        adj_rib_out
    }

    /// Replaces what the base holds by the routes of `loc_rib` as this
    /// speaker advertises them: each entry copied, the local AS number put on
    /// its AS path, and the local address made its next hop. What the base
    /// held before plays no part, so installing twice from the same routes
    /// leaves what installing once leaves.
    pub fn install_from_loc_rib(&mut self, loc_rib: &LocRib, config: &Config)
        ensures
            final(self)@ == advertised_entries(loc_rib@, config.local_as, config.local_ip),
            rib_well_formed(loc_rib@) ==> rib_well_formed(final(self)@),
    {
        let ghost source = loc_rib@;
        let ghost advertise = |entry: RibEntryView|
            entry.advertised(config.local_as, config.local_ip);
        let mut routes: Vec<RibEntry> = Vec::new();
        let mut index: usize = 0;
        while index < loc_rib.0.len()
            invariant
                index <= loc_rib.0.len(),
                source == rib_views(loc_rib.0@),
                advertise == |entry: RibEntryView|
                    entry.advertised(config.local_as, config.local_ip),
                rib_views(routes@) == source.take(index as int).map_values(advertise),
            decreases loc_rib.0.len() - index,
        {
            let mut route = loc_rib.0[index].clone();
            route.append_as_path(config.local_as);
            route.change_next_hop(config.local_ip);
            let ghost before = rib_views(routes@);
            routes.push(route);
            proof {
                assert(rib_views(routes@) =~= before.push(route@));
            }
            index += 1;
        }
        self.0 = routes;
        proof {
            if rib_well_formed(source) {
                assert forall|i: int| 0 <= i < self@.len() implies (
                #[trigger] self@[i]).well_formed() by {
                    lemma_advertised_well_formed(source[i], config.local_as, config.local_ip);
                }
            }
        }
    }

    /// The Update messages that advertise the base: one for each entry, in
    /// order, carrying the entry's attributes and its network as the one
    /// advertised prefix.
    pub fn to_update_messages(&self) -> (updates: Vec<UpdateMessage>)
        ensures
            update_views(updates@) == update_messages(self@),
    {
        let ghost message_of = |entry: RibEntryView| entry.update();
        let mut updates: Vec<UpdateMessage> = Vec::new();
        let mut index: usize = 0;
        while index < self.0.len()
            invariant
                index <= self.0.len(),
                message_of == |entry: RibEntryView| entry.update(),
                update_views(updates@) == self@.take(index as int).map_values(message_of),
            decreases self.0.len() - index,
        {
            let entry = &self.0[index];
            let update = UpdateMessage::new(
                copy_attributes(&entry.path_attributes),
                vec![entry.network_address],
                Vec::new(),
            );
            proof {
                assert(update@.withdrawn_routes =~= Seq::<Ipv4NetworkView>::empty());
                assert(update@.network_layer_reachability_information =~= seq![
                    entry.network_address@,
                ]);
            }
            let ghost before = update_views(updates@);
            updates.push(update);
            proof {
                assert(update_views(updates@) =~= before.push(update@));
            }
            index += 1;
        }
        updates
    }
}

} // verus!
