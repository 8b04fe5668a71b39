use bytes::BytesMut;
use how_to_create_bgp::bgp_type::{AutonomousSystemNumber, Ipv4Address};
use how_to_create_bgp::config::Config;
use how_to_create_bgp::error::ConfigParseError;
use how_to_create_bgp::path_attribute::{AsPath, Origin, PathAttribute};
use how_to_create_bgp::routing::{
    decode_prefixes, encode_prefixes_into, AdjRibOut, Ipv4Network, LocRib, RibEntry,
};

fn network(a: u8, b: u8, c: u8, d: u8, prefix: u8) -> Ipv4Network {
    Ipv4Network::new(Ipv4Address::new(a, b, c, d), prefix).unwrap()
}

fn kernel_routing_table() -> Vec<Ipv4Network> {
    vec![
        network(0, 0, 0, 0, 0),
        network(10, 200, 100, 0, 24),
        network(10, 100, 220, 0, 24),
        network(10, 100, 0, 0, 16),
        network(10, 100, 220, 0, 25),
    ]
}

#[test]
fn loclib_can_lookup_routing_table() {
    let network = Ipv4Network::new("10.200.100.0".parse::<Ipv4Network>().unwrap().ip(), 24).unwrap();
    let routes = LocRib::lookup_routing_table(&kernel_routing_table(), network);
    let expected = vec![network];
    assert_eq!(routes, expected);
}

#[test]
fn loc_rib_to_adj_rib_out() {
    let config: Config = "64513 10.200.100.3 64512 10.200.100.2 passive 10.100.220.0/24"
        .parse()
        .unwrap();
    let loc_rib = LocRib::new(&config, &kernel_routing_table());
    let mut adj_rib_out = AdjRibOut::new();
    adj_rib_out.install_from_loc_rib(&loc_rib, &config);

    let expected_adj_rib_out = AdjRibOut(vec![RibEntry {
        network_address: "10.100.220.0/24".parse().unwrap(),
        path_attributes: vec![
            PathAttribute::Origin(Origin::Igp),
            PathAttribute::AsPath(AsPath::AsSequence(vec![64513.into()])),
            PathAttribute::NextHop(Ipv4Address::new(10, 200, 100, 3)),
        ],
    }]);

    assert_eq!(adj_rib_out, expected_adj_rib_out);
}

#[test]
fn installing_twice_replaces() {
    let config: Config = "64513 10.200.100.3 64512 10.200.100.2 passive 10.100.220.0/24"
        .parse()
        .unwrap();
    let loc_rib = LocRib::new(&config, &kernel_routing_table());
    let mut adj_rib_out = AdjRibOut::new();
    adj_rib_out.install_from_loc_rib(&loc_rib, &config);
    let once = adj_rib_out.clone();
    adj_rib_out.install_from_loc_rib(&loc_rib, &config);
    assert_eq!(adj_rib_out, once);
    assert_eq!(adj_rib_out.0.len(), 1);
}

#[test]
fn loc_rib_holds_local_routes_with_an_empty_as_path() {
    let config: Config = "64513 10.200.100.3 64512 10.200.100.2 passive 10.100.220.0/24"
        .parse()
        .unwrap();
    let loc_rib = LocRib::new(&config, &kernel_routing_table());
    assert_eq!(loc_rib.len(), 1);
    assert_eq!(
        loc_rib.entries(),
        vec![RibEntry {
            network_address: network(10, 100, 220, 0, 24),
            path_attributes: vec![
                PathAttribute::Origin(Origin::Igp),
                PathAttribute::AsPath(AsPath::AsSequence(vec![])),
                PathAttribute::NextHop(Ipv4Address::new(10, 200, 100, 3)),
            ],
        }]
    );
}

#[test]
fn loc_rib_has_one_entry_for_each_matching_row() {
    let config: Config =
        "64513 10.0.0.1 64512 10.0.0.2 active 10.1.0.0/16 10.9.0.0/16 10.2.0.0/16".parse().unwrap();
    let table = vec![
        network(10, 2, 0, 0, 16),
        network(10, 1, 0, 0, 16),
        network(10, 1, 0, 0, 17),
        network(10, 1, 0, 0, 16),
    ];
    let loc_rib = LocRib::new(&config, &table);
    let networks: Vec<Ipv4Network> =
        loc_rib.entries().iter().map(|entry| entry.network_address).collect();
    assert_eq!(
        networks,
        vec![network(10, 1, 0, 0, 16), network(10, 1, 0, 0, 16), network(10, 2, 0, 0, 16)]
    );
}

#[test]
fn loc_rib_is_empty_without_matching_routes() {
    let config: Config = "1 10.0.0.1 2 10.0.0.2 active 172.16.0.0/12".parse().unwrap();
    assert_eq!(LocRib::new(&config, &kernel_routing_table()).len(), 0);
    let config: Config = "1 10.0.0.1 2 10.0.0.2 active".parse().unwrap();
    assert_eq!(LocRib::new(&config, &kernel_routing_table()).len(), 0);
}

#[test]
fn lookup_matches_address_and_length_exactly() {
    let table = kernel_routing_table();
    assert_eq!(LocRib::lookup_routing_table(&table, network(10, 100, 220, 0, 26)), vec![]);
    assert_eq!(LocRib::lookup_routing_table(&table, network(10, 100, 220, 1, 24)), vec![]);
    assert_eq!(
        LocRib::lookup_routing_table(&table, network(10, 100, 220, 0, 25)),
        vec![network(10, 100, 220, 0, 25)]
    );
}

#[test]
fn as_path_prepend_puts_the_local_as_in_front() {
    let mut entry = RibEntry {
        network_address: network(10, 100, 220, 0, 24),
        path_attributes: vec![
            PathAttribute::Origin(Origin::Igp),
            PathAttribute::AsPath(AsPath::AsSequence(vec![])),
            PathAttribute::NextHop(Ipv4Address::new(10, 0, 0, 1)),
        ],
    };
    entry.append_as_path(AutonomousSystemNumber(64513));
    assert_eq!(
        entry.path_attributes[1],
        PathAttribute::AsPath(AsPath::AsSequence(vec![AutonomousSystemNumber(64513)]))
    );
    entry.append_as_path(AutonomousSystemNumber(64514));
    assert_eq!(
        entry.path_attributes[1],
        PathAttribute::AsPath(AsPath::AsSequence(vec![
            AutonomousSystemNumber(64514),
            AutonomousSystemNumber(64513)
        ]))
    );
    assert_eq!(entry.path_attributes[0], PathAttribute::Origin(Origin::Igp));
    assert_eq!(entry.path_attributes[2], PathAttribute::NextHop(Ipv4Address::new(10, 0, 0, 1)));
}

#[test]
fn as_set_is_left_as_it_is() {
    let mut path = AsPath::AsSet(vec![AutonomousSystemNumber(1)]);
    path.add(AutonomousSystemNumber(2));
    assert_eq!(path, AsPath::AsSet(vec![AutonomousSystemNumber(1)]));
}

#[test]
fn change_next_hop_replaces_only_the_next_hop() {
    let mut entry = RibEntry {
        network_address: network(10, 100, 220, 0, 24),
        path_attributes: vec![
            PathAttribute::NextHop(Ipv4Address::new(10, 0, 0, 1)),
            PathAttribute::Origin(Origin::Egp),
            PathAttribute::AsPath(AsPath::AsSequence(vec![AutonomousSystemNumber(5)])),
        ],
    };
    entry.change_next_hop(Ipv4Address::new(192, 0, 2, 7));
    assert_eq!(
        entry,
        RibEntry {
            network_address: network(10, 100, 220, 0, 24),
            path_attributes: vec![
                PathAttribute::NextHop(Ipv4Address::new(192, 0, 2, 7)),
                PathAttribute::Origin(Origin::Egp),
                PathAttribute::AsPath(AsPath::AsSequence(vec![AutonomousSystemNumber(5)])),
            ],
        }
    );
}

#[test]
fn adj_rib_out_gives_one_update_for_each_entry() {
    let config: Config =
        "64513 10.0.0.1 64512 10.0.0.2 active 10.1.0.0/16 10.2.0.0/16".parse().unwrap();
    let table = vec![network(10, 2, 0, 0, 16), network(10, 1, 0, 0, 16)];
    let loc_rib = LocRib::new(&config, &table);
    let mut adj_rib_out = AdjRibOut::new();
    adj_rib_out.install_from_loc_rib(&loc_rib, &config);
    let updates = adj_rib_out.to_update_messages();
    assert_eq!(updates.len(), 2);
    for (update, entry) in updates.iter().zip(adj_rib_out.0.iter()) {
        assert_eq!(update.withdrawn_routes, vec![]);
        assert_eq!(update.path_attributes, entry.path_attributes);
        assert_eq!(update.network_layer_reachability_information, vec![entry.network_address]);
    }
    assert_eq!(updates[0].network_layer_reachability_information, vec![network(10, 1, 0, 0, 16)]);
}

#[test]
fn ipv4_network_encodes_as_length_and_leading_octets() {
    let bytes = network(10, 100, 220, 0, 24).to_bytes();
    assert_eq!(&bytes[..], &[0x18, 0x0a, 0x64, 0xdc]);
    assert_eq!(network(10, 100, 220, 0, 24).bytes_len(), 4);
}

#[test]
fn ipv4_network_byte_length_is_one_plus_the_octets_of_the_prefix() {
    for prefix in 0..=32u8 {
        let network = network(255, 255, 255, 255, prefix);
        let expected = 1 + (prefix as usize + 7) / 8;
        assert_eq!(network.bytes_len(), expected);
        let bytes = network.to_bytes();
        assert_eq!(bytes.len(), expected);
        assert_eq!(bytes[0], prefix);
    }
}

#[test]
fn default_route_is_one_byte() {
    let network = network(0, 0, 0, 0, 0);
    assert_eq!(network.bytes_len(), 1);
    assert_eq!(&network.to_bytes()[..], &[0]);
    assert_eq!(Ipv4Network::decode(&[0]), Some((network, 1)));
}

#[test]
fn ipv4_network_encodes_the_network_address() {
    let bytes = network(10, 100, 220, 77, 24).to_bytes();
    assert_eq!(&bytes[..], &[0x18, 0x0a, 0x64, 0xdc]);
    let bytes = network(10, 100, 223, 77, 22).to_bytes();
    assert_eq!(&bytes[..], &[22, 10, 100, 220]);
    let bytes = network(10, 100, 223, 77, 32).to_bytes();
    assert_eq!(&bytes[..], &[32, 10, 100, 223, 77]);
    let bytes = network(255, 255, 255, 255, 1).to_bytes();
    assert_eq!(&bytes[..], &[1, 128]);
}

#[test]
fn network_clears_the_host_bits() {
    assert_eq!(network(10, 1, 9, 32, 16).network(), Ipv4Address::new(10, 1, 0, 0));
    assert_eq!(network(10, 1, 9, 32, 0).network(), Ipv4Address::new(0, 0, 0, 0));
    assert_eq!(network(10, 1, 9, 32, 32).network(), Ipv4Address::new(10, 1, 9, 32));
    assert_eq!(network(10, 1, 9, 32, 27).network(), Ipv4Address::new(10, 1, 9, 32));
    assert_eq!(network(10, 1, 9, 33, 27).network(), Ipv4Address::new(10, 1, 9, 32));
    assert_eq!(network(10, 1, 9, 32, 16).ip(), Ipv4Address::new(10, 1, 9, 32));
    assert_eq!(network(10, 1, 9, 32, 16).prefix(), 16);
}

#[test]
fn ipv4_network_refuses_a_prefix_above_thirty_two() {
    assert_eq!(Ipv4Network::new(Ipv4Address::new(10, 0, 0, 0), 33), None);
    assert_eq!(Ipv4Network::new(Ipv4Address::new(10, 0, 0, 0), 255), None);
    assert!(Ipv4Network::new(Ipv4Address::new(10, 0, 0, 0), 32).is_some());
}

#[test]
fn ipv4_network_decodes_what_it_encodes() {
    for prefix in 0..=32u8 {
        let given = network(203, 0, 113, 77, prefix);
        let canonical = Ipv4Network::new(given.network(), prefix).unwrap();
        let mut bytes = given.to_bytes().to_vec();
        bytes.extend_from_slice(&[0xaa, 0xbb]);
        assert_eq!(Ipv4Network::decode(&bytes), Some((canonical, given.bytes_len())));
    }
}

#[test]
fn ipv4_network_decode_refuses_host_bits_and_short_input() {
    assert_eq!(Ipv4Network::decode(&[]), None);
    assert_eq!(Ipv4Network::decode(&[33, 1, 2, 3, 4, 5]), None);
    assert_eq!(Ipv4Network::decode(&[24, 10, 100]), None);
    assert_eq!(Ipv4Network::decode(&[23, 10, 100, 221]), None);
    assert_eq!(Ipv4Network::decode(&[23, 10, 100, 220]), Some((network(10, 100, 220, 0, 23), 4)));
}

#[test]
fn prefix_lists_round_trip() {
    let networks = vec![network(10, 0, 0, 0, 8), network(0, 0, 0, 0, 0), network(192, 0, 2, 128, 25)];
    let mut buffer = BytesMut::from(&[9u8][..]);
    encode_prefixes_into(&networks, &mut buffer);
    assert_eq!(&buffer[..], &[9, 8, 10, 0, 25, 192, 0, 2, 128]);
    assert_eq!(decode_prefixes(&buffer[1..]), Some(networks));
    assert_eq!(decode_prefixes(&[]), Some(vec![]));
    assert_eq!(decode_prefixes(&[8, 10, 25, 192]), None);
}

#[test]
fn ipv4_network_reads_cidr_notation() {
    let parsed: Ipv4Network = "10.100.220.0/24".parse().unwrap();
    assert_eq!(parsed, network(10, 100, 220, 0, 24));
    let parsed: Ipv4Network = "10.1.9.32/16".parse().unwrap();
    assert_eq!(parsed.ip(), Ipv4Address::new(10, 1, 9, 32));
    assert_eq!(parsed.prefix(), 16);
    let parsed: Ipv4Network = "192.0.2.1".parse().unwrap();
    assert_eq!(parsed, network(192, 0, 2, 1, 32));
    assert_eq!("10.0.0.0/33".parse::<Ipv4Network>(), Err(ConfigParseError::InvalidNetwork));
    assert_eq!("10.0.0/8".parse::<Ipv4Network>(), Err(ConfigParseError::InvalidNetwork));
    assert_eq!("".parse::<Ipv4Network>(), Err(ConfigParseError::InvalidNetwork));
    assert_eq!(
        Ipv4Network::from_str("10.0.0.0/8/8"),
        Err(ConfigParseError::InvalidNetwork)
    );
}

#[test]
fn autonomous_system_number_is_a_number() {
    let number: AutonomousSystemNumber = 64513.into();
    assert_eq!(number, AutonomousSystemNumber(64513));
    assert_eq!(u16::from(number), 64513);
    assert!(AutonomousSystemNumber(1) < AutonomousSystemNumber(2));
    assert_ne!(AutonomousSystemNumber(1), AutonomousSystemNumber(2));
}

#[test]
fn address_is_made_of_its_octets() {
    let address = Ipv4Address::new(127, 0, 0, 1);
    assert_eq!(address, Ipv4Address(0x7f00_0001));
    assert_eq!(address.octets(), [127, 0, 0, 1]);
    assert_eq!(Ipv4Address(0xc000_0280).octets(), [192, 0, 2, 128]);
}
