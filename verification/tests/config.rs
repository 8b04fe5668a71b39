use how_to_create_bgp::bgp_type::{AutonomousSystemNumber, Ipv4Address};
use how_to_create_bgp::config::{Config, Mode};
use how_to_create_bgp::error::ConfigParseError;
use how_to_create_bgp::routing::Ipv4Network;
use how_to_create_bgp::text::{address, chars_of, decimal, field_spans, octet};

fn chars(text: &str) -> Vec<char> {
    text.chars().collect()
}

#[test]
fn config_reads_a_line_without_networks() {
    let config: Config = "64512 127.0.0.1 65413 127.0.0.2 active".parse().unwrap();
    assert_eq!(
        config,
        Config::new(
            AutonomousSystemNumber(64512),
            Ipv4Address::new(127, 0, 0, 1),
            AutonomousSystemNumber(65413),
            Ipv4Address::new(127, 0, 0, 2),
            Mode::Active,
            vec![],
        )
    );
}

#[test]
fn config_reads_a_line_with_networks() {
    let config =
        Config::from_str("64513 10.200.100.3 64512 10.200.100.2 passive 10.100.220.0/24 10.0.0.0/8")
            .unwrap();
    assert_eq!(config.local_as, AutonomousSystemNumber(64513));
    assert_eq!(config.local_ip, Ipv4Address::new(10, 200, 100, 3));
    assert_eq!(config.remote_as, AutonomousSystemNumber(64512));
    assert_eq!(config.remote_ip, Ipv4Address::new(10, 200, 100, 2));
    assert_eq!(config.mode, Mode::Passive);
    assert_eq!(
        config.networks,
        vec![
            Ipv4Network::new(Ipv4Address::new(10, 100, 220, 0), 24).unwrap(),
            Ipv4Network::new(Ipv4Address::new(10, 0, 0, 0), 8).unwrap(),
        ]
    );
    assert_eq!(config.clone(), config);
}

#[test]
fn config_refuses_a_line_with_too_few_fields() {
    assert_eq!(Config::from_str(""), Err(ConfigParseError::MissingField));
    assert_eq!(Config::from_str("64512 127.0.0.1 65413 127.0.0.2"), Err(ConfigParseError::MissingField));
}

#[test]
fn config_refuses_a_bad_as_number() {
    for line in [
        "65536 127.0.0.1 65413 127.0.0.2 active",
        "-1 127.0.0.1 65413 127.0.0.2 active",
        "as 127.0.0.1 65413 127.0.0.2 active",
        " 127.0.0.1 65413 127.0.0.2 active",
        "64512 127.0.0.1 4200000000 127.0.0.2 active",
        "64512 127.0.0.1 6x 127.0.0.2 active",
    ] {
        assert_eq!(Config::from_str(line), Err(ConfigParseError::InvalidAsNumber));
    }
    assert_eq!(
        Config::from_str("65535 127.0.0.1 0 127.0.0.2 active").unwrap().local_as,
        AutonomousSystemNumber(65535)
    );
}

#[test]
fn config_refuses_a_bad_address() {
    for line in [
        "64512 127.0.0 65413 127.0.0.2 active",
        "64512 127.0.0.256 65413 127.0.0.2 active",
        "64512 127.0.0.1.1 65413 127.0.0.2 active",
        "64512 127.0.0.01 65413 127.0.0.2 active",
        "64512 127.0.0.1 65413 127..0.2 active",
        "64512 127.0.0.1 65413 localhost active",
        "64512  127.0.0.1 65413 127.0.0.2 active",
    ] {
        assert_eq!(Config::from_str(line), Err(ConfigParseError::InvalidIpAddress));
    }
}

#[test]
fn config_refuses_a_bad_mode() {
    for line in [
        "64512 127.0.0.1 65413 127.0.0.2 Active",
        "64512 127.0.0.1 65413 127.0.0.2 activ",
        "64512 127.0.0.1 65413 127.0.0.2 passives",
        "64512 127.0.0.1 65413 127.0.0.2 ",
    ] {
        assert_eq!(Config::from_str(line), Err(ConfigParseError::InvalidMode));
    }
}

#[test]
fn config_refuses_a_bad_network() {
    for line in [
        "64512 127.0.0.1 65413 127.0.0.2 active 10.0.0.0/33",
        "64512 127.0.0.1 65413 127.0.0.2 active 10.0.0.0/8 ",
        "64512 127.0.0.1 65413 127.0.0.2 active 10.0.0.0/8  10.1.0.0/16",
        "64512 127.0.0.1 65413 127.0.0.2 active ten/8",
    ] {
        assert_eq!(Config::from_str(line), Err(ConfigParseError::InvalidNetwork));
    }
}

#[test]
fn config_reports_the_first_field_that_does_not_read() {
    assert_eq!(Config::from_str("x y z w v u"), Err(ConfigParseError::InvalidAsNumber));
    assert_eq!(Config::from_str("1 y z w v u"), Err(ConfigParseError::InvalidIpAddress));
    assert_eq!(Config::from_str("1 1.1.1.1 z w v u"), Err(ConfigParseError::InvalidAsNumber));
    assert_eq!(Config::from_str("1 1.1.1.1 2 w v u"), Err(ConfigParseError::InvalidIpAddress));
    assert_eq!(Config::from_str("1 1.1.1.1 2 2.2.2.2 v u"), Err(ConfigParseError::InvalidMode));
    assert_eq!(
        Config::from_str("1 1.1.1.1 2 2.2.2.2 passive u"),
        Err(ConfigParseError::InvalidNetwork)
    );
}

#[test]
fn config_reads_text_that_is_not_ascii_as_text() {
    assert_eq!(
        Config::from_str("64512 127.0.0.1 65413 127.0.0.2 áctive"),
        Err(ConfigParseError::InvalidMode)
    );
    assert_eq!(
        Config::from_str("６４５１２ 127.0.0.1 65413 127.0.0.2 active"),
        Err(ConfigParseError::InvalidAsNumber)
    );
}

#[test]
fn fields_stand_between_separators() {
    assert_eq!(field_spans(&chars(""), ' '), vec![(0, 0)]);
    assert_eq!(field_spans(&chars("ab"), ' '), vec![(0, 2)]);
    assert_eq!(field_spans(&chars("ab cd"), ' '), vec![(0, 2), (3, 5)]);
    assert_eq!(field_spans(&chars(" ab  cd "), ' '), vec![(0, 0), (1, 3), (4, 4), (5, 7), (8, 8)]);
    assert_eq!(field_spans(&chars("1.2.3.4"), '.'), vec![(0, 1), (2, 3), (4, 5), (6, 7)]);
}

#[test]
fn decimal_reads_digits_up_to_a_limit() {
    assert_eq!(decimal(&chars("0"), 65535), Some(0));
    assert_eq!(decimal(&chars("65535"), 65535), Some(65535));
    assert_eq!(decimal(&chars("65536"), 65535), None);
    assert_eq!(decimal(&chars("0000000000000000000000065535"), 65535), Some(65535));
    assert_eq!(decimal(&chars("99999999999999999999999999"), 65535), None);
    assert_eq!(decimal(&chars(""), 65535), None);
    assert_eq!(decimal(&chars("+1"), 65535), None);
    assert_eq!(decimal(&chars("12a"), 65535), None);
    assert_eq!(decimal(&chars("255"), 255), Some(255));
    assert_eq!(decimal(&chars("256"), 255), None);
}

#[test]
fn octet_takes_no_leading_zero() {
    assert_eq!(octet(&chars("0")), Some(0));
    assert_eq!(octet(&chars("7")), Some(7));
    assert_eq!(octet(&chars("255")), Some(255));
    assert_eq!(octet(&chars("256")), None);
    assert_eq!(octet(&chars("00")), None);
    assert_eq!(octet(&chars("01")), None);
    assert_eq!(octet(&chars("1000")), None);
    assert_eq!(octet(&chars("")), None);
}

#[test]
fn address_reads_the_dotted_form() {
    assert_eq!(address(&chars("127.0.0.1")), Some(Ipv4Address::new(127, 0, 0, 1)));
    assert_eq!(address(&chars("255.255.255.255")), Some(Ipv4Address(0xffff_ffff)));
    assert_eq!(address(&chars("0.0.0.0")), Some(Ipv4Address(0)));
    assert_eq!(address(&chars("1.2.3")), None);
    assert_eq!(address(&chars("1.2.3.4.")), None);
    assert_eq!(address(&chars("1.2.3.")), None);
    assert_eq!(address(&chars("")), None);
}

#[test]
fn chars_of_gives_the_characters_in_order() {
    assert_eq!(chars_of("a b"), vec!['a', ' ', 'b']);
    assert_eq!(chars_of("é1"), vec!['é', '1']);
    assert_eq!(chars_of(""), Vec::<char>::new());
}
