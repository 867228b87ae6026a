use ktr::ip::{is_public, IpAddress};
use ktr::metadata::{Asn, GeographicScope, NetworkType};
use ktr::whois::{try_parse_asn_ignore_prefix, try_parse_asn_prefixed, try_parse_asn_unprefixed};

fn v4(a: u8, b: u8, c: u8, d: u8) -> IpAddress {
    IpAddress::V4(u32::from_be_bytes([a, b, c, d]))
}

#[test]
fn scope_from_peeringdb_strings() {
    assert_eq!(GeographicScope::from_peeringdb_str("Regional"), GeographicScope::Regional);
    assert_eq!(GeographicScope::from_peeringdb_str("North America"), GeographicScope::NorthAmerica);
    assert_eq!(GeographicScope::from_peeringdb_str("Asia Pacific"), GeographicScope::AsiaPacific);
    assert_eq!(GeographicScope::from_peeringdb_str("Europe"), GeographicScope::Europe);
    assert_eq!(GeographicScope::from_peeringdb_str("South America"), GeographicScope::SouthAmerica);
    assert_eq!(GeographicScope::from_peeringdb_str("Africa"), GeographicScope::Africa);
    assert_eq!(GeographicScope::from_peeringdb_str("Australia"), GeographicScope::Australia);
    assert_eq!(GeographicScope::from_peeringdb_str("Middle East"), GeographicScope::MiddleEast);
    assert_eq!(GeographicScope::from_peeringdb_str("Global"), GeographicScope::Global);
    assert_eq!(GeographicScope::from_peeringdb_str("Intergalactic"), GeographicScope::Other);
    assert_eq!(GeographicScope::from_peeringdb_str(""), GeographicScope::Other);
    // exact match only: case differences map to Other
    assert_eq!(GeographicScope::from_peeringdb_str("global"), GeographicScope::Other);
}

#[test]
fn scope_from_country_codes() {
    assert_eq!(GeographicScope::from_country_code("US"), GeographicScope::NorthAmerica);
    assert_eq!(GeographicScope::from_country_code("GL"), GeographicScope::NorthAmerica);
    assert_eq!(GeographicScope::from_country_code("BR"), GeographicScope::SouthAmerica);
    assert_eq!(GeographicScope::from_country_code("DE"), GeographicScope::Europe);
    assert_eq!(GeographicScope::from_country_code("SJ"), GeographicScope::Europe);
    assert_eq!(GeographicScope::from_country_code("SA"), GeographicScope::MiddleEast);
    assert_eq!(GeographicScope::from_country_code("ZA"), GeographicScope::Africa);
    assert_eq!(GeographicScope::from_country_code("NZ"), GeographicScope::Australia);
    // Antarctica codes group with Australia/Oceania
    assert_eq!(GeographicScope::from_country_code("AQ"), GeographicScope::Australia);
    assert_eq!(GeographicScope::from_country_code("BV"), GeographicScope::Australia);
    assert_eq!(GeographicScope::from_country_code("JP"), GeographicScope::AsiaPacific);
    assert_eq!(GeographicScope::from_country_code("IO"), GeographicScope::AsiaPacific);
    assert_eq!(GeographicScope::from_country_code("ZZ"), GeographicScope::Other);
    assert_eq!(GeographicScope::from_country_code("us"), GeographicScope::Other);
    assert_eq!(GeographicScope::from_country_code(""), GeographicScope::Other);
}

#[test]
fn network_type_from_peeringdb_strings() {
    assert_eq!(NetworkType::from_peeringdb_str("NSP"), NetworkType::Nsp);
    assert_eq!(NetworkType::from_peeringdb_str("Content"), NetworkType::Content);
    assert_eq!(NetworkType::from_peeringdb_str("Cable/DSL/ISP"), NetworkType::Isp);
    assert_eq!(NetworkType::from_peeringdb_str("Enterprise"), NetworkType::Enterprise);
    assert_eq!(NetworkType::from_peeringdb_str("Educational/Research"), NetworkType::Educational);
    assert_eq!(NetworkType::from_peeringdb_str("Non-Profit"), NetworkType::NonProfit);
    assert_eq!(NetworkType::from_peeringdb_str("Route Server"), NetworkType::RouteServer);
    assert_eq!(NetworkType::from_peeringdb_str("Network Services"), NetworkType::NetworkServices);
    assert_eq!(NetworkType::from_peeringdb_str("Route Collector"), NetworkType::RouteCollector);
    assert_eq!(NetworkType::from_peeringdb_str("Government"), NetworkType::Government);
    assert_eq!(NetworkType::from_peeringdb_str("whatever"), NetworkType::Other);
}

#[test]
fn network_type_from_bgptools_strings() {
    assert_eq!(NetworkType::from_bgptools_str("Unknown"), NetworkType::Other);
    assert_eq!(NetworkType::from_bgptools_str("Eyeball"), NetworkType::NspOrIsp);
    assert_eq!(NetworkType::from_bgptools_str("Content"), NetworkType::Content);
    assert_eq!(NetworkType::from_bgptools_str("Carrier"), NetworkType::Isp);
    assert_eq!(NetworkType::from_bgptools_str("T1"), NetworkType::NspOrIsp);
    assert_eq!(NetworkType::from_bgptools_str("Tier1"), NetworkType::Other);
}

#[test]
fn asn_parsing_accepts_both_forms() {
    assert_eq!(try_parse_asn_unprefixed("64500"), Some(Asn(64500)));
    assert_eq!(try_parse_asn_unprefixed("  64500 \r\n"), Some(Asn(64500)));
    assert_eq!(try_parse_asn_unprefixed("AS64500"), None);
    assert_eq!(try_parse_asn_unprefixed(""), None);
    assert_eq!(try_parse_asn_unprefixed("12x3"), None);
    assert_eq!(try_parse_asn_unprefixed("4294967295"), Some(Asn(4294967295)));
    assert_eq!(try_parse_asn_unprefixed("4294967296"), None);
    assert_eq!(try_parse_asn_prefixed("AS64500"), Some(Asn(64500)));
    assert_eq!(try_parse_asn_prefixed("AS 64500"), Some(Asn(64500)));
    assert_eq!(try_parse_asn_prefixed("64500"), None);
    assert_eq!(try_parse_asn_ignore_prefix("AS19281"), Some(Asn(19281)));
    assert_eq!(try_parse_asn_ignore_prefix("19281"), Some(Asn(19281)));
    assert_eq!(try_parse_asn_ignore_prefix("bogus"), None);
}

#[test]
fn asn_code_renders_and_parses_back() {
    let asn = Asn(19281);
    let code = asn.code();
    assert_eq!(code, b"AS19281".to_vec());
    let text = String::from_utf8(code).unwrap();
    assert_eq!(try_parse_asn_prefixed(&text), Some(asn));
    assert_eq!(Asn(0).code(), b"AS0".to_vec());
    assert_eq!(Asn(4294967295).code(), b"AS4294967295".to_vec());
}

#[test]
fn public_address_ranges_v4() {
    assert!(is_public(&v4(8, 8, 8, 8)));
    assert!(is_public(&v4(9, 9, 9, 9)));
    assert!(!is_public(&v4(10, 0, 0, 1)));
    assert!(!is_public(&v4(172, 16, 0, 1)));
    assert!(is_public(&v4(172, 32, 0, 1)));
    assert!(!is_public(&v4(192, 168, 1, 1)));
    assert!(!is_public(&v4(127, 0, 0, 1)));
    assert!(!is_public(&v4(255, 255, 255, 255)));
    assert!(!is_public(&v4(224, 0, 0, 1)));
    assert!(!is_public(&v4(169, 254, 0, 1)));
    assert!(!is_public(&v4(0, 0, 0, 0)));
    assert!(!is_public(&v4(192, 0, 2, 1)));
    assert!(!is_public(&v4(198, 51, 100, 5)));
    assert!(!is_public(&v4(203, 0, 113, 1)));
}

#[test]
fn public_address_ranges_v6() {
    assert!(!is_public(&IpAddress::V6(1))); // loopback
    assert!(!is_public(&IpAddress::V6(0))); // unspecified
    let multicast = 0xFF02_0000_0000_0000_0000_0000_0000_0001u128;
    assert!(!is_public(&IpAddress::V6(multicast)));
    let global = 0x2001_4860_4860_0000_0000_0000_0000_8888u128;
    assert!(is_public(&IpAddress::V6(global)));
}
