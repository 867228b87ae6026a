use ktr::ip::IpAddress;
use ktr::packet::{parse_echo_request, parse_reply, EchoEncoder, PacketId, TracerouteError, TracerouteResult};

fn v4(a: u8, b: u8, c: u8, d: u8) -> IpAddress {
    IpAddress::V4(u32::from_be_bytes([a, b, c, d]))
}

#[test]
fn v4_probe_bytes_exact() {
    let mut enc = EchoEncoder::new(false);
    let p = enc.encode_echo(&v4(1, 2, 3, 4), 5, PacketId(0x1234)).unwrap();
    // checksum over [0x08, 0, 0, 0, 0x12, 0x34, 0, 1]: sum = 0x0800 + 0x1234 + 1
    let sum: u32 = 0x0800 + 0x1234 + 1;
    let ck = 0xFFFFu32 - sum;
    let expected: Vec<u8> = vec![
        0x45, 0, 0, 28, 0x12, 0x34, 0x40, 0, 5, 1, 0, 0, 0, 0, 0, 0, 1, 2, 3, 4, 8, 0,
        (ck >> 8) as u8, (ck & 0xFF) as u8, 0x12, 0x34, 0, 1,
    ];
    assert_eq!(p, expected);
}

#[test]
fn v4_round_trip_recovers_fields() {
    let mut enc = EchoEncoder::new(false);
    let p = enc.encode_echo(&v4(9, 9, 9, 9), 7, PacketId(0xBEEF)).unwrap();
    let f = parse_echo_request(&p).unwrap();
    assert_eq!(f.dst, v4(9, 9, 9, 9));
    assert_eq!(f.ttl, 7);
    assert_eq!(f.id, PacketId(0xBEEF));
}

#[test]
fn v6_round_trip_recovers_fields() {
    let mut enc = EchoEncoder::new(true);
    let dst = IpAddress::V6(0x2001_0db8_0000_0000_0000_0000_0000_0001u128);
    let p = enc.encode_echo(&dst, 3, PacketId(0xA5A5)).unwrap();
    let f = parse_echo_request(&p).unwrap();
    assert_eq!(f.dst, dst);
    assert_eq!(f.ttl, 3);
    assert_eq!(f.id, PacketId(0xA5A5));
}

#[test]
fn ipv6_disabled_is_refused() {
    let mut enc = EchoEncoder::new(false);
    let dst = IpAddress::V6(1);
    let r = enc.encode_echo(&dst, 3, PacketId(1));
    assert_eq!(r, Err(TracerouteError::Ipv6Disabled));
}

#[test]
fn sequence_counter_wraps_without_error() {
    let mut enc = EchoEncoder::new(false);
    enc.sequence_number = 0xFFFF;
    let p = enc.encode_echo(&v4(1, 1, 1, 1), 1, PacketId(2)).unwrap();
    assert_eq!(enc.sequence_number, 0);
    // the wrapped sequence is what went on the wire
    assert_eq!(&p[26..28], &[0, 0]);
    enc.encode_echo(&v4(1, 1, 1, 1), 1, PacketId(2)).unwrap();
    assert_eq!(enc.sequence_number, 1);
}

fn eth_v4_frame(icmp: &[u8], src: [u8; 4]) -> Vec<u8> {
    let mut f = vec![0u8; 14];
    f[12] = 0x08;
    f[13] = 0x00;
    let total = 20 + icmp.len();
    let mut ip = vec![
        0x45, 0, (total >> 8) as u8, (total & 0xFF) as u8, 0, 0, 0, 0, 64, 1, 0, 0,
    ];
    ip.extend_from_slice(&src);
    ip.extend_from_slice(&[10, 0, 0, 99]); // the probing host, as the destination
    f.extend_from_slice(&ip);
    f.extend_from_slice(icmp);
    f
}

#[test]
fn parse_echo_reply_v4() {
    // ICMP Echo Reply, identifier 0x0102, sequence 9
    let icmp = [0u8, 0, 0, 0, 0x01, 0x02, 0, 9];
    let f = eth_v4_frame(&icmp, [9, 9, 9, 9]);
    let r = parse_reply(&f).unwrap();
    assert_eq!(r, TracerouteResult::IcmpReply(v4(9, 9, 9, 9), PacketId(0x0102)));
}

#[test]
fn parse_time_exceeded_v4_reads_inner_identification() {
    // ICMP Time Exceeded quoting an IPv4 header whose identification is 0xCAFE
    let mut icmp = vec![11u8, 0, 0, 0, 0, 0, 0, 0];
    let inner = [
        0x45u8, 0, 0, 28, 0xCA, 0xFE, 0x40, 0, 1, 1, 0, 0, 0, 0, 0, 0, 9, 9, 9, 9,
    ];
    icmp.extend_from_slice(&inner);
    let f = eth_v4_frame(&icmp, [10, 0, 0, 1]);
    let r = parse_reply(&f).unwrap();
    assert_eq!(r, TracerouteResult::IcmpTimeExceeded(v4(10, 0, 0, 1), PacketId(0xCAFE)));
}

#[test]
fn parse_destination_unreachable_v4() {
    let icmp = [3u8, 1, 0, 0, 0, 0, 0, 0];
    let f = eth_v4_frame(&icmp, [8, 8, 8, 8]);
    let r = parse_reply(&f).unwrap();
    assert_eq!(r, TracerouteResult::IcmpDestinationUnreachable(v4(8, 8, 8, 8)));
}

#[test]
fn parse_rejects_malformed_and_foreign_frames() {
    assert_eq!(parse_reply(&[]), None);
    assert_eq!(parse_reply(&[0u8; 13]), None);
    // ARP ethertype
    let mut arp = vec![0u8; 64];
    arp[12] = 0x08;
    arp[13] = 0x06;
    assert_eq!(parse_reply(&arp), None);
    // IPv4 but not ICMP (TCP)
    let icmp = [0u8, 0, 0, 0, 0, 0, 0, 0];
    let mut f = eth_v4_frame(&icmp, [9, 9, 9, 9]);
    f[14 + 9] = 6;
    assert_eq!(parse_reply(&f), None);
    // unknown ICMP type
    let icmp = [42u8, 0, 0, 0, 0, 0, 0, 0];
    let f = eth_v4_frame(&icmp, [9, 9, 9, 9]);
    assert_eq!(parse_reply(&f), None);
}

#[test]
fn parse_time_exceeded_v6_reads_inner_flow_label() {
    // Ethernet + IPv6 + ICMPv6 Time Exceeded quoting an inner IPv6 header
    let mut f = vec![0u8; 14];
    f[12] = 0x86;
    f[13] = 0xDD;
    let mut ip6 = vec![0x60u8, 0, 0, 0, 0, 48, 58, 64];
    let src = 0x2001_0db8_0000_0000_0000_0000_0000_0042u128;
    ip6.extend_from_slice(&src.to_be_bytes());
    ip6.extend_from_slice(&[0u8; 16]);
    f.extend_from_slice(&ip6);
    f.extend_from_slice(&[3u8, 0, 0, 0, 0, 0, 0, 0]);
    // inner IPv6 header: flow label 0x5BEEF; the low 16 bits are the id
    let mut inner = vec![0x65u8, 0xB0 | 0x0E, 0xBE, 0xEF, 0, 8, 58, 1];
    inner[1] = 0x05; // flow label high nibble 0x5
    inner[2] = 0xBE;
    inner[3] = 0xEF;
    inner.extend_from_slice(&[0u8; 32]);
    f.extend_from_slice(&inner);
    let r = parse_reply(&f).unwrap();
    assert_eq!(
        r,
        TracerouteResult::IcmpTimeExceeded(IpAddress::V6(src), PacketId(0xBEEF))
    );
}
