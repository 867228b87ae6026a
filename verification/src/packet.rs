use vstd::prelude::*;
use vstd::arithmetic::div_mod::{lemma_fundamental_div_mod, lemma_div_denominator};
use crate::ip::IpAddress;

verus! {

/// The 16-bit identifier a probe carries, used to correlate replies to hops.
#[derive(Debug, Clone, Copy, PartialEq, Eq, Hash, Structural)]
pub struct PacketId(pub u16);

/// Failures of the raw traceroute channel.
#[derive(Debug, Clone, Copy, PartialEq, Eq, Structural)]
pub enum TracerouteError {
    PacketConstruction,
    RxChannelIo,
    Ipv4ChannelIo,
    Ipv6ChannelIo,
    Ipv6Disabled,
    Unknown,
}

/// A classified ICMP reply delivered by the capture channel.
#[derive(Debug, Clone, Copy, PartialEq, Eq, Structural)]
pub enum TracerouteResult {
    IcmpReply(IpAddress, PacketId),
    IcmpTimeExceeded(IpAddress, PacketId),
    IcmpDestinationUnreachable(IpAddress),
}

/// The fields a probe is built from, as recovered by parsing one back.
#[derive(Debug, Clone, Copy, PartialEq, Eq, Structural)]
pub struct EchoRequestFields {
    pub dst: IpAddress,
    pub ttl: u8,
    pub id: PacketId,
}

/// Big-endian value of a byte sequence.
pub open spec fn be_val(s: Seq<u8>) -> int
    decreases s.len(),
{
    if s.len() == 0 {
        0
    } else {
        be_val(s.drop_last()) * 256 + s.last()
    }
}

pub open spec fn be16(a: u8, b: u8) -> int {
    a * 256 + b
}

pub open spec fn be32(a: u8, b: u8, c: u8, d: u8) -> int {
    ((a * 256 + b) * 256 + c) * 256 + d
}

pub open spec fn pow256(k: nat) -> int
    decreases k,
{
    if k == 0 {
        1
    } else {
        256 * pow256((k - 1) as nat)
    }
}

/// Byte `i` (most significant first) of a 128-bit value.
pub open spec fn u128_byte(x: u128, i: int) -> u8 {
    (((x as int) / pow256((15 - i) as nat)) % 256) as u8
}

/// One step of end-around carry folding in the Internet checksum.
pub open spec fn fold_carry(n: int) -> int {
    n % 65536 + n / 65536
}

/// The ICMP checksum of an Echo Request whose identifier and sequence are the
/// only non-constant words.
pub open spec fn icmp_echo_checksum(id: u16, seq: u16) -> int {
    0xFFFF - fold_carry(fold_carry(0x0800 + id + seq))
}

/// The bytes of an IPv4 probe: a 20-byte IPv4 header (don't-fragment set,
/// identification `id`, the given TTL, unspecified source) followed by an
/// 8-byte ICMP Echo Request with identifier `id` and the given sequence.
pub open spec fn encode_v4_spec(dst: u32, ttl: u8, id: u16, seq: u16) -> Seq<u8> {
    seq![
        0x45u8,
        0u8,
        0u8,
        28u8,
        (id / 256) as u8,
        (id % 256) as u8,
        0x40u8,
        0u8,
        ttl,
        1u8,
        0u8,
        0u8,
        0u8,
        0u8,
        0u8,
        0u8,
        (dst / 16777216) as u8,
        ((dst / 65536) % 256) as u8,
        ((dst / 256) % 256) as u8,
        (dst % 256) as u8,
        8u8,
        0u8,
        (icmp_echo_checksum(id, seq) / 256) as u8,
        (icmp_echo_checksum(id, seq) % 256) as u8,
        (id / 256) as u8,
        (id % 256) as u8,
        (seq / 256) as u8,
        (seq % 256) as u8,
    ]
}

/// The bytes of an IPv6 probe: a 40-byte IPv6 header (flow label `id`,
/// hop limit `ttl`, unspecified source) followed by an 8-byte ICMPv6 Echo
/// Request whose checksum is left to the kernel.
pub open spec fn encode_v6_spec(dst: u128, ttl: u8, id: u16, seq: u16) -> Seq<u8> {
    seq![0x60u8, 0u8, (id / 256) as u8, (id % 256) as u8, 0u8, 8u8, 58u8, ttl] + Seq::new(
        16,
        |i: int| 0u8,
    ) + Seq::new(16, |i: int| u128_byte(dst, i)) + seq![
        128u8,
        0u8,
        0u8,
        0u8,
        (id / 256) as u8,
        (id % 256) as u8,
        (seq / 256) as u8,
        (seq % 256) as u8,
    ]
}

/// Classification of a captured Ethernet frame, as the channel reports it:
/// Echo Reply and Time Exceeded carry the correlating identifier (from the
/// ICMP identifier and the quoted inner header, respectively); anything
/// else that is well-formed ICMP yields Destination Unreachable or nothing.
pub open spec fn parse_reply_spec(f: Seq<u8>) -> Option<TracerouteResult> {
    if f.len() < 14 {
        None
    } else if be16(f[12], f[13]) == 0x0800 {
        parse_v4_reply_spec(f)
    } else if be16(f[12], f[13]) == 0x86DD {
        parse_v6_reply_spec(f)
    } else {
        None
    }
}

pub open spec fn parse_v4_reply_spec(f: Seq<u8>) -> Option<TracerouteResult> {
    if f.len() < 34 {
        None
    } else {
        let ihl = (f[14] % 16) as int;
        let q = 14 + ihl * 4;
        if ihl < 5 {
            None
        } else if f[23] != 1 {
            None
        } else if f.len() < q + 8 {
            None
        } else {
            let src = IpAddress::V4(be32(f[26], f[27], f[28], f[29]) as u32);
            if f[q] == 0 {
                Some(
                    TracerouteResult::IcmpReply(src, PacketId(be16(f[q + 4], f[q + 5]) as u16)),
                )
            } else if f[q] == 11 {
                if f.len() < q + 28 {
                    None
                } else {
                    Some(
                        TracerouteResult::IcmpTimeExceeded(
                            src,
                            PacketId(be16(f[q + 12], f[q + 13]) as u16),
                        ),
                    )
                }
            } else if f[q] == 3 {
                Some(TracerouteResult::IcmpDestinationUnreachable(src))
            } else {
                None
            }
        }
    }
}

pub open spec fn parse_v6_reply_spec(f: Seq<u8>) -> Option<TracerouteResult> {
    if f.len() < 62 {
        None
    } else if f[20] != 58 {
        None
    } else {
        let src = IpAddress::V6(be_val(f.subrange(22, 38)) as u128);
        if f[54] == 129 {
            Some(TracerouteResult::IcmpReply(src, PacketId(be16(f[58], f[59]) as u16)))
        } else if f[54] == 3 {
            if f.len() < 102 {
                None
            } else {
                Some(
                    TracerouteResult::IcmpTimeExceeded(
                        src,
                        PacketId(be16(f[64], f[65]) as u16),
                    ),
                )
            }
        } else if f[54] == 1 {
            Some(TracerouteResult::IcmpDestinationUnreachable(src))
        } else {
            None
        }
    }
}

/// The fields recovered from an encoded probe: destination, TTL (hop limit)
/// and the echo identifier.
pub open spec fn parse_echo_request_spec(p: Seq<u8>) -> Option<EchoRequestFields> {
    if p.len() < 1 {
        None
    } else if p[0] / 16 == 4 {
        let ihl = (p[0] % 16) as int;
        let q = ihl * 4;
        if ihl < 5 || p.len() < q + 8 {
            None
        } else if p[9] != 1 || p[q] != 8 {
            None
        } else {
            Some(
                EchoRequestFields {
                    dst: IpAddress::V4(be32(p[16], p[17], p[18], p[19]) as u32),
                    ttl: p[8],
                    id: PacketId(be16(p[q + 4], p[q + 5]) as u16),
                },
            )
        }
    } else if p[0] / 16 == 6 {
        if p.len() < 48 {
            None
        } else if p[6] != 58 || p[40] != 128 {
            None
        } else {
            Some(
                EchoRequestFields {
                    dst: IpAddress::V6(be_val(p.subrange(24, 40)) as u128),
                    ttl: p[7],
                    id: PacketId(be16(p[44], p[45]) as u16),
                },
            )
        }
    } else {
        None
    }
}

fn read_be16(a: u8, b: u8) -> (r: u16)
    ensures
        r == be16(a, b),
{
    (a as u16) * 256 + (b as u16)
}

fn read_be32(a: u8, b: u8, c: u8, d: u8) -> (r: u32)
    ensures
        r == be32(a, b, c, d),
{
    (((a as u32) * 256 + (b as u32)) * 256 + (c as u32)) * 256 + (d as u32)
}

proof fn lemma_pow256_pos(k: nat)
    ensures
        pow256(k) >= 1,
    decreases k,
{
    if k > 0 {
        lemma_pow256_pos((k - 1) as nat);
    }
}

/// Reads the 16 bytes `f[start .. start + 16]` as a big-endian 128-bit value.
fn read_be_u128(f: &[u8], start: usize) -> (r: u128)
    requires
        start + 16 <= f@.len(),
    ensures
        r == be_val(f@.subrange(start as int, start as int + 16)),
{
    let n = f.len();
    let mut acc: u128 = 0;
    let mut i: usize = 0;
    proof {
        assert(f@.subrange(start as int, start as int) =~= Seq::<u8>::empty());
    }
    while i < 16
        invariant
            start + 16 <= f@.len(),
            n == f@.len(),
            0 <= i <= 16,
            acc == be_val(f@.subrange(start as int, start as int + i)),
            acc < pow256(i as nat),
        decreases 16 - i,
    {
        let b = f[start + i];
        proof {
            let cur = f@.subrange(start as int, start as int + i + 1);
            assert(cur.drop_last() =~= f@.subrange(start as int, start as int + i));
            assert(cur.last() == f@[start as int + i]);
            assert(acc * 256 + b < pow256((i + 1) as nat)) by (nonlinear_arith)
                requires
                    acc < pow256(i as nat),
                    b < 256,
                    pow256((i + 1) as nat) == 256 * pow256(i as nat),
            ;
            assert(pow256((i + 1) as nat) <= pow256(16)) by {
                lemma_pow256_mono((i + 1) as nat, 16);
            }
            assert(pow256(16) == 0x100000000000000000000000000000000) by {
                reveal_with_fuel(pow256, 17);
            }
        }
        acc = acc * 256 + (b as u128);
        i += 1;
    }
    acc
}

proof fn lemma_pow256_mono(a: nat, b: nat)
    requires
        a <= b,
    ensures
        pow256(a) <= pow256(b),
    decreases b,
{
    if a < b {
        lemma_pow256_mono(a, (b - 1) as nat);
        lemma_pow256_pos((b - 1) as nat);
    }
}

/// Parses and classifies a captured Ethernet frame.
pub fn parse_reply(f: &[u8]) -> (r: Option<TracerouteResult>)
    ensures
        r == parse_reply_spec(f@),
{
    if f.len() < 14 {
        return None;
    }
    let ety = read_be16(f[12], f[13]);
    if ety == 0x0800 {
        parse_v4_reply(f)
    } else if ety == 0x86DD {
        parse_v6_reply(f)
    } else {
        None
    }
}

fn parse_v4_reply(f: &[u8]) -> (r: Option<TracerouteResult>)
    requires
        f@.len() >= 14,
        be16(f@[12], f@[13]) == 0x0800,
    ensures
        r == parse_v4_reply_spec(f@),
{
    if f.len() < 34 {
        return None;
    }
    let ihl = (f[14] % 16) as usize;
    let q = 14 + ihl * 4;
    if ihl < 5 {
        return None;
    }
    if f[23] != 1 {
        return None;
    }
    if f.len() < q + 8 {
        return None;
    }
    let src = IpAddress::V4(read_be32(f[26], f[27], f[28], f[29]));
    let t = f[q];
    if t == 0 {
        Some(TracerouteResult::IcmpReply(src, PacketId(read_be16(f[q + 4], f[q + 5]))))
    } else if t == 11 {
        if f.len() < q + 28 {
            None
        } else {
            Some(TracerouteResult::IcmpTimeExceeded(src, PacketId(read_be16(f[q + 12], f[q + 13]))))
        }
    } else if t == 3 {
        Some(TracerouteResult::IcmpDestinationUnreachable(src))
    } else {
        None
    }
}

fn parse_v6_reply(f: &[u8]) -> (r: Option<TracerouteResult>)
    requires
        f@.len() >= 14,
        be16(f@[12], f@[13]) == 0x86DD,
    ensures
        r == parse_v6_reply_spec(f@),
{
    if f.len() < 62 {
        return None;
    }
    if f[20] != 58 {
        return None;
    }
    let src = IpAddress::V6(read_be_u128(f, 22));
    proof {
        assert(be_val(f@.subrange(22, 38)) as u128 == be_val(f@.subrange(22, 38))) by {
            lemma_be_val_bounds(f@.subrange(22, 38));
            assert(pow256(16) == 0x100000000000000000000000000000000) by {
                reveal_with_fuel(pow256, 17);
            }
        }
    }
    let t = f[54];
    if t == 129 {
        Some(TracerouteResult::IcmpReply(src, PacketId(read_be16(f[58], f[59]))))
    } else if t == 3 {
        if f.len() < 102 {
            None
        } else {
            Some(TracerouteResult::IcmpTimeExceeded(src, PacketId(read_be16(f[64], f[65]))))
        }
    } else if t == 1 {
        Some(TracerouteResult::IcmpDestinationUnreachable(src))
    } else {
        None
    }
}

proof fn lemma_be_val_bounds(s: Seq<u8>)
    ensures
        0 <= be_val(s) < pow256(s.len() as nat),
    decreases s.len(),
{
    if s.len() == 0 {
    } else {
        lemma_be_val_bounds(s.drop_last());
        assert(be_val(s.drop_last()) * 256 + s.last() < pow256(s.len() as nat))
            by (nonlinear_arith)
            requires
                be_val(s.drop_last()) < pow256((s.len() - 1) as nat),
                s.last() < 256,
                pow256(s.len() as nat) == 256 * pow256((s.len() - 1) as nat),
        ;
        assert(be_val(s.drop_last()) * 256 + s.last() >= 0) by (nonlinear_arith)
            requires
                be_val(s.drop_last()) >= 0,
                s.last() >= 0,
        ;
    }
}

/// Parses back an encoded probe, recovering destination, TTL and identifier.
pub fn parse_echo_request(p: &[u8]) -> (r: Option<EchoRequestFields>)
    ensures
        r == parse_echo_request_spec(p@),
{
    if p.len() < 1 {
        return None;
    }
    let ver = p[0] / 16;
    if ver == 4 {
        let ihl = (p[0] % 16) as usize;
        let q = ihl * 4;
        if ihl < 5 || p.len() < q + 8 {
            return None;
        }
        if p[9] != 1 || p[q] != 8 {
            return None;
        }
        Some(
            EchoRequestFields {
                dst: IpAddress::V4(read_be32(p[16], p[17], p[18], p[19])),
                ttl: p[8],
                id: PacketId(read_be16(p[q + 4], p[q + 5])),
            },
        )
    } else if ver == 6 {
        if p.len() < 48 {
            return None;
        }
        if p[6] != 58 || p[40] != 128 {
            return None;
        }
        let dst = read_be_u128(p, 24);
        proof {
            lemma_be_val_bounds(p@.subrange(24, 40));
            assert(pow256(16) == 0x100000000000000000000000000000000) by {
                reveal_with_fuel(pow256, 17);
            }
        }
        Some(
            EchoRequestFields {
                dst: IpAddress::V6(dst),
                ttl: p[7],
                id: PacketId(read_be16(p[44], p[45])),
            },
        )
    } else {
        None
    }
}

/// Builds probe packets, keeping the per-channel 16-bit sequence counter.
#[derive(Debug, Clone, PartialEq, Eq, Structural)]
pub struct EchoEncoder {
    pub sequence_number: u16,
    pub enable_ipv6: bool,
}

impl EchoEncoder {
    pub fn new(enable_ipv6: bool) -> (e: Self)
        ensures
            e.sequence_number == 0,
            e.enable_ipv6 == enable_ipv6,
    {
        EchoEncoder { sequence_number: 0, enable_ipv6 }
    }

    /// Encodes one Echo Request probe. The sequence counter increments on
    /// every call, wrapping from 0xFFFF back to 0; an IPv6 destination is
    /// refused when IPv6 was not enabled.
    pub fn encode_echo(&mut self, dst: &IpAddress, ttl: u8, id: PacketId) -> (r: Result<
        Vec<u8>,
        TracerouteError,
    >)
        ensures
            final(self).enable_ipv6 == old(self).enable_ipv6,
            final(self).sequence_number == (if old(self).sequence_number == 0xFFFF {
                0u16
            } else {
                (old(self).sequence_number + 1) as u16
            }),
            match *dst {
                IpAddress::V4(bits) => r matches Ok(p) && p@ == encode_v4_spec(
                    bits,
                    ttl,
                    id.0,
                    final(self).sequence_number,
                ),
                IpAddress::V6(bits) => if old(self).enable_ipv6 {
                    r matches Ok(p) && p@ == encode_v6_spec(
                        bits,
                        ttl,
                        id.0,
                        final(self).sequence_number,
                    )
                } else {
                    r matches Err(e) && e == TracerouteError::Ipv6Disabled
                },
            },
    {
        self.sequence_number = if self.sequence_number == 0xFFFF {
            0
        } else {
            self.sequence_number + 1
        };
        let seq = self.sequence_number;
        match dst {
            IpAddress::V4(bits) => Ok(encode_v4(*bits, ttl, id.0, seq)),
            IpAddress::V6(bits) => {
                if self.enable_ipv6 {
                    Ok(encode_v6(*bits, ttl, id.0, seq))
                } else {
                    Err(TracerouteError::Ipv6Disabled)
                }
            },
        }
    }
}

fn icmp_checksum(id: u16, seq: u16) -> (r: u16)
    ensures
        r == icmp_echo_checksum(id, seq),
{
    let mut sum: u32 = 2048 + (id as u32) + (seq as u32);
    sum = sum % 65536 + sum / 65536;
    sum = sum % 65536 + sum / 65536;
    (65535 - sum) as u16
}

fn encode_v4(dst: u32, ttl: u8, id: u16, seq: u16) -> (r: Vec<u8>)
    ensures
        r@ == encode_v4_spec(dst, ttl, id, seq),
{
    let ck = icmp_checksum(id, seq);
    let mut v: Vec<u8> = Vec::new();
    v.push(0x45);
    v.push(0);
    v.push(0);
    v.push(28);
    v.push((id / 256) as u8);
    v.push((id % 256) as u8);
    v.push(0x40);
    v.push(0);
    v.push(ttl);
    v.push(1);
    v.push(0);
    v.push(0);
    v.push(0);
    v.push(0);
    v.push(0);
    v.push(0);
    v.push((dst / 16777216) as u8);
    v.push(((dst / 65536) % 256) as u8);
    v.push(((dst / 256) % 256) as u8);
    v.push((dst % 256) as u8);
    v.push(8);
    v.push(0);
    v.push((ck / 256) as u8);
    v.push((ck % 256) as u8);
    v.push((id / 256) as u8);
    v.push((id % 256) as u8);
    v.push((seq / 256) as u8);
    v.push((seq % 256) as u8);
    proof {
        assert(v@ =~= encode_v4_spec(dst, ttl, id, seq));
    }
    v
}

fn encode_v6(dst: u128, ttl: u8, id: u16, seq: u16) -> (r: Vec<u8>)
    ensures
        r@ == encode_v6_spec(dst, ttl, id, seq),
{
    let mut v: Vec<u8> = Vec::new();
    v.push(0x60);
    v.push(0);
    v.push((id / 256) as u8);
    v.push((id % 256) as u8);
    v.push(0);
    v.push(8);
    v.push(58);
    v.push(ttl);
    let mut i: usize = 0;
    while i < 16
        invariant
            0 <= i <= 16,
            v@.len() == 8 + i,
            v@.subrange(0, 8) == encode_v6_spec(dst, ttl, id, seq).subrange(0, 8),
            forall|k: int| 8 <= k < v@.len() ==> v@[k] == 0u8,
        decreases 16 - i,
    {
        v.push(0);
        proof {
            assert(v@.subrange(0, 8) =~= v@.drop_last().subrange(0, 8));
        }
        i += 1;
    }
    let mut p: u128 = 0x1000000000000000000000000000000;
    proof {
        assert(pow256(15) == 0x1000000000000000000000000000000) by {
            reveal_with_fuel(pow256, 16);
        }
    }
    i = 0;
    while i < 16
        invariant
            0 <= i <= 16,
            v@.len() == 24 + i,
            v@.subrange(0, 8) == encode_v6_spec(dst, ttl, id, seq).subrange(0, 8),
            forall|k: int| 8 <= k < 24 ==> v@[k] == 0u8,
            forall|k: int| 24 <= k < v@.len() ==> v@[k] == u128_byte(dst, k - 24),
            i < 16 ==> p == pow256((15 - i) as nat),
        decreases 16 - i,
    {
        proof {
            lemma_pow256_pos((15 - i) as nat);
        }
        let b = ((dst / p) % 256) as u8;
        v.push(b);
        proof {
            assert(v@.subrange(0, 8) =~= v@.drop_last().subrange(0, 8));
            assert(b == u128_byte(dst, i as int));
        }
        if i < 15 {
            p = p / 256;
            proof {
                assert(pow256((15 - i) as nat) == 256 * pow256((14 - i) as nat));
                assert(p == pow256((14 - i) as nat));
            }
        }
        i += 1;
    }
    let ghost w = v@;
    v.push(128);
    v.push(0);
    v.push(0);
    v.push(0);
    v.push((id / 256) as u8);
    v.push((id % 256) as u8);
    v.push((seq / 256) as u8);
    v.push((seq % 256) as u8);
    proof {
        let e = encode_v6_spec(dst, ttl, id, seq);
        assert(e.len() == 48);
        assert(v@.len() == 48);
        assert forall|k: int| 0 <= k < 48 implies v@[k] == e[k] by {
            if k < 40 {
                assert(v@[k] == w[k]);
                if k < 8 {
                    assert(w[k] == w.subrange(0, 8)[k]);
                    assert(e[k] == e.subrange(0, 8)[k]);
                } else if k < 24 {
                    assert(e[k] == Seq::new(16, |i: int| 0u8)[k - 8]);
                } else {
                    assert(e[k] == Seq::new(16, |i: int| u128_byte(dst, i))[k - 24]);
                }
            } else {
                assert(e[k] == seq![
                    128u8,
                    0u8,
                    0u8,
                    0u8,
                    (id / 256) as u8,
                    (id % 256) as u8,
                    (seq / 256) as u8,
                    (seq % 256) as u8,
                ][k - 40]);
            }
        }
        assert(v@ =~= e);
    }
    v
}

proof fn lemma_u16_bytes_round_trip(x: u16)
    ensures
        be16((x / 256) as u8, (x % 256) as u8) == x,
{
    lemma_fundamental_div_mod(x as int, 256);
}

proof fn lemma_u32_bytes_round_trip(x: u32)
    ensures
        be32(
            (x / 16777216) as u8,
            ((x / 65536) % 256) as u8,
            ((x / 256) % 256) as u8,
            (x % 256) as u8,
        ) == x,
{
    lemma_fundamental_div_mod(x as int, 256);
    lemma_fundamental_div_mod(x as int / 256, 256);
    lemma_fundamental_div_mod(x as int / 65536, 256);
    lemma_div_denominator(x as int, 256, 256);
    lemma_div_denominator(x as int, 65536, 256);
}

proof fn lemma_u128_bytes_round_trip(x: u128)
    ensures
        be_val(Seq::new(16, |i: int| u128_byte(x, i))) == x,
{
    let bytes = Seq::new(16, |i: int| u128_byte(x, i));
    assert forall|k: int| 0 <= k <= 16 implies be_val(bytes.take(k)) == x as int / pow256(
        (16 - k) as nat,
    ) by {
        lemma_u128_take_round_trip(x, k);
    }
    assert(bytes.take(16) =~= bytes);
    assert(pow256(0) == 1);
    assert(x as int / 1 == x as int);
}

proof fn lemma_u128_take_round_trip(x: u128, k: int)
    requires
        0 <= k <= 16,
    ensures
        be_val(Seq::new(16, |i: int| u128_byte(x, i)).take(k)) == x as int / pow256(
            (16 - k) as nat,
        ),
    decreases k,
{
    let bytes = Seq::new(16, |i: int| u128_byte(x, i));
    if k == 0 {
        assert(bytes.take(0) =~= Seq::<u8>::empty());
        assert(pow256(16) == 0x100000000000000000000000000000000) by {
                reveal_with_fuel(pow256, 17);
            }
        assert(x as int / pow256(16) == 0) by {
            lemma_pow256_pos(16);
            assert((x as int) < pow256(16));
            vstd::arithmetic::div_mod::lemma_basic_div(x as int, pow256(16));
        }
    } else {
        lemma_u128_take_round_trip(x, k - 1);
        let q = x as int / pow256((16 - k) as nat);
        assert(bytes.take(k).drop_last() =~= bytes.take(k - 1));
        assert(bytes.take(k).last() == bytes[k - 1]);
        assert(bytes[k - 1] == u128_byte(x, k - 1));
        assert(pow256((17 - k) as nat) == 256 * pow256((16 - k) as nat));
        lemma_pow256_pos((16 - k) as nat);
        lemma_div_denominator(x as int, pow256((16 - k) as nat), 256);
        assert(x as int / pow256((17 - k) as nat) == q / 256) by {
            assert(pow256((16 - k) as nat) * 256 == pow256((17 - k) as nat)) by (nonlinear_arith)
                requires
                    pow256((17 - k) as nat) == 256 * pow256((16 - k) as nat),
            ;
        }
        assert(u128_byte(x, k - 1) == q % 256) by {
            assert((15 - (k - 1)) as nat == (16 - k) as nat);
            assert(0 <= q % 256 < 256);
        }
        lemma_fundamental_div_mod(q, 256);
        assert(be_val(bytes.take(k)) == (q / 256) * 256 + q % 256);
    }
}

/// Round trip for IPv4 probes: parsing an encoded probe recovers the
/// destination, the identifier and the TTL exactly.
pub proof fn lemma_v4_round_trip(dst: u32, ttl: u8, id: u16, seq: u16)
    ensures
        parse_echo_request_spec(encode_v4_spec(dst, ttl, id, seq)) == Some(
            EchoRequestFields { dst: IpAddress::V4(dst), ttl, id: PacketId(id) },
        ),
{
    let p = encode_v4_spec(dst, ttl, id, seq);
    assert(p[0] == 0x45u8);
    assert(p[0] / 16 == 4);
    assert((p[0] % 16) as int == 5);
    assert(p.len() == 28);
    assert(p[9] == 1u8);
    assert(p[20] == 8u8);
    lemma_u16_bytes_round_trip(id);
    lemma_u32_bytes_round_trip(dst);
    assert(be16(p[24], p[25]) == id);
    assert(be32(p[16], p[17], p[18], p[19]) == dst);
}

/// Round trip for IPv6 probes: parsing an encoded probe recovers the
/// destination, the identifier and the hop limit exactly.
pub proof fn lemma_v6_round_trip(dst: u128, ttl: u8, id: u16, seq: u16)
    ensures
        parse_echo_request_spec(encode_v6_spec(dst, ttl, id, seq)) == Some(
            EchoRequestFields { dst: IpAddress::V6(dst), ttl, id: PacketId(id) },
        ),
{
    let p = encode_v6_spec(dst, ttl, id, seq);
    assert(p.len() == 48);
    assert(p[0] == 0x60u8);
    assert(p[0] / 16 == 6);
    assert(p[6] == 58u8);
    assert(p[40] == 128u8);
    assert(p[7] == ttl);
    lemma_u16_bytes_round_trip(id);
    assert(be16(p[44], p[45]) == id);
    lemma_u128_bytes_round_trip(dst);
    assert(p.subrange(24, 40) =~= Seq::new(16, |i: int| u128_byte(dst, i)));
    assert(be_val(p.subrange(24, 40)) == dst);
}

} // verus!
