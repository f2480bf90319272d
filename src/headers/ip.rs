use vstd::prelude::*;

use super::Header;
use crate::helpers::{with_word, be16, checksum, internet_checksum, lemma_checksum_law, word, AsBeBytes, ParseError};
use crate::protocol::Protocol;

verus! {

/// An IP address, version 4 or version 6, as its octets.
#[derive(Clone, Copy, Debug, PartialEq, Eq)]
pub enum IpAddr {
    V4([u8; 4]),
    V6([u8; 16]),
}

/// Whether two addresses are of the same IP version.
pub open spec fn same_family(a: IpAddr, b: IpAddr) -> bool {
    (a is V4 && b is V4) || (a is V6 && b is V6)
}

/// A network-layer (IP) header.
pub struct IpHeader {
    pub tos: u8,
    pub packet_len: u16,
    pub identification: u16,
    pub ttl: u8,
    pub next_protocol: u8,
    pub src_ip: IpAddr,
    pub dst_ip: IpAddr,
}

/// The octets of an IPv4 address; none for an IPv6 one.
pub open spec fn v4_octets(a: IpAddr) -> Seq<u8> {
    match a {
        IpAddr::V4(o) => o@,
        IpAddr::V6(_) => Seq::empty(),
    }
}

/// The octets of an IPv6 address; none for an IPv4 one.
pub open spec fn v6_octets(a: IpAddr) -> Seq<u8> {
    match a {
        IpAddr::V6(o) => o@,
        IpAddr::V4(_) => Seq::empty(),
    }
}

/// The IPv4 header bytes with a zero checksum field: version 4 with a header
/// of five words, the "don't fragment" flag.
pub open spec fn ipv4_unsummed(h: IpHeader) -> Seq<u8> {
    seq![0x45u8, h.tos] + be16(h.packet_len as int) + be16(h.identification as int) + seq![
        0x40u8,
        0u8,
        h.ttl,
        h.next_protocol,
        0u8,
        0u8,
    ] + v4_octets(h.src_ip) + v4_octets(h.dst_ip)
}

/// The IPv6 header bytes (RFC 8200): version 6, traffic class and flow label
/// zero, payload length, next header, hop limit, addresses.
pub open spec fn ipv6_bytes(h: IpHeader) -> Seq<u8> {
    seq![0x60u8, 0u8, 0u8, 0u8] + be16(h.packet_len as int) + seq![h.next_protocol, h.ttl] + v6_octets(
        h.src_ip,
    ) + v6_octets(h.dst_ip)
}

impl IpHeader {
    /// A header with type of service 0, length 0, identification 0 and time
    /// to live 64. Both addresses must be of the same IP version.
    pub fn new(src_ip: IpAddr, dst_ip: IpAddr, next_proto: Protocol) -> (r: Self)
        requires
            same_family(src_ip, dst_ip),
            next_proto != Protocol::ARP,
        ensures
            r == (IpHeader {
                tos: 0,
                packet_len: 0,
                identification: 0,
                ttl: 64,
                next_protocol: next_proto.number(),
                src_ip,
                dst_ip,
            }),
    {
        IpHeader {
            tos: 0,
            packet_len: 0,
            identification: 0,
            ttl: 64,
            next_protocol: next_proto.protocol_number(),
            src_ip,
            dst_ip,
        }
    }

    /// Like `new`, but refuses addresses of different IP versions.
    pub fn try_new(src_ip: IpAddr, dst_ip: IpAddr, next_proto: Protocol) -> (r: Option<Self>)
        requires
            next_proto != Protocol::ARP,
        ensures
            same_family(src_ip, dst_ip) <==> r is Some,
            r matches Some(h) ==> h == (IpHeader {
                tos: 0,
                packet_len: 0,
                identification: 0,
                ttl: 64,
                next_protocol: next_proto.number(),
                src_ip,
                dst_ip,
            }),
    {
        match (src_ip, dst_ip) {
            (IpAddr::V4(_), IpAddr::V4(_)) | (IpAddr::V6(_), IpAddr::V6(_)) => Some(Self::new(src_ip, dst_ip, next_proto)),
            _ => None,
        }
    }

    /// Sets the protocol of the next layer, which is ICMP, TCP or UDP.
    pub fn set_next_protocol(&mut self, proto: Protocol)
        requires
            proto == Protocol::ICMP || proto == Protocol::TCP || proto == Protocol::UDP,
        ensures
            *final(self) == (IpHeader { next_protocol: proto.number(), ..*old(self) }),
    {
        self.next_protocol = proto.protocol_number();
    }

    pub fn get_next_protocol(&self) -> (r: &u8)
        ensures
            *r == self.next_protocol,
    {
        &self.next_protocol
    }

    pub fn get_src_ip(&self) -> (r: &IpAddr)
        ensures
            *r == self.src_ip,
    {
        &self.src_ip
    }

    pub fn get_dst_ip(&self) -> (r: &IpAddr)
        ensures
            *r == self.dst_ip,
    {
        &self.dst_ip
    }
}

impl Header for IpHeader {
    open spec fn proto() -> Protocol {
        Protocol::IP
    }

    /// Both addresses are of the same version.
    open spec fn ready(&self) -> bool {
        same_family(self.src_ip, self.dst_ip)
    }

    /// For IPv4 the checksum (word 5) covers the header.
    open spec fn encoding(&self) -> Seq<u8> {
        match self.src_ip {
            IpAddr::V4(_) => with_word(ipv4_unsummed(*self), 10, internet_checksum(ipv4_unsummed(*self), 5)),
            IpAddr::V6(_) => ipv6_bytes(*self),
        }
    }

    /// Decoding reads an IPv4 header.
    open spec fn decodes(&self, raw: Seq<u8>) -> bool {
        &&& self.tos == raw[1]
        &&& self.packet_len as nat == word(raw[2], raw[3])
        &&& self.identification as nat == word(raw[4], raw[5])
        &&& self.ttl == raw[8]
        &&& self.next_protocol == raw[9]
        &&& self.src_ip is V4
        &&& self.dst_ip is V4
        &&& v4_octets(self.src_ip) == raw.subrange(12, 16)
        &&& v4_octets(self.dst_ip) == raw.subrange(16, 20)
    }

    open spec fn is_transport() -> bool {
        false
    }

    open spec fn pseudo_len_ok(data_len: int) -> bool {
        true
    }

    open spec fn encoding_with_pseudo(&self, src: Seq<u8>, dst: Seq<u8>, data_len: int) -> Seq<u8> {
        self.encoding()
    }

    fn make(self) -> (r: Vec<u8>) {
        match (self.src_ip, self.dst_ip) {
            (IpAddr::V4(src), IpAddr::V4(dst)) => {
                let length_bytes = self.packet_len.split_to_bytes();
                let ident_bytes = self.identification.split_to_bytes();
                let mut packet = vec![
                    0x45, self.tos, length_bytes[0], length_bytes[1], ident_bytes[0], ident_bytes[1],
                    0x40, 0, self.ttl, self.next_protocol, 0, 0, src[0], src[1], src[2], src[3],
                    dst[0], dst[1], dst[2], dst[3],
                ];
                assert(packet@ =~= ipv4_unsummed(self));
                let cs = checksum(packet.as_slice(), 5).split_to_bytes();
                packet.set(10, cs[0]);
                packet.set(11, cs[1]);
                assert(packet@ =~= self.encoding());
                packet
            },
            (IpAddr::V6(src), IpAddr::V6(dst)) => {
                let len_bytes = self.packet_len.split_to_bytes();
                let mut packet = vec![0x60, 0, 0, 0, len_bytes[0], len_bytes[1], self.next_protocol, self.ttl];
                let mut i: usize = 0;
                while i < 16
                    invariant
                        0 <= i <= 16,
                        packet@ == seq![0x60u8, 0u8, 0u8, 0u8] + be16(self.packet_len as int) + seq![
                            self.next_protocol,
                            self.ttl,
                        ] + src@.subrange(0, i as int),
                    decreases 16 - i,
                {
                    packet.push(src[i]);
                    assert(src@.subrange(0, i + 1) =~= src@.subrange(0, i as int).push(src[i as int]));
                    i += 1;
                }
                let mut j: usize = 0;
                while j < 16
                    invariant
                        0 <= j <= 16,
                        packet@ == seq![0x60u8, 0u8, 0u8, 0u8] + be16(self.packet_len as int) + seq![
                            self.next_protocol,
                            self.ttl,
                        ] + src@ + dst@.subrange(0, j as int),
                    decreases 16 - j,
                {
                    packet.push(dst[j]);
                    assert(dst@.subrange(0, j + 1) =~= dst@.subrange(0, j as int).push(dst[j as int]));
                    j += 1;
                }
                assert(src@.subrange(0, 16) =~= src@);
                assert(dst@.subrange(0, 16) =~= dst@);
                assert(packet@ =~= self.encoding());
                packet
            },
            _ => Vec::new(),
        }
    }

    fn parse(raw_data: &[u8]) -> (r: Result<Self, ParseError>) {
        if raw_data.len() < 20 {
            return Err(ParseError::InvalidLength);
        }
        let src = [raw_data[12], raw_data[13], raw_data[14], raw_data[15]];
        let dst = [raw_data[16], raw_data[17], raw_data[18], raw_data[19]];
        assert(src@ =~= raw_data@.subrange(12, 16));
        assert(dst@ =~= raw_data@.subrange(16, 20));
        Ok(IpHeader {
            tos: raw_data[1],
            packet_len: raw_data[2] as u16 * 256 + raw_data[3] as u16,
            identification: raw_data[4] as u16 * 256 + raw_data[5] as u16,
            ttl: raw_data[8],
            next_protocol: raw_data[9],
            src_ip: IpAddr::V4(src),
            dst_ip: IpAddr::V4(dst),
        })
    }

    fn get_proto(&self) -> (r: Protocol) {
        Protocol::IP
    }

    fn get_proto_of() -> (r: Protocol) {
        Protocol::IP
    }

    fn get_length(&self) -> (r: u8) {
        match self.src_ip {
            IpAddr::V4(_) => 20,
            IpAddr::V6(_) => 40,
        }
    }

    fn is_transport_header() -> (r: bool) {
        false
    }

    fn get_min_length() -> (r: u8) {
        20
    }

    fn apply_pseudo_header(&mut self, src_ip: [u8; 4], dst_ip: [u8; 4], data_len: u16) {
    }
}

/// Decoding an encoded IPv4 header gives back every field.
pub proof fn lemma_ip_round_trip(h: IpHeader, d: IpHeader)
    requires
        h.src_ip is V4,
        h.dst_ip is V4,
        d.decodes(h.encoding()),
    ensures
        d == h,
{
    let e = h.encoding();
    assert(e.subrange(12, 16) =~= v4_octets(h.src_ip));
    assert(e.subrange(16, 20) =~= v4_octets(h.dst_ip));
    if let (IpAddr::V4(a), IpAddr::V4(b)) = (d.src_ip, h.src_ip) {
        assert(a =~= b);
    }
    if let (IpAddr::V4(c), IpAddr::V4(f)) = (d.dst_ip, h.dst_ip) {
        assert(c =~= f);
    }
}

/// An encoded IPv4 header checksums to zero with nothing left out: its
/// checksum field completes the sum.
pub proof fn lemma_ipv4_checksum_verifies(h: IpHeader)
    requires
        h.src_ip is V4,
        h.dst_ip is V4,
    ensures
        internet_checksum(h.encoding(), 0) == 0,
{
    lemma_checksum_law(ipv4_unsummed(h), 5);
}

} // verus!
