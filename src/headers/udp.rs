use vstd::prelude::*;

use super::{pseudo_checksum, pseudo_sum, transport_checksum, Header, PseudoHeader, TransportHeader};
use crate::helpers::{with_word, be16, word, AsBeBytes, ParseError};
use crate::protocol::Protocol;

verus! {

/// A connectionless transport (UDP) header.
pub struct UdpHeader {
    pub src_port: u16,
    pub dst_port: u16,
    /// The length of the header and its data.
    pub length: u16,
    /// The checksum as read from the wire; encoding computes it afresh.
    pub checksum: u16,
    pub pseudo_header: Option<PseudoHeader>,
}

/// The header bytes with a zero checksum field.
pub open spec fn udp_unsummed(h: UdpHeader) -> Seq<u8> {
    be16(h.src_port as int) + be16(h.dst_port as int) + be16(h.length as int) + seq![0u8, 0u8]
}

/// The header bytes with the checksum (word 3) over the header and a
/// pseudo-header that sums to `psum`.
pub open spec fn udp_bytes(h: UdpHeader, psum: nat) -> Seq<u8> {
    with_word(udp_unsummed(h), 6, transport_checksum(udp_unsummed(h), 3, psum))
}

impl UdpHeader {
    /// A header of length 8 (no data yet) with no pseudo-header.
    pub fn new(src_port: u16, dst_port: u16) -> (r: Self)
        ensures
            r.src_port == src_port,
            r.dst_port == dst_port,
            r.length == 8,
            r.checksum == 0,
            r.pseudo_header is None,
    {
        UdpHeader { src_port, dst_port, length: 8, checksum: 0, pseudo_header: None }
    }

    /// Sets the pseudo-header from the IP addresses and the length of the
    /// data that goes with the header, and the length field to match; the
    /// data and this 8-byte header must fit a 16-bit length.
    pub fn set_pseudo_header(&mut self, src_ip: [u8; 4], dst_ip: [u8; 4], data_len: u16)
        requires
            data_len + 8 <= 0xffff,
        ensures
            *final(self) == (UdpHeader {
                length: (data_len + 8) as u16,
                pseudo_header: Some(PseudoHeader { src_ip, dst_ip, protocol: 17, data_len: (data_len + 8) as u16 }),
                ..*old(self)
            }),
    {
        self.length = data_len + 8;
        self.pseudo_header = Some(PseudoHeader { src_ip, dst_ip, protocol: 17, data_len: data_len + 8 });
    }

    pub fn get_src_port(&self) -> (r: &u16)
        ensures
            *r == self.src_port,
    {
        &self.src_port
    }

    pub fn set_src_port(&mut self, port: u16)
        ensures
            *final(self) == (UdpHeader { src_port: port, ..*old(self) }),
    {
        self.src_port = port;
    }

    pub fn get_dst_port(&self) -> (r: &u16)
        ensures
            *r == self.dst_port,
    {
        &self.dst_port
    }

    pub fn set_dst_port(&mut self, port: u16)
        ensures
            *final(self) == (UdpHeader { dst_port: port, ..*old(self) }),
    {
        self.dst_port = port;
    }

    pub fn get_length(&self) -> (r: &u16)
        ensures
            *r == self.length,
    {
        &self.length
    }

    pub fn get_checksum(&self) -> (r: &u16)
        ensures
            *r == self.checksum,
    {
        &self.checksum
    }
}

impl Header for UdpHeader {
    open spec fn proto() -> Protocol {
        Protocol::UDP
    }

    /// The pseudo-header has been set.
    open spec fn ready(&self) -> bool {
        self.pseudo_header is Some
    }

    open spec fn encoding(&self) -> Seq<u8> {
        match self.pseudo_header {
            Some(ph) => udp_bytes(*self, pseudo_sum(ph.src_ip@, ph.dst_ip@, ph.protocol as int, ph.data_len as int)),
            None => udp_unsummed(*self),
        }
    }

    open spec fn decodes(&self, raw: Seq<u8>) -> bool {
        &&& self.src_port as nat == word(raw[0], raw[1])
        &&& self.dst_port as nat == word(raw[2], raw[3])
        &&& self.length as nat == word(raw[4], raw[5])
        &&& self.checksum as nat == word(raw[6], raw[7])
        &&& self.pseudo_header is None
    }

    open spec fn is_transport() -> bool {
        true
    }

    open spec fn pseudo_len_ok(data_len: int) -> bool {
        data_len + 8 <= 0xffff
    }

    open spec fn encoding_with_pseudo(&self, src: Seq<u8>, dst: Seq<u8>, data_len: int) -> Seq<u8> {
        udp_bytes(UdpHeader { length: (data_len + 8) as u16, ..*self }, pseudo_sum(src, dst, 17, data_len + 8))
    }

    fn make(self) -> (r: Vec<u8>) {
        let src_p = self.src_port.split_to_bytes();
        let dst_p = self.dst_port.split_to_bytes();
        let length_bytes = self.length.split_to_bytes();
        let mut packet = vec![src_p[0], src_p[1], dst_p[0], dst_p[1], length_bytes[0], length_bytes[1], 0, 0];
        assert(packet@ =~= udp_unsummed(self));
        let ph = self.pseudo_header.unwrap();
        let cs = pseudo_checksum(packet.as_slice(), 3, &ph).split_to_bytes();
        packet.set(6, cs[0]);
        packet.set(7, cs[1]);
        assert(packet@ =~= self.encoding());
        packet
    }

    fn parse(raw_data: &[u8]) -> (r: Result<Self, ParseError>) {
        if raw_data.len() < 8 {
            return Err(ParseError::InvalidLength);
        }
        Ok(UdpHeader {
            src_port: raw_data[0] as u16 * 256 + raw_data[1] as u16,
            dst_port: raw_data[2] as u16 * 256 + raw_data[3] as u16,
            length: raw_data[4] as u16 * 256 + raw_data[5] as u16,
            checksum: raw_data[6] as u16 * 256 + raw_data[7] as u16,
            pseudo_header: None,
        })
    }

    fn get_proto(&self) -> (r: Protocol) {
        Protocol::UDP
    }

    fn get_proto_of() -> (r: Protocol) {
        Protocol::UDP
    }

    fn get_length(&self) -> (r: u8) {
        8
    }

    fn is_transport_header() -> (r: bool) {
        true
    }

    fn get_min_length() -> (r: u8) {
        8
    }

    fn apply_pseudo_header(&mut self, src_ip: [u8; 4], dst_ip: [u8; 4], data_len: u16) {
        self.set_pseudo_header(src_ip, dst_ip, data_len);
    }
}

impl TransportHeader for UdpHeader {
    fn set_pseudo_header(&mut self, src_ip: [u8; 4], dst_ip: [u8; 4], data_len: u16) {
        UdpHeader::set_pseudo_header(self, src_ip, dst_ip, data_len);
    }
}

/// Decoding an encoded UDP header gives back its ports and length; the
/// checksum read back is the one encoding computed.
pub proof fn lemma_udp_round_trip(h: UdpHeader, d: UdpHeader)
    requires
        d.decodes(h.encoding()),
    ensures
        d.src_port == h.src_port,
        d.dst_port == h.dst_port,
        d.length == h.length,
        h.pseudo_header is Some ==> d.checksum as nat == transport_checksum(
            udp_unsummed(h),
            3,
            pseudo_sum(
                h.pseudo_header->Some_0.src_ip@,
                h.pseudo_header->Some_0.dst_ip@,
                h.pseudo_header->Some_0.protocol as int,
                h.pseudo_header->Some_0.data_len as int,
            ),
        ),
{
}

} // verus!
