use vstd::prelude::*;

use super::Header;
use crate::helpers::{be16, word, AsBeBytes, ParseError};
use crate::protocol::Protocol;

verus! {

/// A link-layer (Ethernet II) frame header.
pub struct EthernetHeader {
    pub dst_mac: [u8; 6],
    pub src_mac: [u8; 6],
    pub eth_type: u16,
}

impl EthernetHeader {
    pub fn new(src_mac: [u8; 6], dst_mac: [u8; 6], ty: u16) -> (r: Self)
        ensures
            r.src_mac == src_mac,
            r.dst_mac == dst_mac,
            r.eth_type == ty,
    {
        EthernetHeader { dst_mac, src_mac, eth_type: ty }
    }

    pub fn get_dst_mac(&self) -> (r: &[u8; 6])
        ensures
            *r == self.dst_mac,
    {
        &self.dst_mac
    }

    pub fn get_src_mac(&self) -> (r: &[u8; 6])
        ensures
            *r == self.src_mac,
    {
        &self.src_mac
    }

    pub fn get_eth_type(&self) -> (r: &u16)
        ensures
            *r == self.eth_type,
    {
        &self.eth_type
    }

    pub fn set_eth_type(&mut self, ty: u16)
        ensures
            *final(self) == (EthernetHeader { eth_type: ty, ..*old(self) }),
    {
        self.eth_type = ty;
    }
}

impl Header for EthernetHeader {
    open spec fn proto() -> Protocol {
        Protocol::ETH
    }

    open spec fn ready(&self) -> bool {
        true
    }

    /// Destination address, source address, frame type.
    open spec fn encoding(&self) -> Seq<u8> {
        self.dst_mac@ + self.src_mac@ + be16(self.eth_type as int)
    }

    open spec fn decodes(&self, raw: Seq<u8>) -> bool {
        &&& self.dst_mac@ == raw.subrange(0, 6)
        &&& self.src_mac@ == raw.subrange(6, 12)
        &&& self.eth_type as nat == word(raw[12], raw[13])
    }

    open spec fn is_transport() -> bool {
        false
    }

    open spec fn pseudo_len_ok(data_len: int) -> bool {
        true
    }

    open spec fn encoding_with_pseudo(&self, src: Seq<u8>, dst: Seq<u8>, data_len: int) -> Seq<u8> {
        self.encoding()
    }

    fn make(self) -> (r: Vec<u8>) {
        let tyb = self.eth_type.split_to_bytes();
        let d = self.dst_mac;
        let s = self.src_mac;
        let r = vec![d[0], d[1], d[2], d[3], d[4], d[5], s[0], s[1], s[2], s[3], s[4], s[5], tyb[0], tyb[1]];
        assert(r@ =~= self.encoding());
        r
    }

    fn parse(raw_data: &[u8]) -> (r: Result<Self, ParseError>) {
        if raw_data.len() < 14 {
            return Err(ParseError::InvalidLength);
        }
        let h = EthernetHeader {
            dst_mac: [raw_data[0], raw_data[1], raw_data[2], raw_data[3], raw_data[4], raw_data[5]],
            src_mac: [raw_data[6], raw_data[7], raw_data[8], raw_data[9], raw_data[10], raw_data[11]],
            eth_type: raw_data[12] as u16 * 256 + raw_data[13] as u16,
        };
        assert(h.dst_mac@ =~= raw_data@.subrange(0, 6));
        assert(h.src_mac@ =~= raw_data@.subrange(6, 12));
        Ok(h)
    }

    fn get_proto(&self) -> (r: Protocol) {
        Protocol::ETH
    }

    fn get_proto_of() -> (r: Protocol) {
        Protocol::ETH
    }

    fn get_length(&self) -> (r: u8) {
        14
    }

    fn is_transport_header() -> (r: bool) {
        false
    }

    fn get_min_length() -> (r: u8) {
        14
    }

    fn apply_pseudo_header(&mut self, src_ip: [u8; 4], dst_ip: [u8; 4], data_len: u16) {
    }
}

/// Decoding an encoded frame header gives back every field.
pub proof fn lemma_ethernet_round_trip(h: EthernetHeader, d: EthernetHeader)
    requires
        d.decodes(h.encoding()),
    ensures
        d.dst_mac@ == h.dst_mac@,
        d.src_mac@ == h.src_mac@,
        d.eth_type == h.eth_type,
{
    let e = h.encoding();
    assert(e.subrange(0, 6) =~= h.dst_mac@);
    assert(e.subrange(6, 12) =~= h.src_mac@);
}

} // verus!
