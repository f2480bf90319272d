use vstd::prelude::*;

use super::Header;
use crate::helpers::{be16, word, AsBeBytes, ParseError};
use crate::protocol::Protocol;

verus! {

/// The ARP opcode of a request.
pub const REQUEST: u16 = 1;

/// The ARP opcode of a reply.
pub const REPLY: u16 = 2;

/// An address resolution (ARP) request or reply for Ethernet and IPv4.
pub struct ArpHeader {
    pub hardware_type: u16,
    pub protocol_type: u16,
    pub hardware_size: u8,
    pub protocol_size: u8,
    pub opcode: u16,
    pub sender_mac: [u8; 6],
    pub sender_ip: [u8; 4],
    pub destination_mac: [u8; 6],
    pub destination_ip: [u8; 4],
}

impl ArpHeader {
    /// A request over Ethernet (hardware type 1) for IPv4 (protocol type
    /// 0x0800).
    pub fn new(sender_mac: [u8; 6], sender_ip: [u8; 4], destination_mac: [u8; 6], destination_ip: [u8; 4]) -> (r: Self)
        ensures
            r.hardware_type == 1,
            r.protocol_type == 0x0800,
            r.hardware_size == 6,
            r.protocol_size == 4,
            r.opcode == REQUEST,
            r.sender_mac == sender_mac,
            r.sender_ip == sender_ip,
            r.destination_mac == destination_mac,
            r.destination_ip == destination_ip,
    {
        ArpHeader {
            hardware_type: 1,
            protocol_type: 0x0800,
            hardware_size: 6,
            protocol_size: 4,
            opcode: REQUEST,
            sender_mac,
            sender_ip,
            destination_mac,
            destination_ip,
        }
    }

    pub fn get_opcode(&self) -> (r: &u16)
        ensures
            *r == self.opcode,
    {
        &self.opcode
    }

    pub fn set_opcode(&mut self, opcode: u16)
        ensures
            *final(self) == (ArpHeader { opcode, ..*old(self) }),
    {
        self.opcode = opcode;
    }
}

impl Header for ArpHeader {
    open spec fn proto() -> Protocol {
        Protocol::ARP
    }

    open spec fn ready(&self) -> bool {
        true
    }

    open spec fn encoding(&self) -> Seq<u8> {
        be16(self.hardware_type as int) + be16(self.protocol_type as int) + seq![
            self.hardware_size,
            self.protocol_size,
        ] + be16(self.opcode as int) + self.sender_mac@ + self.sender_ip@ + self.destination_mac@
            + self.destination_ip@
    }

    open spec fn decodes(&self, raw: Seq<u8>) -> bool {
        &&& self.hardware_type as nat == word(raw[0], raw[1])
        &&& self.protocol_type as nat == word(raw[2], raw[3])
        &&& self.hardware_size == raw[4]
        &&& self.protocol_size == raw[5]
        &&& self.opcode as nat == word(raw[6], raw[7])
        &&& self.sender_mac@ == raw.subrange(8, 14)
        &&& self.sender_ip@ == raw.subrange(14, 18)
        &&& self.destination_mac@ == raw.subrange(18, 24)
        &&& self.destination_ip@ == raw.subrange(24, 28)
    }

    open spec fn is_transport() -> bool {
        false
    }

    open spec fn pseudo_len_ok(data_len: int) -> bool {
        true
    }

    open spec fn encoding_with_pseudo(&self, src: Seq<u8>, dst: Seq<u8>, data_len: int) -> Seq<u8> {
        self.encoding()
    }

    fn make(self) -> (r: Vec<u8>) {
        let hwt_b = self.hardware_type.split_to_bytes();
        let p_b = self.protocol_type.split_to_bytes();
        let opcode_b = self.opcode.split_to_bytes();
        let sm = self.sender_mac;
        let si = self.sender_ip;
        let dm = self.destination_mac;
        let di = self.destination_ip;
        let r = vec![
            hwt_b[0], hwt_b[1], p_b[0], p_b[1], self.hardware_size, self.protocol_size,
            opcode_b[0], opcode_b[1], sm[0], sm[1], sm[2], sm[3], sm[4], sm[5], si[0], si[1],
            si[2], si[3], dm[0], dm[1], dm[2], dm[3], dm[4], dm[5], di[0], di[1], di[2], di[3],
        ];
        assert(r@ =~= self.encoding());
        r
    }

    fn parse(raw_data: &[u8]) -> (r: Result<Self, ParseError>) {
        if raw_data.len() < 28 {
            return Err(ParseError::InvalidLength);
        }
        let h = ArpHeader {
            hardware_type: raw_data[0] as u16 * 256 + raw_data[1] as u16,
            protocol_type: raw_data[2] as u16 * 256 + raw_data[3] as u16,
            hardware_size: raw_data[4],
            protocol_size: raw_data[5],
            opcode: raw_data[6] as u16 * 256 + raw_data[7] as u16,
            sender_mac: [raw_data[8], raw_data[9], raw_data[10], raw_data[11], raw_data[12], raw_data[13]],
            sender_ip: [raw_data[14], raw_data[15], raw_data[16], raw_data[17]],
            destination_mac: [raw_data[18], raw_data[19], raw_data[20], raw_data[21], raw_data[22], raw_data[23]],
            destination_ip: [raw_data[24], raw_data[25], raw_data[26], raw_data[27]],
        };
        assert(h.sender_mac@ =~= raw_data@.subrange(8, 14));
        assert(h.sender_ip@ =~= raw_data@.subrange(14, 18));
        assert(h.destination_mac@ =~= raw_data@.subrange(18, 24));
        assert(h.destination_ip@ =~= raw_data@.subrange(24, 28));
        Ok(h)
    }

    fn get_proto(&self) -> (r: Protocol) {
        Protocol::ARP
    }

    /// The encoding always has the Ethernet/IPv4 layout: 28 bytes.
    fn get_proto_of() -> (r: Protocol) {
        Protocol::ARP
    }

    fn get_length(&self) -> (r: u8) {
        28
    }

    fn is_transport_header() -> (r: bool) {
        false
    }

    fn get_min_length() -> (r: u8) {
        28
    }

    fn apply_pseudo_header(&mut self, src_ip: [u8; 4], dst_ip: [u8; 4], data_len: u16) {
    }
}

/// Decoding an encoded ARP header gives back every field.
pub proof fn lemma_arp_round_trip(h: ArpHeader, d: ArpHeader)
    requires
        d.decodes(h.encoding()),
    ensures
        d.hardware_type == h.hardware_type,
        d.protocol_type == h.protocol_type,
        d.hardware_size == h.hardware_size,
        d.protocol_size == h.protocol_size,
        d.opcode == h.opcode,
        d.sender_mac@ == h.sender_mac@,
        d.sender_ip@ == h.sender_ip@,
        d.destination_mac@ == h.destination_mac@,
        d.destination_ip@ == h.destination_ip@,
{
    let e = h.encoding();
    assert(e.subrange(8, 14) =~= h.sender_mac@);
    assert(e.subrange(14, 18) =~= h.sender_ip@);
    assert(e.subrange(18, 24) =~= h.destination_mac@);
    assert(e.subrange(24, 28) =~= h.destination_ip@);
}

} // verus!
