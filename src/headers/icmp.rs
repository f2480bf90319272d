use vstd::prelude::*;

use super::Header;
use crate::helpers::{be16, checksum, internet_checksum, lemma_checksum_law, with_word, word, AsBeBytes, ParseError};
use crate::protocol::Protocol;

verus! {

/// An echo-style control message (ICMP) header.
pub struct IcmpHeader {
    pub msg_type: u8,
    pub code: u8,
    pub identifier: u16,
    pub sequence_number: u16,
}

/// The header bytes with a zero checksum field. The sequence number goes low
/// byte first: some hosts only answer it that way.
pub open spec fn icmp_unsummed(h: IcmpHeader) -> Seq<u8> {
    seq![h.msg_type, h.code, 0u8, 0u8] + be16(h.identifier as int) + seq![
        (h.sequence_number % 256) as u8,
        (h.sequence_number / 256) as u8,
    ]
}

impl IcmpHeader {
    pub fn new(msg_type: u8, code: u8, identifier: u16, sequence_number: u16) -> (r: Self)
        ensures
            r == (IcmpHeader { msg_type, code, identifier, sequence_number }),
    {
        IcmpHeader { msg_type, code, identifier, sequence_number }
    }
}

impl Header for IcmpHeader {
    open spec fn proto() -> Protocol {
        Protocol::ICMP
    }

    open spec fn ready(&self) -> bool {
        true
    }

    /// The checksum (word 1) covers the header alone here; a packet covers
    /// its payload too when it is finalized.
    open spec fn encoding(&self) -> Seq<u8> {
        with_word(icmp_unsummed(*self), 2, internet_checksum(icmp_unsummed(*self), 1))
    }

    /// The sequence number is read low byte first, as it is written.
    open spec fn decodes(&self, raw: Seq<u8>) -> bool {
        &&& self.msg_type == raw[0]
        &&& self.code == raw[1]
        &&& self.identifier as nat == word(raw[4], raw[5])
        &&& self.sequence_number as nat == word(raw[7], raw[6])
    }

    open spec fn is_transport() -> bool {
        false
    }

    open spec fn pseudo_len_ok(data_len: int) -> bool {
        true
    }

    open spec fn encoding_with_pseudo(&self, src: Seq<u8>, dst: Seq<u8>, data_len: int) -> Seq<u8> {
        self.encoding()
    }

    fn make(self) -> (r: Vec<u8>) {
        let ident_bytes = self.identifier.split_to_bytes();
        let sn_bytes = self.sequence_number.split_to_bytes();
        let mut packet = vec![self.msg_type, self.code, 0, 0, ident_bytes[0], ident_bytes[1], sn_bytes[1], sn_bytes[0]];
        assert(packet@ =~= icmp_unsummed(self));
        let cs = checksum(packet.as_slice(), 1).split_to_bytes();
        packet.set(2, cs[0]);
        packet.set(3, cs[1]);
        assert(packet@ =~= self.encoding());
        packet
    }

    fn parse(raw_data: &[u8]) -> (r: Result<Self, ParseError>) {
        if raw_data.len() < 8 {
            return Err(ParseError::InvalidLength);
        }
        Ok(IcmpHeader {
            msg_type: raw_data[0],
            code: raw_data[1],
            identifier: raw_data[4] as u16 * 256 + raw_data[5] as u16,
            sequence_number: raw_data[7] as u16 * 256 + raw_data[6] as u16,
        })
    }

    fn get_proto(&self) -> (r: Protocol) {
        Protocol::ICMP
    }

    fn get_proto_of() -> (r: Protocol) {
        Protocol::ICMP
    }

    fn get_length(&self) -> (r: u8) {
        8
    }

    fn is_transport_header() -> (r: bool) {
        false
    }

    fn get_min_length() -> (r: u8) {
        8
    }

    fn apply_pseudo_header(&mut self, src_ip: [u8; 4], dst_ip: [u8; 4], data_len: u16) {
    }
}

/// Decoding an encoded control message header gives back every field.
pub proof fn lemma_icmp_round_trip(h: IcmpHeader, d: IcmpHeader)
    requires
        d.decodes(h.encoding()),
    ensures
        d == h,
{
}

/// An encoded control message header checksums to zero with nothing left
/// out: its checksum field completes the sum.
pub proof fn lemma_icmp_checksum_verifies(h: IcmpHeader)
    ensures
        internet_checksum(h.encoding(), 0) == 0,
{
    lemma_checksum_law(icmp_unsummed(h), 1);
}

} // verus!
