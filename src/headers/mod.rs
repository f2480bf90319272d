//! One encoder and decoder per protocol header.

use vstd::prelude::*;

use crate::helpers::{complement_of, fold16, fold_be_words, be_words_sum, finalize_checksum, word, ParseError};
use crate::protocol::Protocol;

mod arp;
mod ethernet;
mod icmp;
mod ip;
mod tcp;
mod udp;

pub use arp::{lemma_arp_round_trip, ArpHeader, REPLY, REQUEST};
pub use ethernet::{lemma_ethernet_round_trip, EthernetHeader};
pub use icmp::{icmp_unsummed, lemma_icmp_checksum_verifies, lemma_icmp_round_trip, IcmpHeader};
pub use ip::{
    ipv4_unsummed, ipv6_bytes, lemma_ip_round_trip, lemma_ipv4_checksum_verifies, same_family, v4_octets,
    v6_octets, IpAddr, IpHeader,
};
pub use tcp::{flag_bit, lemma_tcp_round_trip, tcp_bytes, tcp_unsummed, TcpFlags, TcpHeader};
pub use udp::{lemma_udp_round_trip, udp_bytes, udp_unsummed, UdpHeader};

verus! {

/// The behaviour shared by all protocol headers: encoding into bytes, decoding
/// from bytes, and the protocol they belong to.
pub trait Header: Sized {
    /// The protocol of this type of header.
    spec fn proto() -> Protocol;

    /// Whether the header can be encoded as it stands.
    spec fn ready(&self) -> bool;

    /// The bytes that encoding the header gives.
    spec fn encoding(&self) -> Seq<u8>;

    /// Whether the header is what decoding `raw` gives.
    spec fn decodes(&self, raw: Seq<u8>) -> bool;

    /// Whether the header's checksum takes a pseudo-header.
    spec fn is_transport() -> bool;

    /// Whether a pseudo-header may carry the total data length `data_len`.
    spec fn pseudo_len_ok(data_len: int) -> bool;

    /// The bytes that encoding gives once a pseudo-header with these
    /// addresses and total data length has been set.
    spec fn encoding_with_pseudo(&self, src: Seq<u8>, dst: Seq<u8>, data_len: int) -> Seq<u8>;

    /// Encodes the header, computing its checksum where it has one.
    fn make(self) -> (r: Vec<u8>)
        requires
            self.ready(),
        ensures
            r@ == self.encoding(),
    ;

    /// Decodes a header from the start of `raw_data`.
    fn parse(raw_data: &[u8]) -> (r: Result<Self, ParseError>)
        ensures
            match r {
                Ok(h) => raw_data@.len() >= Self::proto().min_len() && h.decodes(raw_data@),
                Err(e) => raw_data@.len() < Self::proto().min_len() && e == ParseError::InvalidLength,
            },
    ;

    /// Returns the protocol of the header.
    fn get_proto(&self) -> (r: Protocol)
        ensures
            r == Self::proto(),
    ;

    /// Returns the protocol of this type of header.
    fn get_proto_of() -> (r: Protocol)
        ensures
            r == Self::proto(),
    ;

    /// Returns the number of bytes that encoding the header gives.
    fn get_length(&self) -> (r: u8)
        ensures
            self.ready() ==> r as int == self.encoding().len(),
            r as nat >= Self::proto().min_len(),
    ;

    /// Returns whether the header's checksum takes a pseudo-header.
    fn is_transport_header() -> (r: bool)
        ensures
            r == Self::is_transport(),
    ;

    /// Returns the minimum length in bytes of this type of header.
    fn get_min_length() -> (r: u8)
        ensures
            r as nat == Self::proto().min_len(),
    ;

    /// Hands a transport header the pseudo-header its checksum needs; other
    /// headers are left as they are.
    fn apply_pseudo_header(&mut self, src_ip: [u8; 4], dst_ip: [u8; 4], data_len: u16)
        requires
            Self::is_transport() ==> Self::pseudo_len_ok(data_len as int),
        ensures
            Self::is_transport() ==> final(self).ready() && final(self).encoding()
                == old(self).encoding_with_pseudo(src_ip@, dst_ip@, data_len as int),
            !Self::is_transport() ==> *final(self) == *old(self),
    ;
}

/// A header whose checksum covers a pseudo-header taken from the network
/// layer.
pub trait TransportHeader: Header {
    /// Sets the pseudo-header used when calculating the checksum. It must be
    /// set before the header is encoded; adding the header to a `Packet` that
    /// already holds an IP header sets it from that header.
    fn set_pseudo_header(&mut self, src_ip: [u8; 4], dst_ip: [u8; 4], data_len: u16)
        requires
            Self::pseudo_len_ok(data_len as int),
        ensures
            final(self).ready(),
            final(self).encoding() == old(self).encoding_with_pseudo(src_ip@, dst_ip@, data_len as int),
    ;
}

/// The data that a transport checksum borrows from the network layer.
#[derive(Clone, Copy, Debug)]
pub struct PseudoHeader {
    pub src_ip: [u8; 4],
    pub dst_ip: [u8; 4],
    pub protocol: u8,
    pub data_len: u16,
}

/// The sum of two IPv4 addresses' words, a protocol number and a length.
pub open spec fn pseudo_sum(src: Seq<u8>, dst: Seq<u8>, protocol: int, data_len: int) -> nat {
    (word(src[0], src[1]) + word(src[2], src[3]) + word(dst[0], dst[1]) + word(dst[2], dst[3])
        + protocol + data_len) as nat
}

/// The checksum of a transport header: the ones complement of its words
/// (leaving out the checksum word `skip`) plus the pseudo-header sum.
pub open spec fn transport_checksum(header: Seq<u8>, skip: int, psum: nat) -> nat {
    complement_of(psum + be_words_sum(header, skip))
}

/// The sum of an IPv4 address's two words.
fn ip_sum(octets: [u8; 4]) -> (r: u32)
    ensures
        r as nat == word(octets[0], octets[1]) + word(octets[2], octets[3]),
{
    (octets[0] as u32 * 256 + octets[1] as u32) + (octets[2] as u32 * 256 + octets[3] as u32)
}

/// Calculates the checksum of a transport header from its bytes (the word at
/// `skip` being its checksum field) and its pseudo-header.
pub(crate) fn pseudo_checksum(header: &[u8], skip: usize, ph: &PseudoHeader) -> (r: u16)
    ensures
        r as nat == transport_checksum(
            header@,
            skip as int,
            pseudo_sum(ph.src_ip@, ph.dst_ip@, ph.protocol as int, ph.data_len as int),
        ),
{
    let val = ip_sum(ph.src_ip) + ip_sum(ph.dst_ip) + ph.protocol as u32 + ph.data_len as u32;
    let start = fold16(val);
    let acc = fold_be_words(header, skip, start);
    proof {
        crate::helpers::lemma_ones_fold_add(val as nat, be_words_sum(header@, skip as int));
        crate::helpers::lemma_ones_fold_range(acc as nat);
    }
    finalize_checksum(acc)
}

} // verus!
