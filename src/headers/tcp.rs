use vstd::prelude::*;

use super::{pseudo_checksum, pseudo_sum, transport_checksum, Header, PseudoHeader, TransportHeader};
use crate::helpers::{with_word, be16, word, AsBeBytes, ParseError};
use crate::protocol::Protocol;

verus! {

/// A connection-oriented transport (TCP) header. Sequence and
/// acknowledgment numbers and the urgent pointer are not tracked: they go on
/// the wire as zeros.
pub struct TcpHeader {
    pub src_port: u16,
    pub dst_port: u16,
    pub flags: u8,
    pub window: u16,
    pub pseudo_header: Option<PseudoHeader>,
}

/// The flags that can be set on a TCP header.
pub enum TcpFlags {
    Urg,
    Ack,
    Psh,
    Rst,
    Syn,
    Fin,
}

/// The bit of a flag in the flags byte.
pub open spec fn flag_bit(f: TcpFlags) -> u8 {
    match f {
        TcpFlags::Urg => 0b00100000,
        TcpFlags::Ack => 0b00010000,
        TcpFlags::Psh => 0b00001000,
        TcpFlags::Rst => 0b00000100,
        TcpFlags::Syn => 0b00000010,
        TcpFlags::Fin => 0b00000001,
    }
}

/// The header bytes with a zero checksum field.
pub open spec fn tcp_unsummed(h: TcpHeader) -> Seq<u8> {
    be16(h.src_port as int) + be16(h.dst_port as int) + seq![0u8, 0u8, 0u8, 0u8, 0u8, 0u8, 0u8, 0u8, 0u8, h.flags]
        + be16(h.window as int) + seq![0u8, 0u8, 0u8, 0u8]
}

/// The header bytes with the checksum (word 8) over the header and a
/// pseudo-header that sums to `psum`.
pub open spec fn tcp_bytes(h: TcpHeader, psum: nat) -> Seq<u8> {
    with_word(tcp_unsummed(h), 16, transport_checksum(tcp_unsummed(h), 8, psum))
}

impl TcpHeader {
    /// A header with no flags set, the largest window and no pseudo-header.
    pub fn new(src_port: u16, dst_port: u16) -> (r: Self)
        ensures
            r.src_port == src_port,
            r.dst_port == dst_port,
            r.window == 0xffff,
            r.flags == 0,
            r.pseudo_header is None,
    {
        TcpHeader { src_port, dst_port, window: 0xffff, flags: 0, pseudo_header: None }
    }

    /// Sets one flag, leaving the others as they are.
    pub fn set_flag(&mut self, f: TcpFlags)
        ensures
            *final(self) == (TcpHeader { flags: old(self).flags | flag_bit(f), ..*old(self) }),
    {
        match f {
            TcpFlags::Urg => self.flags = self.flags | 0b00100000,
            TcpFlags::Ack => self.flags = self.flags | 0b00010000,
            TcpFlags::Psh => self.flags = self.flags | 0b00001000,
            TcpFlags::Rst => self.flags = self.flags | 0b00000100,
            TcpFlags::Syn => self.flags = self.flags | 0b00000010,
            TcpFlags::Fin => self.flags = self.flags | 0b00000001,
        }
    }

    /// Sets the pseudo-header from the IP addresses and the length of the
    /// data that goes with the header; the segment (data and this 20-byte
    /// header) must fit a 16-bit length.
    pub fn set_pseudo_header(&mut self, src_ip: [u8; 4], dst_ip: [u8; 4], data_len: u16)
        requires
            data_len + 20 <= 0xffff,
        ensures
            *final(self) == (TcpHeader {
                pseudo_header: Some(PseudoHeader { src_ip, dst_ip, protocol: 6, data_len: (data_len + 20) as u16 }),
                ..*old(self)
            }),
    {
        self.pseudo_header = Some(PseudoHeader { src_ip, dst_ip, protocol: 6, data_len: data_len + 20 });
    }

    pub fn get_src_port(&self) -> (r: &u16)
        ensures
            *r == self.src_port,
    {
        &self.src_port
    }

    pub fn set_src_port(&mut self, port: u16)
        ensures
            *final(self) == (TcpHeader { src_port: port, ..*old(self) }),
    {
        self.src_port = port;
    }

    pub fn get_dst_port(&self) -> (r: &u16)
        ensures
            *r == self.dst_port,
    {
        &self.dst_port
    }

    pub fn set_dst_port(&mut self, port: u16)
        ensures
            *final(self) == (TcpHeader { dst_port: port, ..*old(self) }),
    {
        self.dst_port = port;
    }

    pub fn get_flags(&self) -> (r: &u8)
        ensures
            *r == self.flags,
    {
        &self.flags
    }

    pub fn set_window(&mut self, window: u16)
        ensures
            *final(self) == (TcpHeader { window, ..*old(self) }),
    {
        self.window = window;
    }
}

impl Header for TcpHeader {
    open spec fn proto() -> Protocol {
        Protocol::TCP
    }

    /// The pseudo-header has been set.
    open spec fn ready(&self) -> bool {
        self.pseudo_header is Some
    }

    open spec fn encoding(&self) -> Seq<u8> {
        match self.pseudo_header {
            Some(ph) => tcp_bytes(*self, pseudo_sum(ph.src_ip@, ph.dst_ip@, ph.protocol as int, ph.data_len as int)),
            None => tcp_unsummed(*self),
        }
    }

    open spec fn decodes(&self, raw: Seq<u8>) -> bool {
        &&& self.src_port as nat == word(raw[0], raw[1])
        &&& self.dst_port as nat == word(raw[2], raw[3])
        &&& self.flags == raw[13]
        &&& self.window as nat == word(raw[14], raw[15])
        &&& self.pseudo_header is None
    }

    open spec fn is_transport() -> bool {
        true
    }

    open spec fn pseudo_len_ok(data_len: int) -> bool {
        data_len + 20 <= 0xffff
    }

    open spec fn encoding_with_pseudo(&self, src: Seq<u8>, dst: Seq<u8>, data_len: int) -> Seq<u8> {
        tcp_bytes(*self, pseudo_sum(src, dst, 6, data_len + 20))
    }

    fn make(self) -> (r: Vec<u8>) {
        let src_p = self.src_port.split_to_bytes();
        let dst_p = self.dst_port.split_to_bytes();
        let window_bytes = self.window.split_to_bytes();
        let mut packet = vec![
            src_p[0], src_p[1], dst_p[0], dst_p[1], 0, 0, 0, 0, 0, 0, 0, 0, 0, self.flags,
            window_bytes[0], window_bytes[1], 0, 0, 0, 0,
        ];
        assert(packet@ =~= tcp_unsummed(self));
        let ph = self.pseudo_header.unwrap();
        let cs = pseudo_checksum(packet.as_slice(), 8, &ph).split_to_bytes();
        packet.set(16, cs[0]);
        packet.set(17, cs[1]);
        assert(packet@ =~= self.encoding());
        packet
    }

    fn parse(raw_data: &[u8]) -> (r: Result<Self, ParseError>) {
        if raw_data.len() < 20 {
            return Err(ParseError::InvalidLength);
        }
        Ok(TcpHeader {
            src_port: raw_data[0] as u16 * 256 + raw_data[1] as u16,
            dst_port: raw_data[2] as u16 * 256 + raw_data[3] as u16,
            flags: raw_data[13],
            window: raw_data[14] as u16 * 256 + raw_data[15] as u16,
            pseudo_header: None,
        })
    }

    fn get_proto(&self) -> (r: Protocol) {
        Protocol::TCP
    }

    fn get_proto_of() -> (r: Protocol) {
        Protocol::TCP
    }

    fn get_length(&self) -> (r: u8) {
        20
    }

    fn is_transport_header() -> (r: bool) {
        true
    }

    fn get_min_length() -> (r: u8) {
        20
    }

    fn apply_pseudo_header(&mut self, src_ip: [u8; 4], dst_ip: [u8; 4], data_len: u16) {
        self.set_pseudo_header(src_ip, dst_ip, data_len);
    }
}

impl TransportHeader for TcpHeader {
    fn set_pseudo_header(&mut self, src_ip: [u8; 4], dst_ip: [u8; 4], data_len: u16) {
        TcpHeader::set_pseudo_header(self, src_ip, dst_ip, data_len);
    }
}

/// Decoding an encoded TCP header gives back every field but the
/// pseudo-header, which is not on the wire.
pub proof fn lemma_tcp_round_trip(h: TcpHeader, d: TcpHeader)
    requires
        d.decodes(h.encoding()),
    ensures
        d.src_port == h.src_port,
        d.dst_port == h.dst_port,
        d.flags == h.flags,
        d.window == h.window,
{
}

} // verus!
