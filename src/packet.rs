use vstd::prelude::*;

use crate::ethertype_numbers::{ETHERTYPE_ARP, ETHERTYPE_IPV4, ETHERTYPE_IPV6, ETHERTYPE_LLDP, ETHERTYPE_RARP};
use crate::headers::{ArpHeader, EthernetHeader, Header, IcmpHeader, IpHeader, TcpHeader, UdpHeader};
use crate::helpers::{checksum, internet_checksum, with_word, word, AsBeBytes, ParseError};
use crate::protocol::{protocol_of_number, Protocol};

verus! {

/// Whether parsing `raw` starts at the link layer: unless the first byte
/// says IP version 4.
pub open spec fn starts_at_link(raw: Seq<u8>) -> bool {
    !(raw.len() > 0 && raw[0] / 16 == 4)
}

/// Parsing `raw` from position `at`, at the link layer (`link`) or at the
/// network layer: the position where the last header ends, or the error.
/// A frame type of IPv4 leads to the network layer; ARP, IPv6, RARP and LLDP
/// are not implemented; any other type is invalid. An IP header's next
/// protocol leads to another frame or IP header, or to a last ICMP, TCP or
/// UDP header; any other protocol is invalid. A transport header whose
/// segment would not fit a 16-bit length is refused as too long.
pub open spec fn walk(raw: Seq<u8>, at: nat, link: bool) -> Result<nat, ParseError>
    decreases raw.len() - at,
{
    if link {
        if at + 14 > raw.len() {
            Err(ParseError::InvalidLength)
        } else {
            let et = word(raw[at + 12int], raw[at + 13int]);
            if et == ETHERTYPE_IPV4 {
                walk(raw, at + 14, false)
            } else if et == ETHERTYPE_ARP || et == ETHERTYPE_IPV6 || et == ETHERTYPE_RARP || et
                == ETHERTYPE_LLDP {
                Err(ParseError::NotYetImplemented)
            } else {
                Err(ParseError::InvalidFormat)
            }
        }
    } else {
        if at + 20 > raw.len() {
            Err(ParseError::InvalidLength)
        } else {
            let next = at + 20;
            match protocol_of_number(raw[at + 9int]) {
                Some(Protocol::ETH) => walk(raw, next, true),
                Some(Protocol::IP) => walk(raw, next, false),
                Some(Protocol::ICMP) => if next + 8 > raw.len() {
                    Err(ParseError::InvalidLength)
                } else {
                    Ok(next + 8)
                },
                Some(Protocol::TCP) => if next + 20 > raw.len() || next + 20 > 0xffff {
                    Err(ParseError::InvalidLength)
                } else {
                    Ok(next + 20)
                },
                Some(Protocol::UDP) => if next + 8 > raw.len() || next + 8 > 0xffff {
                    Err(ParseError::InvalidLength)
                } else {
                    Ok(next + 8)
                },
                _ => Err(ParseError::InvalidFormat),
            }
        }
    }
}

/// Where parsing `raw` from `at` puts the last header of protocol `q`, if it
/// decodes one (for a walk that succeeds).
pub open spec fn walk_offset(raw: Seq<u8>, at: nat, link: bool, q: Protocol) -> Option<nat>
    decreases raw.len() - at,
{
    if link {
        if at + 14 > raw.len() {
            None
        } else {
            let rest = walk_offset(raw, at + 14, false, q);
            if q == Protocol::ETH && rest is None {
                Some(at)
            } else {
                rest
            }
        }
    } else {
        if at + 20 > raw.len() {
            None
        } else {
            let next = at + 20;
            let rest = match protocol_of_number(raw[at + 9int]) {
                Some(Protocol::ETH) => walk_offset(raw, next, true, q),
                Some(Protocol::IP) => walk_offset(raw, next, false, q),
                Some(p) => if q == p {
                    Some(next)
                } else {
                    None
                },
                None => None,
            };
            if q == Protocol::IP && rest is None {
                Some(at)
            } else {
                rest
            }
        }
    }
}

/// A network packet: headers encoded one after another into a buffer, an
/// index of where each protocol's header starts, and a payload that is
/// appended when the packet is finalized. Used both to build and to parse
/// packets.
pub struct Packet {
    buffer: Vec<u8>,
    /// The offset of each protocol's header, one slot per protocol.
    selection: Vec<Option<usize>>,
    current_index: usize,
    payload: Vec<u8>,
}

/// Whether the bytes `b` at `o` hold the header of protocol `q` decoded from
/// `raw` at `o`, encoded again: frame, IP and ICMP headers as they encode,
/// TCP and UDP headers with the pseudo-header made of the addresses of the IP
/// header at `ip` and a data length of `o`.
pub open spec fn holds_decoded(raw: Seq<u8>, b: Seq<u8>, q: Protocol, o: int, ip: int) -> bool {
    let from = raw.subrange(o, raw.len() as int);
    let src = b.subrange(ip + 12, ip + 16);
    let dst = b.subrange(ip + 16, ip + 20);
    match q {
        Protocol::ETH => exists|h: EthernetHeader| #[trigger] h.decodes(from) && b.subrange(o, o + 14) == h.encoding(),
        Protocol::IP => exists|h: IpHeader| #[trigger] h.decodes(from) && b.subrange(o, o + 20) == h.encoding(),
        Protocol::ICMP => exists|h: IcmpHeader| #[trigger] h.decodes(from) && b.subrange(o, o + 8) == h.encoding(),
        Protocol::TCP => exists|h: TcpHeader| #[trigger] h.decodes(from) && b.subrange(o, o + 20)
            == h.encoding_with_pseudo(src, dst, o),
        Protocol::UDP => exists|h: UdpHeader| #[trigger] h.decodes(from) && b.subrange(o, o + 8)
            == h.encoding_with_pseudo(src, dst, o),
        Protocol::ARP => false,
    }
}

/// Whether every header indexed in `p` holds what was decoded from `raw` at
/// its offset, encoded again.
pub open spec fn parsed_from(p: Packet, raw: Seq<u8>) -> bool {
    forall|q: Protocol| #[trigger] p.offset(q) is Some ==> holds_decoded(
        raw,
        p.bytes(),
        q,
        p.offset(q)->Some_0 as int,
        p.offset(Protocol::IP)->Some_0 as int,
    )
}

/// Whether `p` indexes no headers but frame and IP headers.
pub open spec fn only_lower_layers(p: Packet) -> bool {
    forall|q: Protocol| #[trigger] p.offset(q) is Some ==> q == Protocol::ETH || q == Protocol::IP
}

/// A frame or IP header held in a buffer is still held once more bytes are
/// appended.
proof fn lemma_holds_decoded_extend(raw: Seq<u8>, b: Seq<u8>, b2: Seq<u8>, q: Protocol, o: int, ip: int, ip2: int)
    requires
        q == Protocol::ETH || q == Protocol::IP,
        0 <= o,
        o + q.min_len() <= b.len(),
        b.len() <= b2.len(),
        b2.subrange(0, b.len() as int) == b,
        holds_decoded(raw, b, q, o, ip),
    ensures
        holds_decoded(raw, b2, q, o, ip2),
{
    let n = q.min_len() as int;
    assert forall|i: int| 0 <= i < n implies #[trigger] b2[o + i] == b[o + i] by {
        assert(b2.subrange(0, b.len() as int)[o + i] == b2[o + i]);
    }
    assert(b2.subrange(o, o + n) =~= b.subrange(o, o + n));
}

/// Adding one header at the end of a packet that holds only parsed frame and
/// IP headers keeps every earlier header held, so the packet is still parsed
/// from `raw` once the new header is held too.
proof fn lemma_parsed_from_after_add(raw: Seq<u8>, p: Packet, grown: Packet, q: Protocol)
    requires
        p.wf(),
        only_lower_layers(p),
        parsed_from(p, raw),
        p.bytes().len() <= grown.bytes().len(),
        grown.bytes().subrange(0, p.bytes().len() as int) == p.bytes(),
        grown.offset(q) == Some(p.bytes().len()),
        forall|r: Protocol| r != q ==> #[trigger] grown.offset(r) == p.offset(r),
        holds_decoded(raw, grown.bytes(), q, p.bytes().len() as int, grown.offset(Protocol::IP)->Some_0 as int),
    ensures
        parsed_from(grown, raw),
{
    assert forall|r: Protocol| #[trigger] grown.offset(r) is Some implies holds_decoded(
        raw,
        grown.bytes(),
        r,
        grown.offset(r)->Some_0 as int,
        grown.offset(Protocol::IP)->Some_0 as int,
    ) by {
        if r != q {
            assert(p.offset(r) is Some);
            lemma_holds_decoded_extend(
                raw,
                p.bytes(),
                grown.bytes(),
                r,
                p.offset(r)->Some_0 as int,
                p.offset(Protocol::IP)->Some_0 as int,
                grown.offset(Protocol::IP)->Some_0 as int,
            );
        }
    }
}

/// A prefix of a prefix is a prefix.
proof fn lemma_prefix_of_prefix(s: Seq<u8>, m: Seq<u8>, at: int)
    requires
        m.len() <= s.len(),
        s.subrange(0, m.len() as int) == m,
        0 <= at <= m.len(),
    ensures
        s.subrange(0, at) == m.subrange(0, at),
{
    assert forall|i: int| 0 <= i < at implies #[trigger] s[i] == m[i] by {
        assert(s.subrange(0, m.len() as int)[i] == s[i]);
    }
    assert(s.subrange(0, at) =~= m.subrange(0, at));
}

/// Appends the bytes of `data` to `v`.
fn append_bytes(v: &mut Vec<u8>, data: &[u8])
    ensures
        final(v)@ == old(v)@ + data@,
{
    let ghost start = v@;
    let mut i: usize = 0;
    while i < data.len()
        invariant
            i <= data@.len(),
            v@ == start + data@.subrange(0, i as int),
        decreases data@.len() - i,
    {
        v.push(data[i]);
        assert(data@.subrange(0, i + 1) =~= data@.subrange(0, i as int).push(data@[i as int]));
        i += 1;
    }
    assert(data@.subrange(0, data@.len() as int) =~= data@);
}

impl Packet {
    /// The encoded headers.
    pub closed spec fn bytes(&self) -> Seq<u8> {
        self.buffer@
    }

    /// The payload that finalizing appends.
    pub closed spec fn payload_bytes(&self) -> Seq<u8> {
        self.payload@
    }

    /// Where the header of protocol `p` starts in the buffer, if there is one.
    /// A later header of the same protocol takes the place of an earlier one.
    pub closed spec fn offset(&self, p: Protocol) -> Option<nat> {
        match self.selection@[p.slot() as int] {
            Some(o) => Some(o as nat),
            None => None,
        }
    }

    /// The offset table has one slot per protocol, the write cursor is at the
    /// end of the buffer, and each indexed header lies within the buffer.
    pub closed spec fn wf(&self) -> bool {
        &&& self.selection@.len() == 6
        &&& self.current_index == self.buffer@.len()
        &&& forall|p: Protocol| #[trigger] self.offset(p) is Some ==> self.offset(p)->Some_0 + p.min_len() <= self.bytes().len()
    }

    /// The source address of the IP header in the buffer.
    pub open spec fn ip_src(&self) -> Seq<u8> {
        self.bytes().subrange(self.offset(Protocol::IP)->Some_0 + 12int, self.offset(Protocol::IP)->Some_0 + 16int)
    }

    /// The destination address of the IP header in the buffer.
    pub open spec fn ip_dst(&self) -> Seq<u8> {
        self.bytes().subrange(self.offset(Protocol::IP)->Some_0 + 16int, self.offset(Protocol::IP)->Some_0 + 20int)
    }

    /// Whether adding `h` takes a pseudo-header from the IP header in the
    /// buffer.
    pub open spec fn wires<H: Header>(&self, h: H) -> bool {
        H::is_transport() && self.offset(Protocol::IP) is Some
    }

    /// The total data length handed to a transport header's pseudo-header:
    /// the buffer and the payload so far.
    pub open spec fn data_len(&self) -> int {
        self.bytes().len() + self.payload_bytes().len() as int
    }

    /// Whether `h` can be added: a transport header after an IP header needs
    /// the data to fit its length field; any other header must be ready to
    /// encode.
    pub open spec fn can_take<H: Header>(&self, h: H) -> bool {
        if self.wires(h) {
            self.data_len() <= 0xffff && H::pseudo_len_ok(self.data_len())
        } else {
            h.ready()
        }
    }

    /// The bytes that adding or updating `h` writes.
    pub open spec fn header_bytes<H: Header>(&self, h: H) -> Seq<u8> {
        if self.wires(h) {
            h.encoding_with_pseudo(self.ip_src(), self.ip_dst(), self.data_len())
        } else {
            h.encoding()
        }
    }

    /// The finalized packet: the buffer, with an ICMP header's checksum
    /// recomputed over the rest of the buffer and the payload, followed by the
    /// payload.
    pub open spec fn finalized(&self) -> Seq<u8> {
        match self.offset(Protocol::ICMP) {
            Some(o) => with_word(
                self.bytes(),
                o + 2int,
                internet_checksum(self.bytes().subrange(o as int, self.bytes().len() as int) + self.payload_bytes(), 1),
            ) + self.payload_bytes(),
            None => self.bytes() + self.payload_bytes(),
        }
    }

    /// An empty packet whose buffer can hold the minimum headers of the given
    /// protocols without growing. The headers still have to be added.
    pub fn new(protos: Vec<Protocol>) -> (r: Self)
        ensures
            r.wf(),
            r.bytes() == Seq::<u8>::empty(),
            r.payload_bytes() == Seq::<u8>::empty(),
            forall|p: Protocol| r.offset(p) is None,
    {
        let mut cap: usize = 0;
        let mut i: usize = 0;
        while i < protos.len()
            invariant
                i <= protos@.len(),
            decreases protos@.len() - i,
        {
            cap = cap.saturating_add(protos[i].min_header_len() as usize);
            i += 1;
        }
        Packet {
            buffer: Vec::with_capacity(cap),
            selection: Self::empty_selection(),
            current_index: 0,
            payload: Vec::new(),
        }
    }

    /// An empty packet with an empty buffer.
    pub fn new_empty() -> (r: Self)
        ensures
            r.wf(),
            r.bytes() == Seq::<u8>::empty(),
            r.payload_bytes() == Seq::<u8>::empty(),
            forall|p: Protocol| r.offset(p) is None,
    {
        Packet { buffer: Vec::new(), selection: Self::empty_selection(), current_index: 0, payload: Vec::new() }
    }

    fn empty_selection() -> (r: Vec<Option<usize>>)
        ensures
            r@.len() == 6,
            forall|i: int| 0 <= i < 6 ==> r@[i] is None,
    {
        vec![None, None, None, None, None, None]
    }

    /// Adds the header at the end of the buffer and indexes it under its
    /// protocol. A TCP or UDP header added after an IP header gets its
    /// pseudo-header from that header first.
    pub fn add_header<H: Header>(&mut self, buf: H)
        requires
            old(self).wf(),
            old(self).can_take(buf),
            old(self).bytes().len() + old(self).header_bytes(buf).len() <= usize::MAX,
        ensures
            final(self).wf(),
            final(self).bytes() == old(self).bytes() + old(self).header_bytes(buf),
            final(self).offset(H::proto()) == Some(old(self).bytes().len()),
            forall|p: Protocol| p != H::proto() ==> #[trigger] final(self).offset(p) == old(self).offset(p),
            final(self).payload_bytes() == old(self).payload_bytes(),
    {
        let mut buf = buf;
        self.calculate_fields(&mut buf);
        let proto = buf.get_proto();
        let len = buf.get_length();
        let slot = proto.slot_index();
        let start = self.current_index;
        self.selection.set(slot, Some(start));
        self.current_index = self.current_index + len as usize;
        let data = buf.make();
        append_bytes(&mut self.buffer, data.as_slice());
        proof {
            assert forall|p: Protocol| #[trigger] self.offset(p) is Some implies self.offset(p)->Some_0 + p.min_len() <= self.bytes().len() by {
                crate::protocol::lemma_slot_injective(p, H::proto());
                if p != H::proto() {
                    assert(old(self).offset(p) == self.offset(p));
                }
            }
            assert forall|p: Protocol| p != H::proto() implies #[trigger] self.offset(p) == old(self).offset(p) by {
                crate::protocol::lemma_slot_injective(p, H::proto());
            }
        }
    }

    /// Whether updating with `h` is possible: as for adding, and where a
    /// header of the protocol is already indexed, the new bytes must fit in
    /// the buffer from its offset on.
    pub open spec fn can_update<H: Header>(&self, h: H) -> bool {
        &&& self.can_take(h)
        &&& self.offset(H::proto()) matches Some(o) ==> o + self.header_bytes(h).len() <= self.bytes().len()
    }

    /// The buffer after updating with `h`: the bytes of `h` written over
    /// those at the offset of its protocol.
    pub open spec fn updated_bytes<H: Header>(&self, h: H) -> Seq<u8> {
        let o = self.offset(H::proto())->Some_0 as int;
        let n = self.header_bytes(h).len() as int;
        self.bytes().subrange(0, o) + self.header_bytes(h) + self.bytes().subrange(o + n, self.bytes().len() as int)
    }

    /// Replaces the header of the same protocol in place, if the packet has
    /// one; otherwise adds it as `add_header` does. The new header must not
    /// be longer than what follows the old one's offset.
    pub fn update_header<H: Header>(&mut self, new_buf: H)
        requires
            old(self).wf(),
            old(self).can_update(new_buf),
            old(self).bytes().len() + old(self).header_bytes(new_buf).len() <= usize::MAX,
        ensures
            final(self).wf(),
            old(self).offset(H::proto()) is Some ==> final(self).bytes() == old(self).updated_bytes(new_buf),
            old(self).offset(H::proto()) is None ==> final(self).bytes() == old(self).bytes() + old(self).header_bytes(
                new_buf,
            ),
            old(self).offset(H::proto()) is None ==> final(self).offset(H::proto()) == Some(old(self).bytes().len()),
            old(self).offset(H::proto()) is Some ==> final(self).offset(H::proto()) == old(self).offset(H::proto()),
            forall|p: Protocol| p != H::proto() ==> #[trigger] final(self).offset(p) == old(self).offset(p),
            final(self).payload_bytes() == old(self).payload_bytes(),
    {
        let ghost orig = new_buf;
        let mut new_buf = new_buf;
        let slot = new_buf.get_proto().slot_index();
        match self.selection[slot] {
            Some(index) => {
                assert(old(self).offset(H::proto()) == Some(index as nat));
                let ghost hb = old(self).header_bytes(new_buf);
                self.calculate_fields(&mut new_buf);
                let data = new_buf.make();
                assert(data@ == hb);
                let ghost before = self.buffer@;
                let blen = self.buffer.len();
                let mut i: usize = 0;
                while i < data.len()
                    invariant
                        i <= data@.len(),
                        index + data@.len() <= before.len(),
                        before.len() == blen,
                        self.buffer@.len() == before.len(),
                        forall|k: int| 0 <= k < before.len() ==> #[trigger] self.buffer@[k] == if index <= k < index + i {
                            data@[k - index]
                        } else {
                            before[k]
                        },
                        self.selection == old(self).selection,
                        self.current_index == old(self).current_index,
                        self.payload == old(self).payload,
                    decreases data@.len() - i,
                {
                    self.buffer.set(index + i, data[i]);
                    i += 1;
                }
                assert(self.buffer@ =~= old(self).updated_bytes(orig));
                assert(forall|p: Protocol| #[trigger] self.offset(p) == old(self).offset(p));
            },
            None => self.add_header(new_buf),
        }
    }

    /// Hands a TCP or UDP header its pseudo-header, taken from the IP header
    /// in the buffer and the data so far, where there is an IP header.
    fn calculate_fields<H: Header>(&self, buf: &mut H)
        requires
            self.wf(),
            self.can_take(*old(buf)),
        ensures
            final(buf).ready(),
            final(buf).encoding() == self.header_bytes(*old(buf)),
    {
        if H::is_transport_header() {
            match self.get_header_as_slice(Protocol::IP) {
                Some(ip_header) => {
                    let src_ip: [u8; 4] = [ip_header[12], ip_header[13], ip_header[14], ip_header[15]];
                    let dst_ip: [u8; 4] = [ip_header[16], ip_header[17], ip_header[18], ip_header[19]];
                    assert(src_ip@ =~= self.ip_src());
                    assert(dst_ip@ =~= self.ip_dst());
                    let all_data_len = (self.buffer.len() + self.payload.len()) as u16;
                    buf.apply_pseudo_header(src_ip, dst_ip, all_data_len);
                },
                None => {},
            }
        }
    }

    /// Appends the given data to the payload.
    pub fn extend_payload(&mut self, buf: Vec<u8>)
        requires
            old(self).wf(),
        ensures
            final(self).wf(),
            final(self).bytes() == old(self).bytes(),
            forall|p: Protocol| #[trigger] final(self).offset(p) == old(self).offset(p),
            final(self).payload_bytes() == old(self).payload_bytes() + buf@,
    {
        append_bytes(&mut self.payload, buf.as_slice());
        assert(forall|p: Protocol| #[trigger] self.offset(p) == old(self).offset(p));
    }

    /// Replaces the payload.
    pub fn set_payload(&mut self, payload: Vec<u8>)
        requires
            old(self).wf(),
        ensures
            final(self).wf(),
            final(self).bytes() == old(self).bytes(),
            forall|p: Protocol| #[trigger] final(self).offset(p) == old(self).offset(p),
            final(self).payload_bytes() == payload@,
    {
        self.payload = payload;
        assert(forall|p: Protocol| #[trigger] self.offset(p) == old(self).offset(p));
    }

    /// Returns the buffer from the start of the header of protocol `p` to
    /// its end, if the packet has such a header.
    pub fn get_header_as_slice(&self, p: Protocol) -> (r: Option<&[u8]>)
        requires
            self.wf(),
        ensures
            r is Some <==> self.offset(p) is Some,
            r matches Some(s) ==> s@ == self.bytes().subrange(self.offset(p)->Some_0 as int, self.bytes().len() as int),
    {
        match self.selection[p.slot_index()] {
            Some(index) => Some(vstd::slice::slice_subrange(self.buffer.as_slice(), index, self.buffer.len())),
            None => None,
        }
    }

    /// Consumes the packet and returns its bytes: the headers, then the
    /// payload. An ICMP header's checksum is recomputed here to cover the
    /// payload (and whatever follows the ICMP header in the buffer).
    pub fn into_vec(self) -> (r: Vec<u8>)
        requires
            self.wf(),
        ensures
            r@ == self.finalized(),
    {
        assert(self.offset(Protocol::ICMP) is Some ==> self.offset(Protocol::ICMP)->Some_0 + 8 <= self.bytes().len());
        let Packet { buffer, selection, current_index, payload } = self;
        let mut buffer = buffer;
        match selection[Protocol::ICMP.slot_index()] {
            Some(index) => {
                let mut icmp_data: Vec<u8> = Vec::new();
                let mut i: usize = index;
                while i < buffer.len()
                    invariant
                        index <= i <= buffer@.len(),
                        icmp_data@ == buffer@.subrange(index as int, i as int),
                    decreases buffer@.len() - i,
                {
                    icmp_data.push(buffer[i]);
                    assert(buffer@.subrange(index as int, i + 1) =~= buffer@.subrange(index as int, i as int).push(
                        buffer@[i as int],
                    ));
                    i += 1;
                }
                append_bytes(&mut icmp_data, payload.as_slice());
                let cs = checksum(icmp_data.as_slice(), 1).split_to_bytes();
                buffer.set(index + 2, cs[0]);
                buffer.set(index + 3, cs[1]);
            },
            None => {},
        }
        append_bytes(&mut buffer, payload.as_slice());
        buffer
    }

    /// Parses raw packet data into a packet, header by header. Data that
    /// starts with IP version 4 is taken to start with an IP header, any other
    /// data with a link-layer frame header. The payload is not kept.
    pub fn parse(raw_data: &[u8]) -> (r: Result<Self, ParseError>)
        ensures
            match r {
                Ok(p) => {
                    &&& walk(raw_data@, 0, starts_at_link(raw_data@)) is Ok
                    &&& p.wf()
                    &&& p.bytes().len() == walk(raw_data@, 0, starts_at_link(raw_data@))->Ok_0
                    &&& p.payload_bytes() == Seq::<u8>::empty()
                    &&& forall|q: Protocol| #[trigger] p.offset(q) == walk_offset(raw_data@, 0, starts_at_link(raw_data@), q)
                    &&& parsed_from(p, raw_data@)
                },
                Err(e) => walk(raw_data@, 0, starts_at_link(raw_data@)) == Err::<nat, ParseError>(e),
            },
    {
        let mut packet = Self::new_empty();
        let ip_first = if raw_data.len() > 0 {
            let b = raw_data[0];
            assert(b >> 4 == b / 16) by (bit_vector);
            b >> 4 == 4
        } else {
            false
        };
        let res = if ip_first {
            packet.parse_ip_packet(raw_data, 0)
        } else {
            packet.parse_ethernet_packet(raw_data, 0)
        };
        match res {
            Ok(()) => Ok(packet),
            Err(e) => Err(e),
        }
    }

    /// Parses an IP header at `at` and what follows it.
    #[verifier::rlimit(60)]
    fn parse_ip_packet(&mut self, raw_data: &[u8], at: usize) -> (r: Result<(), ParseError>)
        requires
            old(self).wf(),
            old(self).bytes().len() == at,
            at <= raw_data@.len(),
            old(self).payload_bytes() == Seq::<u8>::empty(),
            only_lower_layers(*old(self)),
            parsed_from(*old(self), raw_data@),
        ensures
            match r {
                Ok(()) => {
                    &&& walk(raw_data@, at as nat, false) is Ok
                    &&& final(self).bytes().len() >= at
                    &&& final(self).bytes().subrange(0, at as int) == old(self).bytes()
                    &&& parsed_from(*final(self), raw_data@)
                    &&& final(self).wf()
                    &&& final(self).bytes().len() == walk(raw_data@, at as nat, false)->Ok_0
                    &&& final(self).payload_bytes() == Seq::<u8>::empty()
                    &&& forall|q: Protocol| #[trigger] final(self).offset(q) == match walk_offset(raw_data@, at as nat, false, q) {
                        Some(o) => Some(o),
                        None => old(self).offset(q),
                    }
                },
                Err(e) => walk(raw_data@, at as nat, false) == Err::<nat, ParseError>(e),
            },
        decreases raw_data@.len() - at, 0nat,
    {
        let rest = vstd::slice::slice_subrange(raw_data, at, raw_data.len());
        let ip_header = match IpHeader::parse(rest) {
            Ok(h) => h,
            Err(e) => return Err(e),
        };
        let next_protocol = Protocol::from_number(ip_header.next_protocol);
        let ip_hdr_len = ip_header.get_length() as usize;
        let ghost start = *self;
        let ghost iph = ip_header;
        assert(ip_header.encoding().len() == 20);
        self.add_header(ip_header);
        let next = at + ip_hdr_len;
        assert(raw_data@[at as int + 9] == ip_header.next_protocol);
        let ghost mid = *self;
        proof {
            assert(mid.bytes().subrange(at as int, at + 20) =~= iph.encoding());
            assert(mid.bytes().subrange(0, at as int) =~= start.bytes());
            lemma_parsed_from_after_add(raw_data@, start, mid, Protocol::IP);
        }
        let r = match next_protocol {
            Some(Protocol::ETH) => self.parse_ethernet_packet(raw_data, next),
            Some(Protocol::IP) => self.parse_ip_packet(raw_data, next),
            Some(Protocol::ICMP) => {
                match IcmpHeader::parse(vstd::slice::slice_subrange(raw_data, next, raw_data.len())) {
                    Ok(h) => {
                        let ghost g = h;
                        self.add_header(h);
                        proof {
                            assert(self.bytes().subrange(next as int, next + 8) =~= g.encoding());
                            assert(self.bytes().subrange(0, next as int) =~= mid.bytes());
                            lemma_parsed_from_after_add(raw_data@, mid, *self, Protocol::ICMP);
                        }
                        Ok(())
                    },
                    Err(e) => Err(e),
                }
            },
            Some(Protocol::TCP) => {
                match TcpHeader::parse(vstd::slice::slice_subrange(raw_data, next, raw_data.len())) {
                    Ok(h) => {
                        if next > 0xffff - 20 {
                            Err(ParseError::InvalidLength)
                        } else {
                            let ghost g = h;
                            self.add_header(h);
                            proof {
                                assert(self.bytes().subrange(0, next as int) =~= mid.bytes());
                                assert(self.bytes().subrange(at + 12, at + 16) =~= mid.ip_src());
                                assert(self.bytes().subrange(at + 16, at + 20) =~= mid.ip_dst());
                                assert(self.bytes().subrange(next as int, next + 20) =~= mid.header_bytes(g));
                                lemma_parsed_from_after_add(raw_data@, mid, *self, Protocol::TCP);
                            }
                            Ok(())
                        }
                    },
                    Err(e) => Err(e),
                }
            },
            Some(Protocol::UDP) => {
                match UdpHeader::parse(vstd::slice::slice_subrange(raw_data, next, raw_data.len())) {
                    Ok(h) => {
                        if next > 0xffff - 8 {
                            Err(ParseError::InvalidLength)
                        } else {
                            let ghost g = h;
                            self.add_header(h);
                            proof {
                                assert(self.bytes().subrange(0, next as int) =~= mid.bytes());
                                assert(self.bytes().subrange(at + 12, at + 16) =~= mid.ip_src());
                                assert(self.bytes().subrange(at + 16, at + 20) =~= mid.ip_dst());
                                assert(self.bytes().subrange(next as int, next + 8) =~= mid.header_bytes(g));
                                lemma_parsed_from_after_add(raw_data@, mid, *self, Protocol::UDP);
                            }
                            Ok(())
                        }
                    },
                    Err(e) => Err(e),
                }
            },
            _ => Err(ParseError::InvalidFormat),
        };
        proof {
            if r is Ok {
                lemma_prefix_of_prefix(self.bytes(), mid.bytes(), at as int);
            }
        }
        r
    }

    /// Parses a link-layer frame header at `at` and what follows it.
    fn parse_ethernet_packet(&mut self, raw_data: &[u8], at: usize) -> (r: Result<(), ParseError>)
        requires
            old(self).wf(),
            old(self).bytes().len() == at,
            at <= raw_data@.len(),
            old(self).payload_bytes() == Seq::<u8>::empty(),
            only_lower_layers(*old(self)),
            parsed_from(*old(self), raw_data@),
        ensures
            match r {
                Ok(()) => {
                    &&& walk(raw_data@, at as nat, true) is Ok
                    &&& final(self).bytes().len() >= at
                    &&& final(self).bytes().subrange(0, at as int) == old(self).bytes()
                    &&& parsed_from(*final(self), raw_data@)
                    &&& final(self).wf()
                    &&& final(self).bytes().len() == walk(raw_data@, at as nat, true)->Ok_0
                    &&& final(self).payload_bytes() == Seq::<u8>::empty()
                    &&& forall|q: Protocol| #[trigger] final(self).offset(q) == match walk_offset(raw_data@, at as nat, true, q) {
                        Some(o) => Some(o),
                        None => old(self).offset(q),
                    }
                },
                Err(e) => walk(raw_data@, at as nat, true) == Err::<nat, ParseError>(e),
            },
        decreases raw_data@.len() - at, 1nat,
    {
        let rest = vstd::slice::slice_subrange(raw_data, at, raw_data.len());
        let hdr = match EthernetHeader::parse(rest) {
            Ok(h) => h,
            Err(e) => return Err(e),
        };
        let et = hdr.eth_type;
        let ghost start = *self;
        let ghost g = hdr;
        self.add_header(hdr);
        let ghost mid = *self;
        proof {
            assert(mid.bytes().subrange(at as int, at + 14) =~= g.encoding());
            assert(mid.bytes().subrange(0, at as int) =~= start.bytes());
            lemma_parsed_from_after_add(raw_data@, start, mid, Protocol::ETH);
        }
        if et == ETHERTYPE_IPV4 {
            let r = self.parse_ip_packet(raw_data, at + 14);
            proof {
                if r is Ok {
                    lemma_prefix_of_prefix(self.bytes(), mid.bytes(), at as int);
                }
            }
            r
        } else if et == ETHERTYPE_ARP || et == ETHERTYPE_IPV6 || et == ETHERTYPE_RARP || et == ETHERTYPE_LLDP {
            Err(ParseError::NotYetImplemented)
        } else {
            Err(ParseError::InvalidFormat)
        }
    }

    /// Decodes a fresh copy of the header of type `H` from the buffer, if the
    /// packet has one. The copy shares nothing with the packet.
    pub fn get_header<H: Header>(&self) -> (r: Option<H>)
        requires
            self.wf(),
        ensures
            r is Some <==> self.offset(H::proto()) is Some,
            r matches Some(h) ==> h.decodes(
                self.bytes().subrange(self.offset(H::proto())->Some_0 as int, self.bytes().len() as int),
            ),
    {
        let index = match self.selection[H::get_proto_of().slot_index()] {
            Some(i) => i,
            None => return None,
        };
        assert(self.offset(H::proto()) == Some(index as nat));
        match H::parse(vstd::slice::slice_subrange(self.buffer.as_slice(), index, self.buffer.len())) {
            Ok(h) => Some(h),
            Err(_) => None,
        }
    }

    /// The IP header, decoded afresh.
    pub fn get_ip_header(&self) -> (r: Option<IpHeader>)
        requires
            self.wf(),
        ensures
            r is Some <==> self.offset(Protocol::IP) is Some,
            r matches Some(h) ==> h.decodes(self.bytes().subrange(self.offset(Protocol::IP)->Some_0 as int, self.bytes().len() as int)),
    {
        self.get_header::<IpHeader>()
    }

    /// The ARP header, decoded afresh.
    pub fn get_arp_header(&self) -> (r: Option<ArpHeader>)
        requires
            self.wf(),
        ensures
            r is Some <==> self.offset(Protocol::ARP) is Some,
            r matches Some(h) ==> h.decodes(self.bytes().subrange(self.offset(Protocol::ARP)->Some_0 as int, self.bytes().len() as int)),
    {
        self.get_header::<ArpHeader>()
    }

    /// The link-layer frame header, decoded afresh.
    pub fn get_eth_header(&self) -> (r: Option<EthernetHeader>)
        requires
            self.wf(),
        ensures
            r is Some <==> self.offset(Protocol::ETH) is Some,
            r matches Some(h) ==> h.decodes(self.bytes().subrange(self.offset(Protocol::ETH)->Some_0 as int, self.bytes().len() as int)),
    {
        self.get_header::<EthernetHeader>()
    }

    /// The TCP header, decoded afresh.
    pub fn get_tcp_header(&self) -> (r: Option<TcpHeader>)
        requires
            self.wf(),
        ensures
            r is Some <==> self.offset(Protocol::TCP) is Some,
            r matches Some(h) ==> h.decodes(self.bytes().subrange(self.offset(Protocol::TCP)->Some_0 as int, self.bytes().len() as int)),
    {
        self.get_header::<TcpHeader>()
    }

    /// The UDP header, decoded afresh.
    pub fn get_udp_header(&self) -> (r: Option<UdpHeader>)
        requires
            self.wf(),
        ensures
            r is Some <==> self.offset(Protocol::UDP) is Some,
            r matches Some(h) ==> h.decodes(self.bytes().subrange(self.offset(Protocol::UDP)->Some_0 as int, self.bytes().len() as int)),
    {
        self.get_header::<UdpHeader>()
    }

    /// The ICMP header, decoded afresh.
    pub fn get_icmp_header(&self) -> (r: Option<IcmpHeader>)
        requires
            self.wf(),
        ensures
            r is Some <==> self.offset(Protocol::ICMP) is Some,
            r matches Some(h) ==> h.decodes(self.bytes().subrange(self.offset(Protocol::ICMP)->Some_0 as int, self.bytes().len() as int)),
    {
        self.get_header::<IcmpHeader>()
    }
}

/// Updating with a header whose encoding is already what the buffer holds at
/// that header's offset changes nothing.
pub proof fn lemma_update_with_same_bytes<H: Header>(p: Packet, d: H)
    requires
        p.wf(),
        !H::is_transport(),
        d.ready(),
        p.offset(H::proto()) is Some,
        p.offset(H::proto())->Some_0 + d.encoding().len() <= p.bytes().len(),
        p.bytes().subrange(
            p.offset(H::proto())->Some_0 as int,
            p.offset(H::proto())->Some_0 + d.encoding().len() as int,
        ) == d.encoding(),
    ensures
        p.can_update(d),
        p.updated_bytes(d) == p.bytes(),
{
    let o = p.offset(H::proto())->Some_0 as int;
    let n = d.encoding().len() as int;
    let b = p.bytes();
    assert(b =~= b.subrange(0, o) + b.subrange(o, o + n) + b.subrange(o + n, b.len() as int));
}

/// Updating a packet with the frame header decoded from its own buffer
/// (as `get_eth_header` returns it) leaves the buffer unchanged, where that
/// header was written by encoding.
pub proof fn lemma_update_eth_keeps_bytes(p: Packet, h: EthernetHeader, d: EthernetHeader)
    requires
        p.wf(),
        p.offset(Protocol::ETH) is Some,
        p.bytes().subrange(p.offset(Protocol::ETH)->Some_0 as int, p.offset(Protocol::ETH)->Some_0 + 14int) == h.encoding(),
        d.decodes(p.bytes().subrange(p.offset(Protocol::ETH)->Some_0 as int, p.bytes().len() as int)),
    ensures
        p.can_update(d),
        p.updated_bytes(d) == p.bytes(),
{
    let o = p.offset(Protocol::ETH)->Some_0 as int;
    let long = p.bytes().subrange(o, p.bytes().len() as int);
    let e = h.encoding();
    assert(long.subrange(0, 6) =~= e.subrange(0, 6));
    assert(long.subrange(6, 12) =~= e.subrange(6, 12));
    assert(long[12] == e[12] && long[13] == e[13]);
    crate::headers::lemma_ethernet_round_trip(h, d);
    assert(d.encoding() =~= e);
    lemma_update_with_same_bytes(p, d);
}

/// Updating a packet with the ARP header decoded from its own buffer leaves
/// the buffer unchanged, where that header was written by encoding.
pub proof fn lemma_update_arp_keeps_bytes(p: Packet, h: ArpHeader, d: ArpHeader)
    requires
        p.wf(),
        p.offset(Protocol::ARP) is Some,
        p.bytes().subrange(p.offset(Protocol::ARP)->Some_0 as int, p.offset(Protocol::ARP)->Some_0 + 28int) == h.encoding(),
        d.decodes(p.bytes().subrange(p.offset(Protocol::ARP)->Some_0 as int, p.bytes().len() as int)),
    ensures
        p.can_update(d),
        p.updated_bytes(d) == p.bytes(),
{
    let o = p.offset(Protocol::ARP)->Some_0 as int;
    let long = p.bytes().subrange(o, p.bytes().len() as int);
    let e = h.encoding();
    assert forall|i: int| 0 <= i < 28 implies long[i] == e[i] by {
        assert(p.bytes().subrange(o, o + 28)[i] == e[i]);
    }
    assert(long.subrange(8, 14) =~= e.subrange(8, 14));
    assert(long.subrange(14, 18) =~= e.subrange(14, 18));
    assert(long.subrange(18, 24) =~= e.subrange(18, 24));
    assert(long.subrange(24, 28) =~= e.subrange(24, 28));
    crate::headers::lemma_arp_round_trip(h, d);
    assert(d.encoding() =~= e);
    lemma_update_with_same_bytes(p, d);
}

/// Updating a packet with the IPv4 header decoded from its own buffer
/// (as `get_ip_header` returns it) leaves the buffer unchanged, where that
/// header was written by encoding.
pub proof fn lemma_update_ip_keeps_bytes(p: Packet, h: IpHeader, d: IpHeader)
    requires
        p.wf(),
        h.src_ip is V4,
        h.dst_ip is V4,
        p.offset(Protocol::IP) is Some,
        p.bytes().subrange(p.offset(Protocol::IP)->Some_0 as int, p.offset(Protocol::IP)->Some_0 + 20int) == h.encoding(),
        d.decodes(p.bytes().subrange(p.offset(Protocol::IP)->Some_0 as int, p.bytes().len() as int)),
    ensures
        p.can_update(d),
        p.updated_bytes(d) == p.bytes(),
{
    let o = p.offset(Protocol::IP)->Some_0 as int;
    let long = p.bytes().subrange(o, p.bytes().len() as int);
    let e = h.encoding();
    assert forall|i: int| 0 <= i < 20 implies long[i] == e[i] by {
        assert(p.bytes().subrange(o, o + 20)[i] == e[i]);
    }
    assert(long.subrange(12, 16) =~= e.subrange(12, 16));
    assert(long.subrange(16, 20) =~= e.subrange(16, 20));
    crate::headers::lemma_ip_round_trip(h, d);
    lemma_update_with_same_bytes(p, d);
}

/// Updating a packet with the ICMP header decoded from its own buffer
/// (as `get_icmp_header` returns it) leaves the buffer unchanged, where that
/// header was written by encoding (and not since finalized with a payload).
pub proof fn lemma_update_icmp_keeps_bytes(p: Packet, h: IcmpHeader, d: IcmpHeader)
    requires
        p.wf(),
        p.offset(Protocol::ICMP) is Some,
        p.bytes().subrange(p.offset(Protocol::ICMP)->Some_0 as int, p.offset(Protocol::ICMP)->Some_0 + 8int) == h.encoding(),
        d.decodes(p.bytes().subrange(p.offset(Protocol::ICMP)->Some_0 as int, p.bytes().len() as int)),
    ensures
        p.can_update(d),
        p.updated_bytes(d) == p.bytes(),
{
    let o = p.offset(Protocol::ICMP)->Some_0 as int;
    let long = p.bytes().subrange(o, p.bytes().len() as int);
    let e = h.encoding();
    assert forall|i: int| 0 <= i < 8 implies long[i] == e[i] by {
        assert(p.bytes().subrange(o, o + 8)[i] == e[i]);
    }
    crate::headers::lemma_icmp_round_trip(h, d);
    lemma_update_with_same_bytes(p, d);
}

/// After finalizing, the ICMP header and everything after it, payload
/// included, checksum to zero: the recomputed checksum field completes the
/// sum.
pub proof fn lemma_finalized_icmp_checksum_verifies(p: Packet)
    requires
        p.wf(),
        p.offset(Protocol::ICMP) is Some,
    ensures
        internet_checksum(
            p.finalized().subrange(p.offset(Protocol::ICMP)->Some_0 as int, p.finalized().len() as int),
            0,
        ) == 0,
{
    let o = p.offset(Protocol::ICMP)->Some_0 as int;
    let b = p.bytes();
    let t = b.subrange(o, b.len() as int) + p.payload_bytes();
    let c = internet_checksum(t, 1);
    crate::helpers::lemma_checksum_law(t, 1);
    assert(p.finalized().subrange(o, p.finalized().len() as int) =~= with_word(t, 2, c));
}

} // verus!
