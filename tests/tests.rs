use packet_crafter::ethertype_numbers;
use packet_crafter::headers;
use packet_crafter::headers::{Header, IpAddr, TcpFlags, TransportHeader};
use packet_crafter::{checksum, finalize_checksum, sum_be_words, AsBeBytes, Packet, ParseError, Protocol};

fn eth_ip_tcp_packet() -> Packet {
    let mut p = Packet::new(vec![Protocol::ETH, Protocol::IP, Protocol::TCP]);
    p.add_header(headers::EthernetHeader::new(
        [6, 5, 4, 3, 2, 1],
        [1, 2, 3, 4, 5, 6],
        ethertype_numbers::ETHERTYPE_IPV4,
    ));
    p.add_header(headers::IpHeader::new(
        IpAddr::V4([192, 168, 1, 128]),
        IpAddr::V4([192, 168, 1, 38]),
        Protocol::TCP,
    ));
    p.add_header(headers::TcpHeader::new(3838, 3838));
    p
}

fn assert_eth_slice(eth_header_slice: &[u8]) {
    assert_eq!(eth_header_slice[0], 1);
    assert_eq!(eth_header_slice[1], 2);
    assert_eq!(eth_header_slice[2], 3);
    assert_eq!(eth_header_slice[3], 4);
    assert_eq!(eth_header_slice[4], 5);
    assert_eq!(eth_header_slice[5], 6);
    assert_eq!(eth_header_slice[6], 6);
    assert_eq!(eth_header_slice[7], 5);
    assert_eq!(eth_header_slice[8], 4);
    assert_eq!(eth_header_slice[9], 3);
    assert_eq!(eth_header_slice[10], 2);
    assert_eq!(eth_header_slice[11], 1);
}

#[test]
fn icmp_checksum_includes_payload() {
    let icmp_header = headers::IcmpHeader::new(8, 0, 0xd49e, 0);
    let packet_with_header_only = icmp_header.make();
    assert_ne!(packet_with_header_only[2], 0);
    assert_ne!(packet_with_header_only[3], 0);
    let mut p = Packet::new(vec![Protocol::ICMP]);
    p.add_header(headers::IcmpHeader::new(8, 0, 0xd49e, 0));
    p.extend_payload(vec![1, 2, 3]);
    let packet_with_data = p.into_vec();
    assert_ne!(packet_with_header_only[2], packet_with_data[2]);
    assert_ne!(packet_with_header_only[3], packet_with_data[3]);
}

#[test]
fn icmp_checksum_is_calculated() {
    let icmp_header = headers::IcmpHeader::new(8, 0, 0xd49e, 0);
    let data = icmp_header.make();
    assert_ne!(data[2], 0);
    assert_ne!(data[3], 0);
}

#[test]
fn test_get_ipv4_header_method() {
    let p = eth_ip_tcp_packet();
    let tcp_header_slice = p.get_header_as_slice(Protocol::TCP).expect("could not find tcp header");
    let bytes = 3838u16.split_to_bytes();
    assert_eq!(bytes[0], tcp_header_slice[0]);
    assert_eq!(bytes[1], tcp_header_slice[1]);
    let eth_header_slice = p.get_header_as_slice(Protocol::ETH).expect("could not find eth header");
    assert_eth_slice(eth_header_slice);
}

#[test]
fn test_get_ipv6_header_method() {
    let mut p = Packet::new(vec![Protocol::ETH, Protocol::IP, Protocol::TCP]);
    p.add_header(headers::EthernetHeader::new(
        [6, 5, 4, 3, 2, 1],
        [1, 2, 3, 4, 5, 6],
        ethertype_numbers::ETHERTYPE_IPV6,
    ));
    p.add_header(headers::IpHeader::new(
        IpAddr::V6([0xfd, 0x00, 0, 0, 0, 0, 0, 0, 0, 0, 0, 0, 0, 0, 0, 1]),
        IpAddr::V6([0xfd, 0x00, 0, 0, 0, 0, 0, 0, 0, 0, 0, 0, 0, 0, 0, 2]),
        Protocol::TCP,
    ));
    p.add_header(headers::TcpHeader::new(3838, 3838));
    let tcp_header_slice = p.get_header_as_slice(Protocol::TCP).expect("could not find tcp header");
    let bytes = 3838u16.split_to_bytes();
    assert_eq!(bytes[0], tcp_header_slice[0]);
    assert_eq!(bytes[1], tcp_header_slice[1]);
    let eth_header_slice = p.get_header_as_slice(Protocol::ETH).expect("could not find eth header");
    assert_eth_slice(eth_header_slice);
    // the IPv6 header takes 40 bytes
    assert_eq!(p.into_vec().len(), 14 + 40 + 20);
}

#[test]
fn mixing_ip_versions_is_refused() {
    let v6 = IpAddr::V6([0, 0, 0, 0, 0, 0, 0, 0, 0, 0, 0, 0, 0, 0, 0, 1]);
    let v4 = IpAddr::V4([127, 0, 0, 1]);
    assert!(headers::IpHeader::try_new(v6, v4, Protocol::TCP).is_none());
    assert!(headers::IpHeader::try_new(v4, v6, Protocol::TCP).is_none());
    assert!(headers::IpHeader::try_new(v4, v4, Protocol::TCP).is_some());
    assert!(headers::IpHeader::try_new(v6, v6, Protocol::TCP).is_some());
}

#[test]
fn test_eth_parse_function() {
    let raw_data: &[u8] = &[1, 2, 3, 4, 5, 6, 6, 5, 4, 3, 2, 1, 8, 0];
    let eth_header_struct = headers::EthernetHeader::parse(raw_data).unwrap();
    assert_eq!(eth_header_struct.get_dst_mac(), &[1, 2, 3, 4, 5, 6]);
    assert_eq!(eth_header_struct.get_src_mac(), &[6, 5, 4, 3, 2, 1]);
    assert_eq!(eth_header_struct.get_eth_type(), &ethertype_numbers::ETHERTYPE_IPV4);
}

#[test]
fn test_parse_packet_eth_ipv4_tcp() {
    let mut p = eth_ip_tcp_packet();
    p.set_payload("Hello, world!".bytes().collect());
    let data = p.into_vec();
    let packet = Packet::parse(&data).unwrap();
    let tcp_header_slice = packet.get_header_as_slice(Protocol::TCP).expect("could not find tcp header");
    let bytes = 3838u16.split_to_bytes();
    assert_eq!(bytes[0], tcp_header_slice[0]);
    assert_eq!(bytes[1], tcp_header_slice[1]);
    let eth_header_slice = packet.get_header_as_slice(Protocol::ETH).expect("could not find eth header");
    assert_eth_slice(eth_header_slice);
}

#[test]
fn test_get_tcp_header() {
    let p = eth_ip_tcp_packet();
    let tcp_header = p.get_tcp_header().unwrap();
    assert_eq!(tcp_header.get_src_port(), &3838);
}

#[test]
fn test_update_header() {
    let mut p = eth_ip_tcp_packet();
    p.set_payload("Hello, world!".bytes().collect());
    let data = p.into_vec();
    let mut packet = Packet::parse(&data).unwrap();
    let mut tcp_header = packet.get_tcp_header().unwrap();
    tcp_header.set_src_port(21);
    packet.update_header(tcp_header);
    let new_tcp_hdr = packet.get_tcp_header().unwrap();
    assert_eq!(new_tcp_hdr.get_src_port(), &21);
    let tcp_header_slice = packet.get_header_as_slice(Protocol::TCP).expect("could not find tcp header");
    let bytes = 21u16.split_to_bytes();
    assert_eq!(bytes[0], tcp_header_slice[0]);
    assert_eq!(bytes[1], tcp_header_slice[1]);
    let finalized = packet.into_vec();
    assert_eq!(finalized[34], 0);
    assert_eq!(finalized[35], 21);
}

#[test]
fn test_1_byte_u16_to_bytes() {
    let x = 12u16;
    assert_eq!([0, 12], x.split_to_bytes());
}

#[test]
fn test_2_byte_u16_to_bytes() {
    let x: u16 = 0b00100001_00101100;
    assert_eq!([0b00100001, 0b00101100], x.split_to_bytes());
}

#[test]
fn split_to_bytes_at_byte_boundaries() {
    assert_eq!([1, 0], 256u16.split_to_bytes());
    assert_eq!([0xff, 0xff], 0xffffu16.split_to_bytes());
    assert_eq!([0x12, 0x34, 0x56, 0x78], 0x12345678u32.split_to_bytes());
    assert_eq!([0, 0, 1, 0], 256u32.split_to_bytes());
    assert_eq!([1, 2, 3, 4, 5, 6, 7, 8], 0x0102030405060708u64.split_to_bytes());
    assert_eq!(7u8, 7u8.split_to_bytes());
}

// an IPv4 header whose checksum field holds 0xb861
const IP_SAMPLE: [u8; 20] = [
    0x45, 0x00, 0x00, 0x73, 0x00, 0x00, 0x40, 0x00, 0x40, 0x11, 0xb8, 0x61, 0xc0, 0xa8, 0x00, 0x01, 0xc0, 0xa8,
    0x00, 0xc7,
];

#[test]
fn checksum_of_known_ip_header() {
    assert_eq!(checksum(&IP_SAMPLE, 5), 0xb861);
    // with the checksum field included the sum folds to 0xffff
    assert_eq!(checksum(&IP_SAMPLE, 0), 0);
    let mut zeroed = IP_SAMPLE;
    zeroed[10] = 0;
    zeroed[11] = 0;
    assert_eq!(checksum(&zeroed, 0), 0xb861);
    assert_eq!(checksum(&zeroed, 5), 0xb861);
}

#[test]
fn checksum_of_odd_length_and_empty_data() {
    assert_eq!(checksum(&[], 0), 0xffff);
    // 0x0102 + 0x0300 = 0x0402
    assert_eq!(checksum(&[1, 2, 3], 0), 0xffff - 0x0402);
    assert_eq!(sum_be_words(&[1, 2, 3], 0), 0x0402);
    assert_eq!(sum_be_words(&[1, 2, 3, 4], 1), 0x0102);
    assert_eq!(sum_be_words(&[1, 2, 3, 4], 7), 0x0102 + 0x0304);
}

#[test]
fn finalize_checksum_folds_carries() {
    assert_eq!(finalize_checksum(0), 0xffff);
    assert_eq!(finalize_checksum(0x2fffe), 0xfffe);
    assert_eq!(finalize_checksum(0x1234), 0xffff - 0x1234);
    assert_eq!(finalize_checksum(0xffffffff), 0);
}

#[test]
fn icmp_encoding_is_exact() {
    let bytes = headers::IcmpHeader::new(8, 0, 0xd49e, 0x0102).make();
    // the sequence number goes low byte first
    assert_eq!(&bytes[..2], &[8, 0]);
    assert_eq!(&bytes[4..], &[0xd4, 0x9e, 0x02, 0x01]);
    let no_seq = headers::IcmpHeader::new(8, 0, 0xd49e, 0).make();
    assert_eq!(no_seq, vec![8, 0, 0x23, 0x61, 0xd4, 0x9e, 0, 0]);
    let mut p = Packet::new_empty();
    p.add_header(headers::IcmpHeader::new(8, 0, 0xd49e, 0));
    p.extend_payload(vec![1, 2, 3]);
    assert_eq!(p.into_vec(), vec![8, 0, 0x1f, 0x5f, 0xd4, 0x9e, 0, 0, 1, 2, 3]);
}

#[test]
fn headers_round_trip() {
    let eth = headers::EthernetHeader::new([1, 2, 3, 4, 5, 6], [7, 8, 9, 10, 11, 12], 0x86dd);
    let back = headers::EthernetHeader::parse(&eth.make()).unwrap();
    assert_eq!(back.get_src_mac(), &[1, 2, 3, 4, 5, 6]);
    assert_eq!(back.get_dst_mac(), &[7, 8, 9, 10, 11, 12]);
    assert_eq!(back.get_eth_type(), &0x86dd);

    let mut arp = headers::ArpHeader::new([1, 1, 1, 1, 1, 1], [10, 0, 0, 1], [2, 2, 2, 2, 2, 2], [10, 0, 0, 2]);
    arp.set_opcode(headers::REPLY);
    let back = headers::ArpHeader::parse(&arp.make()).unwrap();
    assert_eq!(back.get_opcode(), &headers::REPLY);
    assert_eq!(back.sender_ip, [10, 0, 0, 1]);
    assert_eq!(back.destination_mac, [2, 2, 2, 2, 2, 2]);
    assert_eq!((back.hardware_type, back.protocol_type, back.hardware_size, back.protocol_size), (1, 0x0800, 6, 4));

    let icmp = headers::IcmpHeader::new(0, 3, 0xabcd, 0x1234);
    let back = headers::IcmpHeader::parse(&icmp.make()).unwrap();
    assert_eq!((back.msg_type, back.code, back.identifier, back.sequence_number), (0, 3, 0xabcd, 0x1234));

    let mut ip = headers::IpHeader::new(IpAddr::V4([10, 1, 2, 3]), IpAddr::V4([10, 4, 5, 6]), Protocol::UDP);
    ip.tos = 7;
    ip.packet_len = 300;
    ip.identification = 0x4242;
    ip.ttl = 3;
    let encoded = ip.make();
    assert_eq!(checksum(&encoded, 0), 0);
    let back = headers::IpHeader::parse(&encoded).unwrap();
    assert_eq!((back.tos, back.packet_len, back.identification, back.ttl), (7, 300, 0x4242, 3));
    assert_eq!(back.get_next_protocol(), &17);
    assert_eq!(back.get_src_ip(), &IpAddr::V4([10, 1, 2, 3]));
    assert_eq!(back.get_dst_ip(), &IpAddr::V4([10, 4, 5, 6]));

    let mut tcp = headers::TcpHeader::new(80, 443);
    tcp.set_flag(TcpFlags::Syn);
    tcp.set_flag(TcpFlags::Ack);
    tcp.set_window(1000);
    TransportHeader::set_pseudo_header(&mut tcp, [10, 1, 2, 3], [10, 4, 5, 6], 0);
    let back = headers::TcpHeader::parse(&tcp.make()).unwrap();
    assert_eq!((back.src_port, back.dst_port, back.flags, back.window), (80, 443, 0b0001_0010, 1000));

    let mut udp = headers::UdpHeader::new(53, 5353);
    udp.set_pseudo_header([10, 1, 2, 3], [10, 4, 5, 6], 12);
    assert_eq!(udp.get_length(), &20);
    let back = headers::UdpHeader::parse(&udp.make()).unwrap();
    assert_eq!((back.src_port, back.dst_port, back.length), (53, 5353, 20));
}

#[test]
fn transport_checksums_cover_header_and_pseudo_header() {
    let mut tcp = headers::TcpHeader::new(3838, 3838);
    tcp.set_pseudo_header([192, 168, 1, 128], [192, 168, 1, 38], 34);
    let bytes = tcp.make();
    // pseudo-header: both addresses, protocol 6, segment length 54
    let pseudo: u32 = 0xc0a8 + 0x0180 + 0xc0a8 + 0x0126 + 6 + 54;
    let header: u32 = 3838 + 3838 + 0xffff;
    assert_eq!([bytes[16], bytes[17]], finalize_checksum(pseudo + header).split_to_bytes());

    let mut udp = headers::UdpHeader::new(1, 2);
    udp.set_pseudo_header([0, 0, 0, 1], [0, 0, 0, 2], 4);
    let bytes = udp.make();
    let sum: u32 = 1 + 2 + 17 + 12 + (1 + 2 + 12);
    assert_eq!([bytes[6], bytes[7]], finalize_checksum(sum).split_to_bytes());
}

#[test]
fn decoding_one_byte_short_fails() {
    let data = [0u8; 40];
    assert_eq!(headers::EthernetHeader::parse(&data[..13]).err(), Some(ParseError::InvalidLength));
    assert!(headers::EthernetHeader::parse(&data[..14]).is_ok());
    assert_eq!(headers::ArpHeader::parse(&data[..27]).err(), Some(ParseError::InvalidLength));
    assert!(headers::ArpHeader::parse(&data[..28]).is_ok());
    assert_eq!(headers::IpHeader::parse(&data[..19]).err(), Some(ParseError::InvalidLength));
    assert!(headers::IpHeader::parse(&data[..20]).is_ok());
    assert_eq!(headers::IcmpHeader::parse(&data[..7]).err(), Some(ParseError::InvalidLength));
    assert!(headers::IcmpHeader::parse(&data[..8]).is_ok());
    assert_eq!(headers::TcpHeader::parse(&data[..19]).err(), Some(ParseError::InvalidLength));
    assert!(headers::TcpHeader::parse(&data[..20]).is_ok());
    assert_eq!(headers::UdpHeader::parse(&data[..7]).err(), Some(ParseError::InvalidLength));
    assert!(headers::UdpHeader::parse(&data[..8]).is_ok());
}

#[test]
fn updating_with_stored_values_keeps_bytes() {
    let mut p = Packet::new(vec![Protocol::ETH, Protocol::IP, Protocol::ICMP]);
    p.add_header(headers::EthernetHeader::new([6, 5, 4, 3, 2, 1], [1, 2, 3, 4, 5, 6], 0x0800));
    p.add_header(headers::IpHeader::new(IpAddr::V4([10, 0, 0, 1]), IpAddr::V4([10, 0, 0, 2]), Protocol::ICMP));
    p.add_header(headers::IcmpHeader::new(8, 0, 1, 2));
    let before = p.get_header_as_slice(Protocol::ETH).unwrap().to_vec();
    let eth = p.get_eth_header().unwrap();
    p.update_header(eth);
    let ip = p.get_ip_header().unwrap();
    p.update_header(ip);
    let icmp = p.get_icmp_header().unwrap();
    p.update_header(icmp);
    assert_eq!(p.get_header_as_slice(Protocol::ETH).unwrap(), &before[..]);
}

#[test]
fn update_header_without_existing_header_adds_it() {
    let mut p = Packet::new_empty();
    p.update_header(headers::EthernetHeader::new([1; 6], [2; 6], 0x0800));
    assert_eq!(p.get_header_as_slice(Protocol::ETH).unwrap().len(), 14);
    assert!(p.get_header_as_slice(Protocol::IP).is_none());
}

#[test]
fn parse_errors() {
    // ARP frame type: not implemented
    let mut arp_frame = vec![1, 2, 3, 4, 5, 6, 6, 5, 4, 3, 2, 1, 0x08, 0x06];
    arp_frame.extend_from_slice(&[0; 28]);
    assert_eq!(Packet::parse(&arp_frame).err(), Some(ParseError::NotYetImplemented));
    let ipv6_frame = vec![1, 2, 3, 4, 5, 6, 6, 5, 4, 3, 2, 1, 0x86, 0xdd];
    assert_eq!(Packet::parse(&ipv6_frame).err(), Some(ParseError::NotYetImplemented));
    // unknown frame type
    let odd_frame = vec![1, 2, 3, 4, 5, 6, 6, 5, 4, 3, 2, 1, 0x12, 0x34];
    assert_eq!(Packet::parse(&odd_frame).err(), Some(ParseError::InvalidFormat));
    // too short for a frame header
    assert_eq!(Packet::parse(&[1, 2, 3]).err(), Some(ParseError::InvalidLength));
    assert_eq!(Packet::parse(&[]).err(), Some(ParseError::InvalidLength));
    // IP header with next protocol 2 (IGMP): not one of ours
    let mut ip = IP_SAMPLE.to_vec();
    ip[9] = 2;
    assert_eq!(Packet::parse(&ip).err(), Some(ParseError::InvalidFormat));
    // IP header saying TCP, but no room for it
    ip[9] = 6;
    assert_eq!(Packet::parse(&ip).err(), Some(ParseError::InvalidLength));
}

#[test]
fn parse_ip_udp_and_ip_in_ip() {
    let mut p = Packet::new_empty();
    p.add_header(headers::IpHeader::new(IpAddr::V4([1, 1, 1, 1]), IpAddr::V4([2, 2, 2, 2]), Protocol::IP));
    p.add_header(headers::IpHeader::new(IpAddr::V4([3, 3, 3, 3]), IpAddr::V4([4, 4, 4, 4]), Protocol::UDP));
    p.add_header(headers::UdpHeader::new(7, 9));
    let data = p.into_vec();
    assert_eq!(data.len(), 48);
    let parsed = Packet::parse(&data).unwrap();
    // the inner IP header replaces the outer one in the index
    let ip = parsed.get_ip_header().unwrap();
    assert_eq!(ip.get_src_ip(), &IpAddr::V4([3, 3, 3, 3]));
    let udp = parsed.get_udp_header().unwrap();
    assert_eq!((udp.src_port, udp.dst_port), (7, 9));
    assert_eq!(parsed.get_header_as_slice(Protocol::UDP).unwrap().len(), 8);
    assert!(parsed.get_eth_header().is_none());
    assert!(parsed.get_arp_header().is_none());
}

#[test]
fn tcp_flags_accumulate() {
    let mut tcp = headers::TcpHeader::new(1, 2);
    tcp.set_flag(TcpFlags::Fin);
    tcp.set_flag(TcpFlags::Psh);
    tcp.set_flag(TcpFlags::Urg);
    tcp.set_flag(TcpFlags::Rst);
    assert_eq!(tcp.get_flags(), &0b0010_1101);
    tcp.set_flag(TcpFlags::Fin);
    assert_eq!(tcp.get_flags(), &0b0010_1101);
}

#[test]
fn protocol_tables() {
    assert_eq!(Protocol::ETH.min_header_len(), 14);
    assert_eq!(Protocol::ARP.min_header_len(), 28);
    assert_eq!(Protocol::ICMP.min_header_len(), 8);
    assert_eq!(Protocol::TCP.min_header_len(), 20);
    assert_eq!(Protocol::UDP.min_header_len(), 8);
    assert_eq!(Protocol::IP.min_header_len(), 20);
    assert_eq!(Protocol::TCP.protocol_number(), 6);
    assert_eq!(Protocol::UDP.protocol_number(), 17);
    assert_eq!(Protocol::ICMP.protocol_number(), 1);
    assert_eq!(Protocol::IP.protocol_number(), 4);
    assert_eq!(Protocol::ETH.protocol_number(), 97);
    assert_eq!(Protocol::from_number(17), Some(Protocol::UDP));
    assert_eq!(Protocol::from_number(2), None);
    assert_eq!(Protocol::ETH.name(), "Ethernet");
    assert_eq!(Protocol::ARP.name(), "Arp");
}

#[test]
fn parse_error_messages() {
    assert_eq!(ParseError::InvalidCharacter.get_msg(), "invalid character encountered");
    assert_eq!(ParseError::InvalidLength.get_msg(), "invalid length for the protocol format");
    assert_eq!(ParseError::InvalidFormat.get_msg(), "invalid format of data for the protocol");
    assert_eq!(
        ParseError::NotYetImplemented.get_msg(),
        "the implementation for parsing this type of packet has not yet been made"
    );
}

#[test]
fn pseudo_header_takes_ip_addresses_and_data_length() {
    let p = eth_ip_tcp_packet();
    let data = p.into_vec();
    let mut tcp = headers::TcpHeader::new(3838, 3838);
    tcp.set_pseudo_header([192, 168, 1, 128], [192, 168, 1, 38], 34);
    assert_eq!(&data[34..], &tcp.make()[..]);
}
