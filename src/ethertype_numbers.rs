//! EtherType codes of the link-layer frame type field.

use vstd::prelude::*;

verus! {

/// IPv4
pub const ETHERTYPE_IPV4: u16 = 0x0800;
/// ARP
pub const ETHERTYPE_ARP: u16 = 0x0806;
/// Reverse Address Resolution Protocol
pub const ETHERTYPE_RARP: u16 = 0x8035;
/// IPv6
pub const ETHERTYPE_IPV6: u16 = 0x86DD;
/// Link Layer Discovery Protocol
pub const ETHERTYPE_LLDP: u16 = 0x88CC;

} // verus!
