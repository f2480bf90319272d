use vstd::prelude::*;

use crate::protocol_numbers;

verus! {

/// The protocol of a header: the key under which a packet indexes its headers.
#[derive(PartialEq, Eq, Hash, Debug, Clone, Copy, Structural)]
pub enum Protocol {
    ETH,
    ARP,
    ICMP,
    TCP,
    UDP,
    IP,
}

/// The protocol that an IP protocol number names, where it is one of ours.
pub open spec fn protocol_of_number(p: u8) -> Option<Protocol> {
    if p == protocol_numbers::IPPROTO_ETHERIP {
        Some(Protocol::ETH)
    } else if p == protocol_numbers::IPPROTO_ICMP {
        Some(Protocol::ICMP)
    } else if p == protocol_numbers::IPPROTO_TCP {
        Some(Protocol::TCP)
    } else if p == protocol_numbers::IPPROTO_UDP {
        Some(Protocol::UDP)
    } else if p == protocol_numbers::IPPROTO_IPV4 {
        Some(Protocol::IP)
    } else {
        None
    }
}

impl Protocol {
    /// The minimum length in bytes of a header of this protocol.
    pub open spec fn min_len(self) -> nat {
        match self {
            Protocol::ETH => 14,
            Protocol::ARP => 28,
            Protocol::ICMP => 8,
            Protocol::TCP => 20,
            Protocol::UDP => 8,
            Protocol::IP => 20,
        }
    }

    /// The IP protocol number (RFC 1700) of a protocol other than ARP.
    pub open spec fn number(self) -> u8 {
        match self {
            Protocol::ETH => protocol_numbers::IPPROTO_ETHERIP,
            Protocol::ICMP => protocol_numbers::IPPROTO_ICMP,
            Protocol::TCP => protocol_numbers::IPPROTO_TCP,
            Protocol::UDP => protocol_numbers::IPPROTO_UDP,
            Protocol::IP => protocol_numbers::IPPROTO_IPV4,
            Protocol::ARP => 0,
        }
    }

    /// The position of this protocol in a table with one entry per protocol.
    pub open spec fn slot(self) -> nat {
        match self {
            Protocol::ETH => 0,
            Protocol::ARP => 1,
            Protocol::ICMP => 2,
            Protocol::TCP => 3,
            Protocol::UDP => 4,
            Protocol::IP => 5,
        }
    }

    /// Returns the minimum length in bytes of a header of this protocol.
    pub fn min_header_len(&self) -> (r: u8)
        ensures
            r as nat == self.min_len(),
    {
        match self {
            Protocol::ETH => 14,
            Protocol::ARP => 28,
            Protocol::ICMP => 8,
            Protocol::TCP => 20,
            Protocol::UDP => 8,
            Protocol::IP => 20,
        }
    }

    /// Returns the IP protocol number of this protocol. ARP has none.
    pub fn protocol_number(&self) -> (r: u8)
        requires
            *self != Protocol::ARP,
        ensures
            r == self.number(),
    {
        match self {
            Protocol::ETH => protocol_numbers::IPPROTO_ETHERIP,
            Protocol::ICMP => protocol_numbers::IPPROTO_ICMP,
            Protocol::TCP => protocol_numbers::IPPROTO_TCP,
            Protocol::UDP => protocol_numbers::IPPROTO_UDP,
            Protocol::IP => protocol_numbers::IPPROTO_IPV4,
            Protocol::ARP => 0,
        }
    }

    /// Returns the protocol that an IP protocol number names, if it is one
    /// of ours.
    pub fn from_number(p: u8) -> (r: Option<Protocol>)
        ensures
            r == protocol_of_number(p),
            r matches Some(q) ==> q != Protocol::ARP && q.number() == p,
    {
        if p == protocol_numbers::IPPROTO_ETHERIP {
            Some(Protocol::ETH)
        } else if p == protocol_numbers::IPPROTO_ICMP {
            Some(Protocol::ICMP)
        } else if p == protocol_numbers::IPPROTO_TCP {
            Some(Protocol::TCP)
        } else if p == protocol_numbers::IPPROTO_UDP {
            Some(Protocol::UDP)
        } else if p == protocol_numbers::IPPROTO_IPV4 {
            Some(Protocol::IP)
        } else {
            None
        }
    }

    /// Returns the name of the protocol.
    pub fn name(&self) -> (r: &'static str)
        ensures
            r@ == self.name_spec(),
    {
        match self {
            Protocol::ETH => "Ethernet",
            Protocol::ARP => "Arp",
            Protocol::ICMP => "ICMP",
            Protocol::TCP => "TCP",
            Protocol::UDP => "UDP",
            Protocol::IP => "IP",
        }
    }

    pub open spec fn name_spec(self) -> Seq<char> {
        match self {
            Protocol::ETH => "Ethernet"@,
            Protocol::ARP => "Arp"@,
            Protocol::ICMP => "ICMP"@,
            Protocol::TCP => "TCP"@,
            Protocol::UDP => "UDP"@,
            Protocol::IP => "IP"@,
        }
    }

    /// Returns the position of this protocol in a table with one entry per
    /// protocol.
    pub(crate) fn slot_index(&self) -> (r: usize)
        ensures
            r as nat == self.slot(),
            r < 6,
    {
        match self {
            Protocol::ETH => 0,
            Protocol::ARP => 1,
            Protocol::ICMP => 2,
            Protocol::TCP => 3,
            Protocol::UDP => 4,
            Protocol::IP => 5,
        }
    }
}

pub proof fn lemma_slot_injective(p: Protocol, q: Protocol)
    ensures
        p.slot() == q.slot() ==> p == q,
{
}

} // verus!
