//! Protocol headers decoded from their packed, network-order wire layout.
//!
//! Multi-byte numeric fields are decoded big-endian into host values;
//! checksum fields are kept in the little-endian order in which the checksum
//! engine produces them, so that a stored checksum compares directly with a
//! computed one.
use vstd::prelude::*;
use crate::addr::{IPv4Addr, IPv6Addr, MACAddr};
use crate::bytes::{be16, be32, le16, read_be16, read_be32, read_le16};
use crate::checksum::Checksum;

verus! {

pub const ETHERNET_LEN: usize = 14;
pub const ARP_LEN: usize = 28;
pub const IPV4_MIN_LEN: usize = 20;
pub const ICMP_LEN: usize = 8;
pub const TCP_LEN: usize = 20;
pub const UDP_LEN: usize = 8;
pub const IPV6_LEN: usize = 40;
pub const ICMPV6_LEN: usize = 8;

pub const ETHERTYPE_IPV4: u16 = 0x0800;
pub const ETHERTYPE_ARP: u16 = 0x0806;
pub const ETHERTYPE_IPV6: u16 = 0x86DD;

pub const IP_PROTO_ICMP: u8 = 0x01;
pub const IP_PROTO_TCP: u8 = 0x06;
pub const IP_PROTO_UDP: u8 = 0x11;

pub const ARP_OPER_REQUEST: u16 = 0x0001;
pub const ARP_OPER_REPLY: u16 = 0x0002;

pub const ICMP_ECHO_REQUEST: u8 = 0x08;
pub const ICMP_ECHO_REPLY: u8 = 0x00;

/// Ethernet II: destination, source, ethertype.
pub struct EthernetII {
    pub dst: MACAddr,
    pub src: MACAddr,
    pub _type: u16,
}

/// ARP for IPv4 over Ethernet.
pub struct ARP {
    pub htype: u16,
    pub ptype: u16,
    pub hlen: u8,
    pub plen: u8,
    pub oper: u16,
    pub src_mac: MACAddr,
    pub src_ip: IPv4Addr,
    pub dst_mac: MACAddr,
    pub dst_ip: IPv4Addr,
}

/// The fixed part of an IPv4 header.
pub struct IPv4 {
    pub ver_hlen: u8,
    pub services: u8,
    pub len: u16,
    pub id: u16,
    pub flags_fragment: u16,
    pub ttl: u8,
    pub proto: u8,
    pub checksum: Checksum,
    pub src: IPv4Addr,
    pub dst: IPv4Addr,
}

/// ICMP: type, code, checksum and the four bytes that follow.
pub struct ICMP {
    pub _type: u8,
    pub code: u8,
    pub checksum: Checksum,
    pub data: [u8; 4],
}

/// TCP, without options.
pub struct TCP {
    pub src: [u8; 2],
    pub dst: [u8; 2],
    pub sequence: u32,
    pub ack_num: u32,
    pub flags: u16,
    pub window_size: u16,
    pub checksum: Checksum,
    pub urgent_pointer: u16,
}

/// UDP.
pub struct UDP {
    pub src: [u8; 2],
    pub dst: [u8; 2],
    pub len: u16,
    pub checksum: Checksum,
}

/// The fixed IPv6 header.
pub struct IPv6 {
    pub version: u32,
    pub len: u16,
    pub next_header: u8,
    pub hop_limit: u8,
    pub src: IPv6Addr,
    pub dst: IPv6Addr,
}

/// ICMPv6: type, code, checksum and message body word.
pub struct ICMPv6 {
    pub _type: u8,
    pub code: u8,
    pub checksum: Checksum,
    pub body: u32,
}

impl EthernetII {
    pub open spec fn decoded_from(&self, s: Seq<u8>, o: int) -> bool {
        &&& self.dst.bytes@ == s.subrange(o, o + 6)
        &&& self.src.bytes@ == s.subrange(o + 6, o + 12)
        &&& self._type == be16(s, o + 12)
    }

    pub fn read(buf: &[u8], o: usize) -> (r: EthernetII)
        requires
            o + ETHERNET_LEN <= buf.len(),
        ensures
            r.decoded_from(buf@, o as int),
    {
        EthernetII {
            dst: MACAddr::read(buf, o),
            src: MACAddr::read(buf, o + 6),
            _type: read_be16(buf, o + 12),
        }
    }
}

impl ARP {
    pub open spec fn decoded_from(&self, s: Seq<u8>, o: int) -> bool {
        &&& self.htype == be16(s, o)
        &&& self.ptype == be16(s, o + 2)
        &&& self.hlen == s[o + 4]
        &&& self.plen == s[o + 5]
        &&& self.oper == be16(s, o + 6)
        &&& self.src_mac.bytes@ == s.subrange(o + 8, o + 14)
        &&& self.src_ip.bytes@ == s.subrange(o + 14, o + 18)
        &&& self.dst_mac.bytes@ == s.subrange(o + 18, o + 24)
        &&& self.dst_ip.bytes@ == s.subrange(o + 24, o + 28)
    }

    pub fn read(buf: &[u8], o: usize) -> (r: ARP)
        requires
            o + ARP_LEN <= buf.len(),
        ensures
            r.decoded_from(buf@, o as int),
    {
        ARP {
            htype: read_be16(buf, o),
            ptype: read_be16(buf, o + 2),
            hlen: buf[o + 4],
            plen: buf[o + 5],
            oper: read_be16(buf, o + 6),
            src_mac: MACAddr::read(buf, o + 8),
            src_ip: IPv4Addr::read(buf, o + 14),
            dst_mac: MACAddr::read(buf, o + 18),
            dst_ip: IPv4Addr::read(buf, o + 24),
        }
    }
}

impl IPv4 {
    pub open spec fn decoded_from(&self, s: Seq<u8>, o: int) -> bool {
        &&& self.ver_hlen == s[o]
        &&& self.services == s[o + 1]
        &&& self.len == be16(s, o + 2)
        &&& self.id == be16(s, o + 4)
        &&& self.flags_fragment == be16(s, o + 6)
        &&& self.ttl == s[o + 8]
        &&& self.proto == s[o + 9]
        &&& self.checksum.data == le16(s, o + 10)
        &&& self.src.bytes@ == s.subrange(o + 12, o + 16)
        &&& self.dst.bytes@ == s.subrange(o + 16, o + 20)
    }

    /// Header length in bytes: the low nibble of the first byte, in words.
    pub open spec fn spec_header_len(&self) -> nat {
        (self.ver_hlen % 16) as nat * 4
    }

    pub fn header_len(&self) -> (r: usize)
        ensures
            r == self.spec_header_len(),
    {
        (self.ver_hlen % 16) as usize * 4
    }

    pub fn read(buf: &[u8], o: usize) -> (r: IPv4)
        requires
            o + IPV4_MIN_LEN <= buf.len(),
        ensures
            r.decoded_from(buf@, o as int),
    {
        IPv4 {
            ver_hlen: buf[o],
            services: buf[o + 1],
            len: read_be16(buf, o + 2),
            id: read_be16(buf, o + 4),
            flags_fragment: read_be16(buf, o + 6),
            ttl: buf[o + 8],
            proto: buf[o + 9],
            checksum: Checksum { data: read_le16(buf, o + 10) },
            src: IPv4Addr::read(buf, o + 12),
            dst: IPv4Addr::read(buf, o + 16),
        }
    }
}

impl ICMP {
    pub open spec fn decoded_from(&self, s: Seq<u8>, o: int) -> bool {
        &&& self._type == s[o]
        &&& self.code == s[o + 1]
        &&& self.checksum.data == le16(s, o + 2)
        &&& self.data@ == s.subrange(o + 4, o + 8)
    }

    pub fn read(buf: &[u8], o: usize) -> (r: ICMP)
        requires
            o + ICMP_LEN <= buf.len(),
        ensures
            r.decoded_from(buf@, o as int),
    {
        let data: [u8; 4] = [buf[o + 4], buf[o + 5], buf[o + 6], buf[o + 7]];
        assert(data@ =~= buf@.subrange(o + 4, o + 8));
        ICMP {
            _type: buf[o],
            code: buf[o + 1],
            checksum: Checksum { data: read_le16(buf, o + 2) },
            data,
        }
    }
}

/// The two bytes of a port field.
fn read_port(buf: &[u8], o: usize) -> (r: [u8; 2])
    requires
        o + 2 <= buf.len(),
    ensures
        r@ == buf@.subrange(o as int, o + 2),
{
    let r: [u8; 2] = [buf[o], buf[o + 1]];
    assert(r@ =~= buf@.subrange(o as int, o + 2));
    r
}

impl TCP {
    pub open spec fn decoded_from(&self, s: Seq<u8>, o: int) -> bool {
        &&& self.src@ == s.subrange(o, o + 2)
        &&& self.dst@ == s.subrange(o + 2, o + 4)
        &&& self.sequence == be32(s, o + 4)
        &&& self.ack_num == be32(s, o + 8)
        &&& self.flags == be16(s, o + 12)
        &&& self.window_size == be16(s, o + 14)
        &&& self.checksum.data == le16(s, o + 16)
        &&& self.urgent_pointer == be16(s, o + 18)
    }

    pub fn read(buf: &[u8], o: usize) -> (r: TCP)
        requires
            o + TCP_LEN <= buf.len(),
        ensures
            r.decoded_from(buf@, o as int),
    {
        TCP {
            src: read_port(buf, o),
            dst: read_port(buf, o + 2),
            sequence: read_be32(buf, o + 4),
            ack_num: read_be32(buf, o + 8),
            flags: read_be16(buf, o + 12),
            window_size: read_be16(buf, o + 14),
            checksum: Checksum { data: read_le16(buf, o + 16) },
            urgent_pointer: read_be16(buf, o + 18),
        }
    }
}

impl UDP {
    pub open spec fn decoded_from(&self, s: Seq<u8>, o: int) -> bool {
        &&& self.src@ == s.subrange(o, o + 2)
        &&& self.dst@ == s.subrange(o + 2, o + 4)
        &&& self.len == be16(s, o + 4)
        &&& self.checksum.data == le16(s, o + 6)
    }

    pub fn read(buf: &[u8], o: usize) -> (r: UDP)
        requires
            o + UDP_LEN <= buf.len(),
        ensures
            r.decoded_from(buf@, o as int),
    {
        UDP {
            src: read_port(buf, o),
            dst: read_port(buf, o + 2),
            len: read_be16(buf, o + 4),
            checksum: Checksum { data: read_le16(buf, o + 6) },
        }
    }
}

impl IPv6 {
    pub open spec fn decoded_from(&self, s: Seq<u8>, o: int) -> bool {
        &&& self.version == be32(s, o)
        &&& self.len == be16(s, o + 4)
        &&& self.next_header == s[o + 6]
        &&& self.hop_limit == s[o + 7]
        &&& self.src.bytes@ == s.subrange(o + 8, o + 24)
        &&& self.dst.bytes@ == s.subrange(o + 24, o + 40)
    }

    pub fn read(buf: &[u8], o: usize) -> (r: IPv6)
        requires
            o + IPV6_LEN <= buf.len(),
        ensures
            r.decoded_from(buf@, o as int),
    {
        IPv6 {
            version: read_be32(buf, o),
            len: read_be16(buf, o + 4),
            next_header: buf[o + 6],
            hop_limit: buf[o + 7],
            src: IPv6Addr::read(buf, o + 8),
            dst: IPv6Addr::read(buf, o + 24),
        }
    }
}

impl ICMPv6 {
    pub open spec fn decoded_from(&self, s: Seq<u8>, o: int) -> bool {
        &&& self._type == s[o]
        &&& self.code == s[o + 1]
        &&& self.checksum.data == le16(s, o + 2)
        &&& self.body == be32(s, o + 4)
    }

    pub fn read(buf: &[u8], o: usize) -> (r: ICMPv6)
        requires
            o + ICMPV6_LEN <= buf.len(),
        ensures
            r.decoded_from(buf@, o as int),
    {
        ICMPv6 {
            _type: buf[o],
            code: buf[o + 1],
            checksum: Checksum { data: read_le16(buf, o + 2) },
            body: read_be32(buf, o + 4),
        }
    }
}

} // verus!
