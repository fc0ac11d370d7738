//! Layer-by-layer decoding of received Ethernet frames, and the in-place
//! synthesis of ARP and ICMP echo replies.
//!
//! A frame is the `len` bytes of a buffer that start at offset `o`. Replies
//! are written over the request's own bytes, ready to be transmitted from
//! the same place.
use vstd::prelude::*;
use crate::addr::{HostConfig, IPv4Addr, MACAddr};
use crate::bytes::{be16, put, put_bytes, read_be16};
use crate::checksum::{checksum_of, checksum_valid, lemma_embedded_checksum_verifies, with_word, Checksum};
use crate::headers::{
    ARP, ARP_OPER_REPLY, ARP_OPER_REQUEST, ICMP_ECHO_REPLY, ICMP_ECHO_REQUEST, ICMP_LEN, ARP_LEN, ETHERNET_LEN, ETHERTYPE_ARP, ETHERTYPE_IPV4, ETHERTYPE_IPV6, EthernetII, ICMP,
    IPV4_MIN_LEN, IPV6_LEN, IPv4, IPv6, IP_PROTO_ICMP, IP_PROTO_TCP, IP_PROTO_UDP, TCP, TCP_LEN,
    UDP, UDP_LEN,
};

verus! {

/// What a frame decodes to.
pub enum Frame {
    Arp(EthernetII, ARP),
    Icmp(EthernetII, IPv4, ICMP),
    Tcp(EthernetII, IPv4, TCP),
    Udp(EthernetII, IPv4, UDP),
    /// IPv4 with another protocol, or whose transport header does not fit.
    Ipv4(EthernetII, IPv4),
    Ipv6Udp(EthernetII, IPv6, UDP),
    /// IPv6 with another next header, or whose UDP header does not fit.
    Ipv6(EthernetII, IPv6),
    /// Any other ethertype, or a frame too short for its headers: shown raw.
    Unknown,
}

/// The shape of a frame, without its field values.
#[derive(PartialEq, Eq, Structural, Copy, Clone, Debug)]
pub enum FrameKind {
    Arp,
    Icmp,
    Tcp,
    Udp,
    Ipv4,
    Ipv6Udp,
    Ipv6,
    Unknown,
}

impl Frame {
    pub open spec fn kind(&self) -> FrameKind {
        match self {
            Frame::Arp(..) => FrameKind::Arp,
            Frame::Icmp(..) => FrameKind::Icmp,
            Frame::Tcp(..) => FrameKind::Tcp,
            Frame::Udp(..) => FrameKind::Udp,
            Frame::Ipv4(..) => FrameKind::Ipv4,
            Frame::Ipv6Udp(..) => FrameKind::Ipv6Udp,
            Frame::Ipv6(..) => FrameKind::Ipv6,
            Frame::Unknown => FrameKind::Unknown,
        }
    }

    /// Every header the frame holds was decoded from the bytes at its offset.
    pub open spec fn decoded_from(&self, s: Seq<u8>, o: int) -> bool {
        match self {
            Frame::Arp(e, a) => e.decoded_from(s, o) && a.decoded_from(s, o + 14),
            Frame::Icmp(e, ip, t) => e.decoded_from(s, o) && ip.decoded_from(s, o + 14)
                && t.decoded_from(s, o + 14 + ipv4_header_len(s, o)),
            Frame::Tcp(e, ip, t) => e.decoded_from(s, o) && ip.decoded_from(s, o + 14)
                && t.decoded_from(s, o + 14 + ipv4_header_len(s, o)),
            Frame::Udp(e, ip, t) => e.decoded_from(s, o) && ip.decoded_from(s, o + 14)
                && t.decoded_from(s, o + 14 + ipv4_header_len(s, o)),
            Frame::Ipv4(e, ip) => e.decoded_from(s, o) && ip.decoded_from(s, o + 14),
            Frame::Ipv6Udp(e, ip, t) => e.decoded_from(s, o) && ip.decoded_from(s, o + 14)
                && t.decoded_from(s, o + 54),
            Frame::Ipv6(e, ip) => e.decoded_from(s, o) && ip.decoded_from(s, o + 14),
            Frame::Unknown => true,
        }
    }
}

/// The ethertype of the frame at `o`.
pub open spec fn ethertype(s: Seq<u8>, o: int) -> u16 {
    be16(s, o + 12)
}

/// The IPv4 header length, in bytes, of the frame at `o`.
pub open spec fn ipv4_header_len(s: Seq<u8>, o: int) -> int {
    (s[o + 14] % 16) as int * 4
}

/// Whether a transport header of `size` bytes fits after the IPv4 header.
pub open spec fn transport_fits(s: Seq<u8>, o: int, len: int, size: int) -> bool {
    ipv4_header_len(s, o) >= 20 && 14 + ipv4_header_len(s, o) + size <= len
}

/// The shape that the `len` bytes at `o` decode to.
pub open spec fn frame_kind(s: Seq<u8>, o: int, len: int) -> FrameKind {
    if len < 14 {
        FrameKind::Unknown
    } else if ethertype(s, o) == ETHERTYPE_IPV4 {
        if len < 34 {
            FrameKind::Unknown
        } else if s[o + 23] == IP_PROTO_ICMP && transport_fits(s, o, len, 8) {
            FrameKind::Icmp
        } else if s[o + 23] == IP_PROTO_TCP && transport_fits(s, o, len, 20) {
            FrameKind::Tcp
        } else if s[o + 23] == IP_PROTO_UDP && transport_fits(s, o, len, 8) {
            FrameKind::Udp
        } else {
            FrameKind::Ipv4
        }
    } else if ethertype(s, o) == ETHERTYPE_ARP {
        if len < 42 {
            FrameKind::Unknown
        } else {
            FrameKind::Arp
        }
    } else if ethertype(s, o) == ETHERTYPE_IPV6 {
        if len < 54 {
            FrameKind::Unknown
        } else if s[o + 20] == IP_PROTO_UDP && len >= 62 {
            FrameKind::Ipv6Udp
        } else {
            FrameKind::Ipv6
        }
    } else {
        FrameKind::Unknown
    }
}

/// Decodes the frame of `len` bytes at `o`.
pub fn decode_frame(buf: &[u8], o: usize, len: usize) -> (r: Frame)
    requires
        o + len <= buf.len(),
    ensures
        r.kind() == frame_kind(buf@, o as int, len as int),
        r.decoded_from(buf@, o as int),
{
    if len < ETHERNET_LEN {
        return Frame::Unknown;
    }
    let eth = EthernetII::read(buf, o);
    if eth._type == ETHERTYPE_IPV4 {
        if len < ETHERNET_LEN + IPV4_MIN_LEN {
            return Frame::Unknown;
        }
        let ip = IPv4::read(buf, o + ETHERNET_LEN);
        let hl = ip.header_len();
        let fits_small = hl >= IPV4_MIN_LEN && ETHERNET_LEN + hl + 8 <= len;
        let fits_tcp = hl >= IPV4_MIN_LEN && ETHERNET_LEN + hl + TCP_LEN <= len;
        if ip.proto == IP_PROTO_ICMP && fits_small {
            let t = ICMP::read(buf, o + ETHERNET_LEN + hl);
            Frame::Icmp(eth, ip, t)
        } else if ip.proto == IP_PROTO_TCP && fits_tcp {
            let t = TCP::read(buf, o + ETHERNET_LEN + hl);
            Frame::Tcp(eth, ip, t)
        } else if ip.proto == IP_PROTO_UDP && fits_small {
            let t = UDP::read(buf, o + ETHERNET_LEN + hl);
            Frame::Udp(eth, ip, t)
        } else {
            Frame::Ipv4(eth, ip)
        }
    } else if eth._type == ETHERTYPE_ARP {
        if len < ETHERNET_LEN + ARP_LEN {
            return Frame::Unknown;
        }
        Frame::Arp(eth, ARP::read(buf, o + ETHERNET_LEN))
    } else if eth._type == ETHERTYPE_IPV6 {
        if len < ETHERNET_LEN + IPV6_LEN {
            return Frame::Unknown;
        }
        let ip = IPv6::read(buf, o + ETHERNET_LEN);
        if ip.next_header == IP_PROTO_UDP && len >= ETHERNET_LEN + IPV6_LEN + UDP_LEN {
            let t = UDP::read(buf, o + ETHERNET_LEN + IPV6_LEN);
            Frame::Ipv6Udp(eth, ip, t)
        } else {
            Frame::Ipv6(eth, ip)
        }
    } else {
        Frame::Unknown
    }
}


/// An ARP request, for this host's address, at `o`.
pub open spec fn arp_request_for(s: Seq<u8>, o: int, len: int, host: HostConfig) -> bool {
    &&& len >= 42
    &&& ethertype(s, o) == ETHERTYPE_ARP
    &&& be16(s, o + 20) == ARP_OPER_REQUEST
    &&& s.subrange(o + 38, o + 42) == host.ip.bytes@
}

/// The ARP reply written over the request at `o`: the Ethernet destination
/// becomes the requester, the sender fields move to the target fields, and
/// this host's identity fills the sender fields.
pub open spec fn arp_reply_of(s: Seq<u8>, o: int, host: HostConfig) -> Seq<u8> {
    let s1 = put(s, o, s.subrange(o + 6, o + 12));
    let s2 = put(s1, o + 6, host.mac.bytes@);
    let s3 = put(s2, o + 20, seq![0u8, 2u8]);
    let s4 = put(s3, o + 32, s.subrange(o + 22, o + 28));
    let s5 = put(s4, o + 38, s.subrange(o + 28, o + 32));
    let s6 = put(s5, o + 22, host.mac.bytes@);
    put(s6, o + 28, host.ip.bytes@)
}

/// The total length field of the IPv4 header of the frame at `o`.
pub open spec fn ipv4_total_len(s: Seq<u8>, o: int) -> int {
    be16(s, o + 16) as int
}

/// An ICMP echo request, for this host's address, at `o`, whose IPv4
/// datagram lies within the frame.
pub open spec fn echo_request_for(s: Seq<u8>, o: int, len: int, host: HostConfig) -> bool {
    &&& len >= 34
    &&& ethertype(s, o) == ETHERTYPE_IPV4
    &&& s[o + 23] == IP_PROTO_ICMP
    &&& ipv4_header_len(s, o) >= 20
    &&& ipv4_total_len(s, o) >= ipv4_header_len(s, o) + 8
    &&& 14 + ipv4_total_len(s, o) <= len
    &&& s[o + 14 + ipv4_header_len(s, o)] == ICMP_ECHO_REQUEST
    &&& s.subrange(o + 30, o + 34) == host.ip.bytes@
}

/// `s` with a fresh checksum for `s[start .. end]` stored at `field`.
pub open spec fn with_checksum(s: Seq<u8>, start: int, end: int, field: int) -> Seq<u8> {
    with_word(s, field, checksum_of(with_word(s, field, 0).subrange(start, end)))
}

/// The echo reply written over the request at `o`: addresses swapped
/// towards the requester, type set to echo reply, then the ICMP checksum
/// and the IPv4 header checksum recomputed, in that order.
pub open spec fn echo_reply_of(s: Seq<u8>, o: int, host: HostConfig) -> Seq<u8> {
    let hl = ipv4_header_len(s, o);
    let icmp = o + 14 + hl;
    let end = o + 14 + ipv4_total_len(s, o);
    let s1 = put(s, o, s.subrange(o + 6, o + 12));
    let s2 = put(s1, o + 6, host.mac.bytes@);
    let s3 = put(s2, o + 30, s.subrange(o + 26, o + 30));
    let s4 = put(s3, o + 26, host.ip.bytes@);
    let s5 = s4.update(icmp, ICMP_ECHO_REPLY);
    let s6 = with_checksum(s5, icmp, end, icmp + 2);
    with_checksum(s6, o + 14, icmp, o + 24)
}

/// What `respond` does to the buffer and what it asks to send.
pub open spec fn response(s: Seq<u8>, o: int, len: int, host: HostConfig) -> (Seq<u8>, Option<usize>) {
    if arp_request_for(s, o, len, host) {
        (arp_reply_of(s, o, host), Some(42usize))
    } else if echo_request_for(s, o, len, host) {
        (echo_reply_of(s, o, host), Some((14 + ipv4_total_len(s, o)) as usize))
    } else {
        (s, None)
    }
}

/// A range whose checksum field was just filled in verifies.
pub proof fn lemma_with_checksum_verifies(s: Seq<u8>, start: int, end: int, field: int)
    requires
        0 <= start <= field,
        field + 2 <= end <= s.len(),
        (field - start) % 2 == 0,
    ensures
        checksum_valid(with_checksum(s, start, end, field).subrange(start, end)),
{
    let r = s.subrange(start, end);
    let k = field - start;
    let zero = with_word(r, k, 0);
    assert(with_word(s, field, 0).subrange(start, end) =~= zero);
    let c = checksum_of(zero);
    assert(with_checksum(s, start, end, field).subrange(start, end) =~= with_word(r, k, c));
    lemma_embedded_checksum_verifies(r, k);
}

/// An ARP request for this host's address is answered by a 42-byte ARP
/// reply: the opcode becomes reply, the requester's hardware and protocol
/// addresses move to the target fields and to the Ethernet destination, and
/// the sender fields carry this host's hardware and IPv4 address.
pub proof fn lemma_arp_reply(s: Seq<u8>, o: int, len: int, host: HostConfig)
    requires
        0 <= o,
        o + len <= s.len(),
        arp_request_for(s, o, len, host),
    ensures
        response(s, o, len, host) == (arp_reply_of(s, o, host), Some(42usize)),
        arp_reply_of(s, o, host).len() == s.len(),
        be16(arp_reply_of(s, o, host), o + 20) == ARP_OPER_REPLY,
        arp_reply_of(s, o, host).subrange(o, o + 6) == s.subrange(o + 6, o + 12),
        arp_reply_of(s, o, host).subrange(o + 6, o + 12) == host.mac.bytes@,
        arp_reply_of(s, o, host).subrange(o + 12, o + 20) == s.subrange(o + 12, o + 20),
        arp_reply_of(s, o, host).subrange(o + 22, o + 28) == host.mac.bytes@,
        arp_reply_of(s, o, host).subrange(o + 28, o + 32) == host.ip.bytes@,
        arp_reply_of(s, o, host).subrange(o + 28, o + 32) == s.subrange(o + 38, o + 42),
        arp_reply_of(s, o, host).subrange(o + 32, o + 38) == s.subrange(o + 22, o + 28),
        arp_reply_of(s, o, host).subrange(o + 38, o + 42) == s.subrange(o + 28, o + 32),
{
    let t = arp_reply_of(s, o, host);
    assert(t.subrange(o, o + 6) =~= s.subrange(o + 6, o + 12));
    assert(t.subrange(o + 6, o + 12) =~= host.mac.bytes@);
    assert(t.subrange(o + 12, o + 20) =~= s.subrange(o + 12, o + 20));
    assert(t.subrange(o + 22, o + 28) =~= host.mac.bytes@);
    assert(t.subrange(o + 28, o + 32) =~= host.ip.bytes@);
    assert(t.subrange(o + 32, o + 38) =~= s.subrange(o + 22, o + 28));
    assert(t.subrange(o + 38, o + 42) =~= s.subrange(o + 28, o + 32));
    assert(t[o + 20] == 0 && t[o + 21] == 2);
}

/// An ICMP echo request for this host's address is answered by an echo
/// reply of the datagram's length, sent back to the requester from this
/// host's addresses, whose ICMP checksum and IPv4 header checksum both
/// verify over the reply's own bytes.
pub proof fn lemma_echo_reply(s: Seq<u8>, o: int, len: int, host: HostConfig)
    requires
        0 <= o,
        o + len <= s.len(),
        echo_request_for(s, o, len, host),
    ensures
        response(s, o, len, host) == (echo_reply_of(s, o, host), Some(
            (14 + ipv4_total_len(s, o)) as usize,
        )),
        echo_reply_of(s, o, host).len() == s.len(),
        ipv4_header_len(echo_reply_of(s, o, host), o) == ipv4_header_len(s, o),
        ipv4_total_len(echo_reply_of(s, o, host), o) == ipv4_total_len(s, o),
        echo_reply_of(s, o, host)[o + 14 + ipv4_header_len(s, o)] == ICMP_ECHO_REPLY,
        echo_reply_of(s, o, host).subrange(o, o + 6) == s.subrange(o + 6, o + 12),
        echo_reply_of(s, o, host).subrange(o + 6, o + 12) == host.mac.bytes@,
        s.subrange(o, o + 6) == host.mac.bytes@ ==> echo_reply_of(s, o, host).subrange(o + 6, o + 12)
            == s.subrange(o, o + 6),
        echo_reply_of(s, o, host).subrange(o + 26, o + 30) == s.subrange(o + 30, o + 34),
        echo_reply_of(s, o, host).subrange(o + 30, o + 34) == s.subrange(o + 26, o + 30),
        checksum_valid(echo_reply_of(s, o, host).subrange(o + 14, o + 14 + ipv4_header_len(s, o))),
        checksum_valid(
            echo_reply_of(s, o, host).subrange(
                o + 14 + ipv4_header_len(s, o),
                o + 14 + ipv4_total_len(s, o),
            ),
        ),
{
    let hl = ipv4_header_len(s, o);
    let icmp = o + 14 + hl;
    let end = o + 14 + ipv4_total_len(s, o);
    let s1 = put(s, o, s.subrange(o + 6, o + 12));
    let s2 = put(s1, o + 6, host.mac.bytes@);
    let s3 = put(s2, o + 30, s.subrange(o + 26, o + 30));
    let s4 = put(s3, o + 26, host.ip.bytes@);
    let s5 = s4.update(icmp, ICMP_ECHO_REPLY);
    let s6 = with_checksum(s5, icmp, end, icmp + 2);
    let t = with_checksum(s6, o + 14, icmp, o + 24);
    assert(t == echo_reply_of(s, o, host));
    lemma_with_checksum_verifies(s5, icmp, end, icmp + 2);
    lemma_with_checksum_verifies(s6, o + 14, icmp, o + 24);
    assert(t.subrange(icmp, end) =~= s6.subrange(icmp, end));
    assert(t[o + 14] == s[o + 14]);
    assert(t[o + 16] == s[o + 16] && t[o + 17] == s[o + 17]);
    assert(t[icmp] == ICMP_ECHO_REPLY);
    assert(t.subrange(o, o + 6) =~= s.subrange(o + 6, o + 12));
    assert(t.subrange(o + 6, o + 12) =~= host.mac.bytes@);
    assert(t.subrange(o + 26, o + 30) =~= host.ip.bytes@);
    assert(t.subrange(o + 30, o + 34) =~= s.subrange(o + 26, o + 30));
    assert(!arp_request_for(s, o, len, host));
}

/// Zeroes the 16-bit field at `field`, computes the checksum of
/// `buf[start .. start + len]` and stores it in the field.
pub fn embed_checksum(buf: &mut [u8], start: usize, len: usize, field: usize)
    requires
        start <= field,
        field + 2 <= start + len,
        start + len <= old(buf).len(),
    ensures
        final(buf)@ == with_checksum(old(buf)@, start as int, start + len, field as int),
{
    buf[field] = 0;
    buf[field + 1] = 0;
    let ghost zeroed = buf@;
    assert(zeroed =~= with_word(old(buf)@, field as int, 0));
    let mut c = Checksum { data: 0 };
    c.calculate(buf, start, len);
    buf[field] = (c.data % 256) as u8;
    buf[field + 1] = (c.data / 256) as u8;
    assert(buf@ =~= with_checksum(old(buf)@, start as int, start + len, field as int));
}

/// Turns the ARP request at `o` into this host's reply.
fn write_arp_reply(buf: &mut [u8], o: usize, host: &HostConfig)
    requires
        o + 42 <= old(buf).len(),
    ensures
        final(buf)@ == arp_reply_of(old(buf)@, o as int, *host),
{
    let requester = MACAddr::read(buf, o + 6);
    let sender_mac = MACAddr::read(buf, o + 22);
    let sender_ip = IPv4Addr::read(buf, o + 28);
    let reply: [u8; 2] = [0, 2];
    assert(reply@ =~= seq![0u8, 2u8]);
    put_bytes(buf, o, &requester.bytes);
    put_bytes(buf, o + 6, &host.mac.bytes);
    put_bytes(buf, o + 20, &reply);
    put_bytes(buf, o + 32, &sender_mac.bytes);
    put_bytes(buf, o + 38, &sender_ip.bytes);
    put_bytes(buf, o + 22, &host.mac.bytes);
    put_bytes(buf, o + 28, &host.ip.bytes);
}

/// Turns the ICMP echo request at `o` into this host's reply.
fn write_echo_reply(buf: &mut [u8], o: usize, hl: usize, total: usize, host: &HostConfig)
    requires
        hl == ipv4_header_len(old(buf)@, o as int),
        total == ipv4_total_len(old(buf)@, o as int),
        hl >= 20,
        total >= hl + 8,
        o + 14 + total <= old(buf).len(),
    ensures
        final(buf)@ == echo_reply_of(old(buf)@, o as int, *host),
{
    let requester = MACAddr::read(buf, o + 6);
    let sender_ip = IPv4Addr::read(buf, o + 26);
    put_bytes(buf, o, &requester.bytes);
    put_bytes(buf, o + 6, &host.mac.bytes);
    put_bytes(buf, o + 30, &sender_ip.bytes);
    put_bytes(buf, o + 26, &host.ip.bytes);
    buf[o + 14 + hl] = ICMP_ECHO_REPLY;
    embed_checksum(buf, o + 14 + hl, total - hl, o + 14 + hl + 2);
    embed_checksum(buf, o + 14, hl, o + 24);
}

/// Answers the frame at `o` in place where it is an ARP request or an ICMP
/// echo request for this host, and returns how many bytes from `o` to send.
/// Any other frame is left as it is and nothing is sent.
pub fn respond(buf: &mut [u8], o: usize, len: usize, host: &HostConfig) -> (r: Option<usize>)
    requires
        o + len <= old(buf).len(),
    ensures
        (final(buf)@, r) == response(old(buf)@, o as int, len as int, *host),
{
    if len < ETHERNET_LEN {
        return None;
    }
    let ty = read_be16(buf, o + 12);
    if ty == ETHERTYPE_ARP && len >= ETHERNET_LEN + ARP_LEN {
        let oper = read_be16(buf, o + 20);
        let target = IPv4Addr::read(buf, o + 38);
        if oper == ARP_OPER_REQUEST && target.equals(host.ip) {
            write_arp_reply(buf, o, host);
            return Some(ETHERNET_LEN + ARP_LEN);
        }
        return None;
    }
    if ty == ETHERTYPE_IPV4 && len >= ETHERNET_LEN + IPV4_MIN_LEN {
        let ip = IPv4::read(buf, o + ETHERNET_LEN);
        let hl = ip.header_len();
        let total = ip.len as usize;
        if ip.proto == IP_PROTO_ICMP && hl >= IPV4_MIN_LEN && total >= hl + ICMP_LEN
            && ETHERNET_LEN + total <= len && buf[o + ETHERNET_LEN + hl] == ICMP_ECHO_REQUEST
            && ip.dst.equals(host.ip) {
            write_echo_reply(buf, o, hl, total, host);
            return Some(ETHERNET_LEN + total);
        }
    }
    None
}

} // verus!
