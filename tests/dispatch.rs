use netdriver::addr::{HostConfig, IPv4Addr, MACAddr};
use netdriver::checksum::Checksum;
use netdriver::dispatch::{decode_frame, embed_checksum, respond, Frame};

const HOST_MAC: [u8; 6] = [0x52, 0x54, 0x00, 0x12, 0x34, 0x56];
const PEER_MAC: [u8; 6] = [0x52, 0x54, 0x00, 0xaa, 0xbb, 0xcc];

fn host() -> HostConfig {
    HostConfig { mac: MACAddr { bytes: HOST_MAC }, ip: IPv4Addr { bytes: [10, 85, 85, 2] } }
}

fn arp_request(target: [u8; 4]) -> Vec<u8> {
    let mut f = vec![0xff; 6];
    f.extend(PEER_MAC);
    f.extend([0x08, 0x06, 0x00, 0x01, 0x08, 0x00, 6, 4, 0x00, 0x01]);
    f.extend(PEER_MAC);
    f.extend([10, 85, 85, 5]);
    f.extend([0u8; 6]);
    f.extend(target);
    f
}

fn echo_request() -> Vec<u8> {
    let mut f = HOST_MAC.to_vec();
    f.extend(PEER_MAC);
    f.extend([0x08, 0x00]);
    f.extend([0x45, 0x00, 0x00, 0x54, 0x12, 0x34, 0x40, 0x00, 0x40, 0x01, 0, 0]);
    f.extend([10, 85, 85, 5, 10, 85, 85, 2]);
    f.extend([0x08, 0x00, 0, 0, 0x00, 0x07, 0x00, 0x01]);
    f.extend((0..56).map(|i| i as u8));
    assert_eq!(f.len(), 98);
    embed_checksum(&mut f, 34, 64, 36);
    embed_checksum(&mut f, 14, 20, 24);
    f
}

fn valid(buf: &[u8], start: usize, len: usize) -> bool {
    Checksum { data: 0 }.check(buf, start, len)
}

#[test]
fn arp_request_for_host_gets_42_byte_reply() {
    let mut f = arp_request([10, 85, 85, 2]);
    f.extend([0u8; 18]);
    let len = f.len();
    assert_eq!(respond(&mut f, 0, len, &host()), Some(42));
    assert_eq!(&f[0..6], &PEER_MAC);
    assert_eq!(&f[6..12], &HOST_MAC);
    assert_eq!(&f[12..14], &[0x08, 0x06]);
    assert_eq!(&f[20..22], &[0x00, 0x02]);
    assert_eq!(&f[22..28], &HOST_MAC);
    assert_eq!(&f[28..32], &[10, 85, 85, 2]);
    assert_eq!(&f[32..38], &PEER_MAC);
    assert_eq!(&f[38..42], &[10, 85, 85, 5]);
    assert_eq!(&f[42..], &[0u8; 18]);
}

#[test]
fn arp_request_for_other_host_is_ignored() {
    let mut f = arp_request([10, 85, 85, 9]);
    let before = f.clone();
    assert_eq!(respond(&mut f, 0, 42, &host()), None);
    assert_eq!(f, before);
}

#[test]
fn arp_reply_is_not_answered() {
    let mut f = arp_request([10, 85, 85, 2]);
    f[21] = 0x02;
    let before = f.clone();
    assert_eq!(respond(&mut f, 0, 42, &host()), None);
    assert_eq!(f, before);
}

#[test]
fn short_arp_frame_is_ignored() {
    let mut f = arp_request([10, 85, 85, 2]);
    assert_eq!(respond(&mut f, 0, 41, &host()), None);
}

#[test]
fn echo_request_gets_reply_with_valid_checksums() {
    let mut f = echo_request();
    assert!(valid(&f, 14, 20));
    assert!(valid(&f, 34, 64));
    let payload = f[42..].to_vec();
    f.extend([0xde, 0xad, 0xbe, 0xef]);
    assert_eq!(respond(&mut f, 0, 102, &host()), Some(98));
    assert_eq!(&f[0..6], &PEER_MAC);
    assert_eq!(&f[6..12], &HOST_MAC);
    assert_eq!(&f[26..30], &[10, 85, 85, 2]);
    assert_eq!(&f[30..34], &[10, 85, 85, 5]);
    assert_eq!(f[34], 0x00);
    assert_eq!(&f[38..42], &[0x00, 0x07, 0x00, 0x01]);
    assert_eq!(&f[42..98], &payload[..]);
    assert_eq!(&f[98..], &[0xde, 0xad, 0xbe, 0xef]);
    assert!(valid(&f, 14, 20));
    assert!(valid(&f, 34, 64));
}

#[test]
fn echo_checksums_change_with_the_reply() {
    let mut f = echo_request();
    let icmp_before = [f[36], f[37]];
    respond(&mut f, 0, 98, &host());
    assert_ne!([f[36], f[37]], icmp_before);
}

#[test]
fn echo_request_for_other_host_is_ignored() {
    let mut f = echo_request();
    f[33] = 7;
    let before = f.clone();
    assert_eq!(respond(&mut f, 0, 98, &host()), None);
    assert_eq!(f, before);
}

#[test]
fn echo_reply_is_not_answered() {
    let mut f = echo_request();
    f[34] = 0x00;
    let before = f.clone();
    assert_eq!(respond(&mut f, 0, 98, &host()), None);
    assert_eq!(f, before);
}

#[test]
fn echo_request_longer_than_frame_is_ignored() {
    let mut f = echo_request();
    assert_eq!(respond(&mut f, 0, 97, &host()), None);
}

#[test]
fn decode_arp() {
    let f = arp_request([10, 85, 85, 2]);
    match decode_frame(&f, 0, 42) {
        Frame::Arp(e, a) => {
            assert_eq!(e.dst.bytes, [0xff; 6]);
            assert_eq!(e.src.bytes, PEER_MAC);
            assert_eq!(e._type, 0x0806);
            assert_eq!(a.htype, 1);
            assert_eq!(a.ptype, 0x0800);
            assert_eq!((a.hlen, a.plen), (6, 4));
            assert_eq!(a.oper, 1);
            assert_eq!(a.src_ip.bytes, [10, 85, 85, 5]);
            assert_eq!(a.dst_ip.bytes, [10, 85, 85, 2]);
        }
        _ => panic!("not decoded as ARP"),
    }
}

#[test]
fn decode_icmp() {
    let f = echo_request();
    match decode_frame(&f, 0, 98) {
        Frame::Icmp(_, ip, icmp) => {
            assert_eq!(ip.ver_hlen, 0x45);
            assert_eq!(ip.len, 84);
            assert_eq!(ip.id, 0x1234);
            assert_eq!(ip.flags_fragment, 0x4000);
            assert_eq!(ip.ttl, 64);
            assert_eq!(ip.proto, 1);
            assert_eq!(ip.header_len(), 20);
            assert_eq!(icmp._type, 8);
            assert_eq!(icmp.data, [0x00, 0x07, 0x00, 0x01]);
        }
        _ => panic!("not decoded as ICMP"),
    }
}

#[test]
fn decode_tcp_and_udp() {
    let mut f = echo_request();
    f[23] = 0x06;
    f[34..38].copy_from_slice(&[0x1f, 0x90, 0x00, 0x50]);
    match decode_frame(&f, 0, 98) {
        Frame::Tcp(_, _, t) => {
            assert_eq!(t.src, [0x1f, 0x90]);
            assert_eq!(t.dst, [0x00, 0x50]);
        }
        _ => panic!("not decoded as TCP"),
    }
    f[23] = 0x11;
    match decode_frame(&f, 0, 98) {
        Frame::Udp(_, _, u) => assert_eq!(u.len, 0x0007),
        _ => panic!("not decoded as UDP"),
    }
    f[23] = 0x02;
    assert!(matches!(decode_frame(&f, 0, 98), Frame::Ipv4(..)));
}

#[test]
fn decode_ipv6_udp() {
    let mut f = HOST_MAC.to_vec();
    f.extend(PEER_MAC);
    f.extend([0x86, 0xDD, 0x60, 0, 0, 0, 0x00, 0x08, 0x11, 0x40]);
    f.extend([0xfe; 16]);
    f.extend([0xff; 16]);
    f.extend([0x02, 0x22, 0x02, 0x23, 0x00, 0x08, 0x00, 0x00]);
    match decode_frame(&f, 0, f.len()) {
        Frame::Ipv6Udp(_, ip, u) => {
            assert_eq!(ip.version, 0x6000_0000);
            assert_eq!(ip.len, 8);
            assert_eq!(ip.hop_limit, 0x40);
            assert_eq!(ip.src.bytes, [0xfe; 16]);
            assert_eq!(u.src, [0x02, 0x22]);
            assert_eq!(u.dst, [0x02, 0x23]);
        }
        _ => panic!("not decoded as IPv6/UDP"),
    }
    f[20] = 0x3a;
    assert!(matches!(decode_frame(&f, 0, f.len()), Frame::Ipv6(..)));
}

#[test]
fn decode_unknown_and_short() {
    let mut f = echo_request();
    f[12] = 0x88;
    f[13] = 0xcc;
    assert!(matches!(decode_frame(&f, 0, 98), Frame::Unknown));
    assert!(matches!(decode_frame(&f, 0, 10), Frame::Unknown));
}

#[test]
fn ipv4_addr_equals() {
    let a = IPv4Addr { bytes: [10, 85, 85, 2] };
    assert!(a.equals(IPv4Addr { bytes: [10, 85, 85, 2] }));
    assert!(!a.equals(IPv4Addr { bytes: [10, 85, 85, 3] }));
    assert!(!a.equals(IPv4Addr { bytes: [11, 85, 85, 2] }));
}
