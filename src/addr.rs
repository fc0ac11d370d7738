//! Link- and network-layer address values.
use vstd::prelude::*;

verus! {

/// An Ethernet hardware address.
#[derive(Copy, Clone, Debug)]
pub struct MACAddr {
    pub bytes: [u8; 6],
}

/// An IPv4 address, in wire order.
#[derive(Copy, Clone, Debug)]
pub struct IPv4Addr {
    pub bytes: [u8; 4],
}

/// An IPv6 address, in wire order.
#[derive(Copy, Clone, Debug)]
pub struct IPv6Addr {
    pub bytes: [u8; 16],
}

/// The identity this host answers ARP and ICMP echo requests with.
#[derive(Copy, Clone, Debug)]
pub struct HostConfig {
    pub mac: MACAddr,
    pub ip: IPv4Addr,
}

impl MACAddr {
    /// The address stored in `buf[o .. o + 6]`.
    pub fn read(buf: &[u8], o: usize) -> (r: MACAddr)
        requires
            o + 6 <= buf@.len(),
        ensures
            r.bytes@ == buf@.subrange(o as int, o + 6),
    {
        let bytes: [u8; 6] = [buf[o], buf[o + 1], buf[o + 2], buf[o + 3], buf[o + 4], buf[o + 5]];
        assert(bytes@ =~= buf@.subrange(o as int, o + 6));
        MACAddr { bytes }
    }
}

impl IPv4Addr {
    /// The address stored in `buf[o .. o + 4]`.
    pub fn read(buf: &[u8], o: usize) -> (r: IPv4Addr)
        requires
            o + 4 <= buf@.len(),
        ensures
            r.bytes@ == buf@.subrange(o as int, o + 4),
    {
        let bytes: [u8; 4] = [buf[o], buf[o + 1], buf[o + 2], buf[o + 3]];
        assert(bytes@ =~= buf@.subrange(o as int, o + 4));
        IPv4Addr { bytes }
    }

    /// Byte-wise equality.
    pub fn equals(&self, other: IPv4Addr) -> (r: bool)
        ensures
            r == (self.bytes@ == other.bytes@),
    {
        let mut i: usize = 0;
        while i < 4
            invariant
                i <= 4,
                forall|j: int| 0 <= j < i ==> self.bytes@[j] == other.bytes@[j],
            decreases 4 - i,
        {
            if self.bytes[i] != other.bytes[i] {
                return false;
            }
            i = i + 1;
        }
        assert(self.bytes@ =~= other.bytes@);
        true
    }
}

impl IPv6Addr {
    /// The address stored in `buf[o .. o + 16]`.
    pub fn read(buf: &[u8], o: usize) -> (r: IPv6Addr)
        requires
            o + 16 <= buf@.len(),
        ensures
            r.bytes@ == buf@.subrange(o as int, o + 16),
    {
        let mut bytes: [u8; 16] = [0; 16];
        let n = buf.len();
        let mut i: usize = 0;
        while i < 16
            invariant
                i <= 16,
                o + 16 <= buf@.len(),
                n == buf@.len(),
                forall|j: int| 0 <= j < i ==> bytes@[j] == buf@[o + j],
            decreases 16 - i,
        {
            bytes[i] = buf[o + i];
            i = i + 1;
        }
        assert(bytes@ =~= buf@.subrange(o as int, o + 16));
        IPv6Addr { bytes }
    }
}

} // verus!
