//! The descriptor-ring NIC: register access targets, read-modify-write
//! values, the initialisation program and the receive descriptor ring.
use vstd::prelude::*;
use crate::addr::MACAddr;

verus! {

pub const CTRL: u32 = 0x00;
pub const CTRL_LRST: u32 = 0x8;
pub const CTRL_ASDE: u32 = 0x20;
pub const CTRL_SLU: u32 = 0x40;
pub const CTRL_ILOS: u32 = 0x80;
pub const CTRL_VME: u32 = 0x4000_0000;
pub const CTRL_PHY_RST: u32 = 0x8000_0000;

pub const STATUS: u32 = 0x08;

pub const FCAL: u32 = 0x28;
pub const FCAH: u32 = 0x2C;
pub const FCT: u32 = 0x30;
pub const FCTTV: u32 = 0x170;

pub const IMS: u32 = 0xD0;
pub const IMS_LSC: u32 = 0x4;
pub const IMS_RXSEQ: u32 = 0x8;
pub const IMS_RXDMT: u32 = 0x10;
pub const IMS_RX: u32 = 0x40;
pub const IMS_RXT: u32 = 0x80;
/// Link status change, receive sequence error, descriptor minimum
/// threshold, receive, receive timer.
pub const IMS_RECEIVE: u32 = IMS_RXT | IMS_RX | IMS_RXDMT | IMS_RXSEQ | IMS_LSC;

pub const RCTL: u32 = 0x100;
pub const RCTL_EN: u32 = 0x2;
pub const RCTL_LPE: u32 = 0x20;
pub const RCTL_LBM: u32 = 0xC0;
pub const RCTL_BAM: u32 = 0x8000;
pub const RCTL_BSIZE: u32 = 0x3_0000;
pub const RCTL_BSEX: u32 = 0x200_0000;
pub const RCTL_SECRC: u32 = 0x400_0000;

pub const RDBAL: u32 = 0x2800;
pub const RDBAH: u32 = 0x2804;
pub const RDLEN: u32 = 0x2808;
pub const RDH: u32 = 0x2810;
pub const RDT: u32 = 0x2818;

pub const RAL0: u32 = 0x5400;
pub const RAH0: u32 = 0x5404;

/// Number of receive descriptors.
pub const RX_DESCRIPTORS: usize = 4096;
/// Size of one receive descriptor, in bytes.
pub const RX_DESCRIPTOR_LEN: usize = 16;
/// Size of the packet buffer behind each descriptor.
pub const RX_BUFFER_LEN: usize = 4096;
/// Size of the descriptor ring, in bytes.
pub const RX_RING_BYTES: u32 = 0x10000;

/// One access through the register port.
#[derive(PartialEq, Eq, Structural, Copy, Clone, Debug)]
pub enum RegOp {
    Read(u32),
    Write(u32, u32),
    /// Read the register, then write it back with the mask set or cleared.
    Flag(u32, u32, bool),
}

/// Where an access to one register goes.
#[derive(PartialEq, Eq, Structural, Copy, Clone, Debug)]
pub enum RegTarget {
    /// A 32-bit memory cell at this address.
    Memory(usize),
    /// Write the register offset to `index`, then move the data through `data`.
    Port { index: u16, data: u16 },
}

/// A handle on one Intel 8254x: where its registers are, and how they are
/// reached.
#[derive(Copy, Clone, Debug)]
pub struct Intel8254x {
    pub base: usize,
    pub memory_mapped: bool,
}

/// The value a flag operation writes back.
pub open spec fn spec_flag_value(current: u32, mask: u32, enable: bool) -> u32 {
    if enable {
        current | mask
    } else {
        current & !mask
    }
}

/// The value a flag operation writes back: `current` with `mask` set when
/// `enable`, cleared otherwise.
pub fn flag_value(current: u32, mask: u32, enable: bool) -> (r: u32)
    ensures
        r == spec_flag_value(current, mask, enable),
        enable ==> r & mask == mask,
        !enable ==> r & mask == 0,
        r & !mask == current & !mask,
{
    if enable {
        let r = current | mask;
        assert(r & mask == mask && r & !mask == current & !mask) by (bit_vector)
            requires
                r == current | mask,
        ;
        r
    } else {
        let r = current & !mask;
        assert(r & mask == 0 && r & !mask == current & !mask) by (bit_vector)
            requires
                r == current & !mask,
        ;
        r
    }
}

/// The receive-address-low value for a hardware address: its first four
/// bytes, the first in the lowest position.
pub open spec fn spec_ral(b: Seq<u8>) -> u32 {
    (b[0] as nat + b[1] as nat * 0x100 + b[2] as nat * 0x1_0000 + b[3] as nat * 0x100_0000) as u32
}

/// The receive-address-high value for a hardware address: its last two
/// bytes, the first in the lowest position.
pub open spec fn spec_rah(b: Seq<u8>) -> u32 {
    (b[4] as nat + b[5] as nat * 0x100) as u32
}

/// The register accesses that bring the device up, in order, for a
/// receive filter address and a descriptor ring at `ring`.
pub open spec fn init_program(filter: Seq<u8>, ring: u32) -> Seq<RegOp> {
    seq![
        RegOp::Read(CTRL),
        RegOp::Read(STATUS),
        RegOp::Read(IMS),
        RegOp::Flag(CTRL, CTRL_ASDE | CTRL_SLU, true),
        RegOp::Flag(CTRL, CTRL_LRST, false),
        RegOp::Flag(CTRL, CTRL_PHY_RST, false),
        RegOp::Flag(CTRL, CTRL_ILOS, false),
        RegOp::Write(FCAH, 0),
        RegOp::Write(FCAL, 0),
        RegOp::Write(FCT, 0),
        RegOp::Write(FCTTV, 0),
        RegOp::Flag(CTRL, CTRL_VME, false),
        RegOp::Write(RAL0, spec_ral(filter)),
        RegOp::Write(RAH0, spec_rah(filter)),
        RegOp::Write(IMS, IMS_RECEIVE),
        RegOp::Write(RDBAH, 0),
        RegOp::Write(RDBAL, ring),
        RegOp::Write(RDLEN, RX_RING_BYTES),
        RegOp::Write(RDH, 0),
        RegOp::Write(RDT, RX_RING_BYTES),
        RegOp::Flag(RCTL, RCTL_EN, true),
        RegOp::Flag(RCTL, RCTL_LPE, true),
        RegOp::Flag(RCTL, RCTL_LBM, false),
        RegOp::Flag(RCTL, RCTL_BAM, true),
        RegOp::Flag(RCTL, RCTL_BSIZE, true),
        RegOp::Flag(RCTL, RCTL_BSEX, true),
        RegOp::Flag(RCTL, RCTL_SECRC, true),
        RegOp::Write(IMS, IMS_RECEIVE),
        RegOp::Read(CTRL),
        RegOp::Read(STATUS),
        RegOp::Read(IMS),
    ]
}

/// Byte `k` (from the least significant) of `v`.
pub open spec fn byte_of(v: u64, k: int) -> u8 {
    ((v as nat / pow256(k)) % 256) as u8
}

pub open spec fn pow256(k: int) -> nat
    decreases k,
{
    if k <= 0 {
        1
    } else {
        256 * pow256(k - 1)
    }
}

proof fn lemma_pow256_positive(k: int)
    ensures
        pow256(k) > 0,
    decreases k,
{
    if k > 0 {
        lemma_pow256_positive(k - 1);
    }
}

impl Intel8254x {
    /// Where an access to `register` goes: the mapped memory cell, or the
    /// index/data port pair at the base.
    pub fn target(&self, register: u32) -> (r: RegTarget)
        requires
            self.memory_mapped ==> self.base + register <= usize::MAX,
        ensures
            self.memory_mapped ==> r == RegTarget::Memory((self.base + register) as usize),
            !self.memory_mapped ==> r == (RegTarget::Port {
                index: (self.base % 0x10000) as u16,
                data: ((self.base + 4) % 0x10000) as u16,
            }),
    {
        if self.memory_mapped {
            RegTarget::Memory(self.base + register as usize)
        } else {
            let index = (self.base % 0x10000) as u16;
            let data = ((self.base % 0x10000 + 4) % 0x10000) as u16;
            proof {
                vstd::arithmetic::div_mod::lemma_add_mod_noop(self.base as int, 4, 0x10000);
            }
            RegTarget::Port { index, data }
        }
    }

    /// The register program that brings the device up, answering to
    /// `filter` and receiving into the descriptor ring at `ring`.
    pub fn init(&self, filter: &MACAddr, ring: u32) -> (r: Vec<RegOp>)
        ensures
            r@ == init_program(filter.bytes@, ring),
    {
        let b = &filter.bytes;
        let ral: u32 = b[0] as u32 + b[1] as u32 * 0x100 + b[2] as u32 * 0x1_0000 + b[3] as u32
            * 0x100_0000;
        let rah: u32 = b[4] as u32 + b[5] as u32 * 0x100;
        let mut v: Vec<RegOp> = Vec::new();
        v.push(RegOp::Read(CTRL));
        v.push(RegOp::Read(STATUS));
        v.push(RegOp::Read(IMS));
        v.push(RegOp::Flag(CTRL, CTRL_ASDE | CTRL_SLU, true));
        v.push(RegOp::Flag(CTRL, CTRL_LRST, false));
        v.push(RegOp::Flag(CTRL, CTRL_PHY_RST, false));
        v.push(RegOp::Flag(CTRL, CTRL_ILOS, false));
        v.push(RegOp::Write(FCAH, 0));
        v.push(RegOp::Write(FCAL, 0));
        v.push(RegOp::Write(FCT, 0));
        v.push(RegOp::Write(FCTTV, 0));
        v.push(RegOp::Flag(CTRL, CTRL_VME, false));
        v.push(RegOp::Write(RAL0, ral));
        v.push(RegOp::Write(RAH0, rah));
        v.push(RegOp::Write(IMS, IMS_RECEIVE));
        v.push(RegOp::Write(RDBAH, 0));
        v.push(RegOp::Write(RDBAL, ring));
        v.push(RegOp::Write(RDLEN, RX_RING_BYTES));
        v.push(RegOp::Write(RDH, 0));
        v.push(RegOp::Write(RDT, RX_RING_BYTES));
        v.push(RegOp::Flag(RCTL, RCTL_EN, true));
        v.push(RegOp::Flag(RCTL, RCTL_LPE, true));
        v.push(RegOp::Flag(RCTL, RCTL_LBM, false));
        v.push(RegOp::Flag(RCTL, RCTL_BAM, true));
        v.push(RegOp::Flag(RCTL, RCTL_BSIZE, true));
        v.push(RegOp::Flag(RCTL, RCTL_BSEX, true));
        v.push(RegOp::Flag(RCTL, RCTL_SECRC, true));
        v.push(RegOp::Write(IMS, IMS_RECEIVE));
        v.push(RegOp::Read(CTRL));
        v.push(RegOp::Read(STATUS));
        v.push(RegOp::Read(IMS));
        assert(v@ =~= init_program(filter.bytes@, ring));
        v
    }
}

/// Stores the address of each packet buffer, least significant byte
/// first, in the low eight bytes of its receive descriptor.
pub fn fill_descriptor_ring(ring: &mut [u8], buffers: &[u64])
    requires
        old(ring)@.len() == 16 * buffers@.len(),
    ensures
        final(ring)@.len() == old(ring)@.len(),
        forall|j: int|
            0 <= j < final(ring)@.len() ==> #[trigger] final(ring)@[j] == if j % 16 < 8 {
                byte_of(buffers@[j / 16], j % 16)
            } else {
                old(ring)@[j]
            },
{
    let n = buffers.len();
    let total = ring.len();
    let mut i: usize = 0;
    while i < n
        invariant
            n == buffers@.len(),
            total == ring@.len(),
            total == 16 * n,
            i <= n,
            ring@.len() == old(ring)@.len(),
            forall|j: int|
                0 <= j < ring@.len() ==> #[trigger] ring@[j] == if j < 16 * i && j % 16 < 8 {
                    byte_of(buffers@[j / 16], j % 16)
                } else {
                    old(ring)@[j]
                },
        decreases n - i,
    {
        let v = buffers[i];
        let mut x: u64 = v;
        let mut k: usize = 0;
        assert(pow256(0) == 1);
        while k < 8
            invariant
                n == buffers@.len(),
                total == ring@.len(),
                total == 16 * n,
                i < n,
                k <= 8,
                v == buffers@[i as int],
                x as nat == v as nat / pow256(k as int),
                ring@.len() == old(ring)@.len(),
                forall|j: int|
                    0 <= j < ring@.len() ==> #[trigger] ring@[j] == if (j < 16 * i && j % 16 < 8)
                        || (16 * i <= j < 16 * i + k) {
                        byte_of(buffers@[j / 16], j % 16)
                    } else {
                        old(ring)@[j]
                    },
            decreases 8 - k,
        {
            ring[16 * i + k] = (x % 256) as u8;
            proof {
                let j = 16 * i + k;
                assert(j / 16 == i && j % 16 == k);
                assert(pow256(k + 1) == 256 * pow256(k as int));
                lemma_pow256_positive(k as int);
                vstd::arithmetic::div_mod::lemma_div_denominator(v as int, pow256(k as int) as int, 256);
            }
            x = x / 256;
            k = k + 1;
        }
        i = i + 1;
    }
}

} // verus!
