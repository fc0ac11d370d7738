//! The circular-receive-buffer NIC: register programs, transmit slot
//! rotation, and the receive cursor discipline.
use vstd::prelude::*;
use vstd::arithmetic::div_mod::lemma_add_mod_noop;
use crate::addr::HostConfig;
use crate::bytes::{le16, read_le16};
use crate::dispatch::{decode_frame, frame_kind, respond, response, Frame, FrameKind};

verus! {

/// Size of the receive ring; cursors wrap at this value.
pub const RX_RING_LEN: u32 = 8192;
/// The hardware CAPR register trails the software read cursor by this much.
pub const CAPR_SKEW: u32 = 16;

pub const REG_TX_STATUS: u16 = 0x10;
pub const REG_TX_ADDR: u16 = 0x20;
pub const REG_RX_BUFFER: u16 = 0x30;
pub const REG_COMMAND: u16 = 0x37;
pub const REG_CAPR: u16 = 0x38;
pub const REG_CBR: u16 = 0x3A;
pub const REG_INT_MASK: u16 = 0x3C;
pub const REG_INT_STATUS: u16 = 0x3E;
pub const REG_RX_CONFIG: u16 = 0x44;
pub const REG_CONFIG1: u16 = 0x52;

pub const CMD_RESET: u8 = 0x10;
pub const CMD_RX_TX_ENABLE: u8 = 0x0C;
pub const INT_RX_OK: u16 = 0x0001;
/// Accept all, physical-match, multicast and broadcast frames; wrap mode.
pub const RX_CONFIG: u32 = 0x8F;
/// Transmit lengths are 13 bits wide.
pub const TX_LEN_MASK: u32 = 0x1FFF;

/// One write to an I/O port, of the given width.
#[derive(PartialEq, Eq, Structural, Copy, Clone, Debug)]
pub enum PortOp {
    Out8(u16, u8),
    Out16(u16, u16),
    Out32(u16, u32),
}

/// A handle on one RTL8139: where its registers and its receive ring are,
/// and which of the four transmit slots comes next.
pub struct RTL8139 {
    pub base: usize,
    pub memory_mapped: bool,
    pub receive_buffer: usize,
    pub tx: u16,
}

/// The two register writes that hand one frame to the transmitter.
#[derive(PartialEq, Eq, Structural, Copy, Clone, Debug)]
pub struct TxWrite {
    pub addr_port: u16,
    pub addr: u32,
    pub status_port: u16,
    pub status: u32,
}

/// What the bounded wait for the end of a software reset does next.
#[derive(PartialEq, Eq, Structural, Copy, Clone, Debug)]
pub enum ResetPoll {
    Ready,
    /// Poll again, with this many polls left.
    Retry(u32),
    HardwareNotReady,
}

/// The port `off` bytes above `base`, in the 16-bit I/O space.
pub open spec fn port_at(base: usize, off: int) -> u16 {
    ((base as int + off) % 0x10000) as u16
}

/// The read cursor after consuming a frame of `frame_len` bytes at `capr`:
/// past the frame and its 4-byte header, rounded up to a multiple of four,
/// wrapped at the ring size.
pub open spec fn spec_next_capr(capr: u16, frame_len: u16) -> u16 {
    ((((capr as u32 + frame_len as u32 + 4 + 3) as u32) & !3u32) % 8192) as u16
}

/// The value written to the CAPR register for read cursor `capr`.
pub open spec fn spec_capr_register(capr: u16) -> u16 {
    ((capr as int + 0x10000 - 16) % 0x10000) as u16
}

/// Advances the read cursor past the frame at `capr`.
pub fn next_capr(capr: u16, frame_len: u16) -> (r: u16)
    ensures
        r == spec_next_capr(capr, frame_len),
        r as int == ((capr as int + frame_len as int + 7) / 4 * 4) % 8192,
        r < 8192,
        r % 4 == 0,
{
    let x: u32 = capr as u32 + frame_len as u32 + 4 + 3;
    let y: u32 = x & !3u32;
    assert(y == x - x % 4) by (bit_vector)
        requires
            y == x & !3u32,
    ;
    assert(x / 4 * 4 == x - x % 4);
    let r = (y % RX_RING_LEN) as u16;
    assert(y % 4 == 0);
    assert(r % 4 == 0) by {
        vstd::arithmetic::div_mod::lemma_mod_mod(y as int, 4, 2048);
    }
    r
}

/// The CAPR register value for read cursor `capr`: sixteen less, modulo
/// the register's width.
pub fn capr_register(capr: u16) -> (r: u16)
    ensures
        r == spec_capr_register(capr),
        (r as int + 16) % 0x10000 == capr,
{
    capr.wrapping_sub(16)
}

/// The read cursor that the CAPR register value `register` stands for.
pub fn rx_start(register: u16) -> (r: u16)
    ensures
        r as int == (register as int + 16) % 0x10000,
        spec_capr_register(r) == register,
{
    register.wrapping_add(16)
}

/// The length field of the receive header at `capr` (its bytes 2 and 3,
/// little-endian).
pub open spec fn stored_frame_len(s: Seq<u8>, capr: int) -> u16 {
    le16(s, capr + 2)
}

/// How many bytes of the frame at `capr` are handed to the dispatcher: all
/// of them where the frame lies within the buffer, none otherwise.
pub open spec fn dispatched_len(s: Seq<u8>, capr: int) -> int {
    if capr + 4 <= s.len() && capr + 4 + stored_frame_len(s, capr) <= s.len() {
        stored_frame_len(s, capr) as int
    } else {
        0
    }
}

/// The outcome of consuming one frame from the receive ring.
pub struct RxStep {
    /// The frame as it was received.
    pub frame: Frame,
    /// The read cursor the frame was consumed at.
    pub capr: u16,
    /// The length the receive header gives.
    pub frame_len: u16,
    /// Where the frame starts in the ring.
    pub offset: usize,
    /// Bytes to transmit from `offset`, where a reply was written in place.
    pub reply: Option<usize>,
    pub next_capr: u16,
    pub capr_register: u16,
}

/// Consumes the frame at read cursor `capr`: decodes it, answers it in
/// place where it asks for a reply, and advances the cursor past it.
pub fn handle_frame(buf: &mut [u8], capr: u16, host: &HostConfig) -> (r: RxStep)
    ensures
        r.frame_len == header_frame_len(old(buf)@, capr),
        r.offset == capr + 4,
        r.capr == capr,
        r.frame.kind() == frame_kind(old(buf)@, capr + 4, dispatched_len(old(buf)@, capr as int)),
        dispatched_len(old(buf)@, capr as int) > 0 ==> r.frame.decoded_from(old(buf)@, capr + 4),
        (final(buf)@, r.reply) == response(
            old(buf)@,
            capr + 4,
            dispatched_len(old(buf)@, capr as int),
            *host,
        ),
        r.next_capr == spec_next_capr(capr, r.frame_len),
        r.capr_register == spec_capr_register(r.next_capr),
{
    let n = buf.len();
    let at = capr as usize;
    let offset = at + 4;
    let mut frame_len: u16 = 0;
    let mut len: usize = 0;
    if offset <= n {
        frame_len = read_le16(buf, at + 2);
        if frame_len as usize <= n - offset {
            len = frame_len as usize;
        }
    }
    let frame = if len > 0 {
        decode_frame(buf, offset, len)
    } else {
        Frame::Unknown
    };
    proof {
        if len == 0 {
            assert(frame_kind(buf@, offset as int, 0) == FrameKind::Unknown);
        }
    }
    let reply = if offset <= n {
        respond(buf, offset, len, host)
    } else {
        None
    };
    let next = next_capr(capr, frame_len);
    RxStep { frame, capr, frame_len, offset, reply, next_capr: next, capr_register: capr_register(next) }
}

/// The length field a cursor reads: none where the header is past the end.
pub open spec fn header_frame_len(s: Seq<u8>, capr: u16) -> u16 {
    if capr + 4 <= s.len() {
        stored_frame_len(s, capr as int)
    } else {
        0
    }
}

/// One consumed frame: where, its length field, where next, and the reply
/// sent, if any.
pub open spec fn rx_event(s: Seq<u8>, capr: u16, host: HostConfig) -> (u16, u16, u16, Option<usize>) {
    (
        capr,
        header_frame_len(s, capr),
        spec_next_capr(capr, header_frame_len(s, capr)),
        response(s, capr + 4, dispatched_len(s, capr as int), host).1,
    )
}

/// The receive ring after consuming the frame at `capr`.
pub open spec fn rx_after(s: Seq<u8>, capr: u16, host: HostConfig) -> Seq<u8> {
    response(s, capr + 4, dispatched_len(s, capr as int), host).0
}

/// Consuming frames from `capr` until the cursor meets `cbr`, for at most
/// `fuel` frames: the ring afterwards, and each frame's event in order.
pub open spec fn drain(s: Seq<u8>, capr: u16, cbr: u16, host: HostConfig, fuel: nat) -> (
    Seq<u8>,
    Seq<(u16, u16, u16, Option<usize>)>,
)
    decreases fuel,
{
    if fuel == 0 || capr == cbr {
        (s, seq![])
    } else {
        let e = rx_event(s, capr, host);
        let rest = drain(rx_after(s, capr, host), e.2, cbr, host, (fuel - 1) as nat);
        (rest.0, seq![e] + rest.1)
    }
}

/// A pass consumes frames at a chain of cursors: it starts at the read
/// cursor, each frame starts where the previous one ended, no frame is
/// taken at the write cursor, and a pass that stops short of its bound
/// stops exactly at the write cursor.
pub proof fn lemma_drain_chain(s: Seq<u8>, capr: u16, cbr: u16, host: HostConfig, fuel: nat)
    ensures
        drain(s, capr, cbr, host, fuel).1.len() <= fuel,
        drain(s, capr, cbr, host, fuel).1.len() > 0 ==> drain(s, capr, cbr, host, fuel).1[0].0
            == capr,
        forall|i: int|
            0 <= i < drain(s, capr, cbr, host, fuel).1.len() - 1 ==> (#[trigger] drain(
                s,
                capr,
                cbr,
                host,
                fuel,
            ).1[i]).2 == drain(s, capr, cbr, host, fuel).1[i + 1].0,
        forall|i: int|
            0 <= i < drain(s, capr, cbr, host, fuel).1.len() ==> (#[trigger] drain(
                s,
                capr,
                cbr,
                host,
                fuel,
            ).1[i]).0 != cbr,
        drain(s, capr, cbr, host, fuel).1.len() < fuel ==> if drain(
            s,
            capr,
            cbr,
            host,
            fuel,
        ).1.len() == 0 {
            capr == cbr
        } else {
            drain(s, capr, cbr, host, fuel).1.last().2 == cbr
        },
    decreases fuel,
{
    if fuel > 0 && capr != cbr {
        let e = rx_event(s, capr, host);
        let s1 = rx_after(s, capr, host);
        let f1 = (fuel - 1) as nat;
        lemma_drain_chain(s1, e.2, cbr, host, f1);
        let rest = drain(s1, e.2, cbr, host, f1).1;
        let all = drain(s, capr, cbr, host, fuel).1;
        assert(all == seq![e] + rest);
        assert forall|i: int| 0 <= i < all.len() - 1 implies (#[trigger] all[i]).2 == all[i + 1].0 by {
            if i > 0 {
                assert(all[i] == rest[i - 1]);
                assert(all[i + 1] == rest[i]);
            }
        }
        assert forall|i: int| 0 <= i < all.len() implies (#[trigger] all[i]).0 != cbr by {
            if i > 0 {
                assert(all[i] == rest[i - 1]);
            }
        }
        if rest.len() > 0 {
            assert(all.last() == rest.last());
        }
    }
}

/// Most frames consumed by one pass over the ring: as many as fit in it.
pub const MAX_FRAMES_PER_PASS: u32 = 2048;

impl RTL8139 {
    pub open spec fn wf(&self) -> bool {
        self.tx < 4
    }

    /// A handle whose first transmission uses slot 0.
    pub fn new(base: usize, memory_mapped: bool, receive_buffer: usize) -> (r: RTL8139)
        ensures
            r.wf(),
            r.base == base,
            r.memory_mapped == memory_mapped,
            r.receive_buffer == receive_buffer,
            r.tx == 0,
    {
        RTL8139 { base, memory_mapped, receive_buffer, tx: 0 }
    }

    /// The I/O port `off` bytes above the register base.
    pub fn port(&self, off: u16) -> (r: u16)
        ensures
            r == port_at(self.base, off as int),
    {
        let low = (self.base % 0x10000) as u32;
        proof {
            lemma_add_mod_noop(self.base as int, off as int, 0x10000);
            vstd::arithmetic::div_mod::lemma_small_mod(off as nat, 0x10000);
        }
        ((low + off as u32) % 0x10000) as u16
    }

    /// The writes that transmit `len` bytes at physical address `ptr`
    /// through the current slot; the next transmission uses the next slot.
    pub fn send(&mut self, ptr: u32, len: usize) -> (r: TxWrite)
        requires
            old(self).wf(),
        ensures
            final(self).wf(),
            final(self).tx == (old(self).tx + 1) % 4,
            final(self).base == old(self).base,
            final(self).memory_mapped == old(self).memory_mapped,
            final(self).receive_buffer == old(self).receive_buffer,
            r.addr_port == port_at(old(self).base, 0x20 + 4 * old(self).tx),
            r.addr == ptr,
            r.status_port == port_at(old(self).base, 0x10 + 4 * old(self).tx),
            r.status == (len as u32) & TX_LEN_MASK,
    {
        let slot = self.tx * 4;
        let w = TxWrite {
            addr_port: self.port(REG_TX_ADDR + slot),
            addr: ptr,
            status_port: self.port(REG_TX_STATUS + slot),
            status: (len as u32) & TX_LEN_MASK,
        };
        self.tx = (self.tx + 1) % 4;
        w
    }

    /// The writes that start a software reset.
    pub fn reset_ops(&self) -> (r: Vec<PortOp>)
        ensures
            r@ == seq![
                PortOp::Out8(port_at(self.base, 0x52), 0),
                PortOp::Out8(port_at(self.base, 0x37), CMD_RESET),
            ],
    {
        let mut v: Vec<PortOp> = Vec::new();
        v.push(PortOp::Out8(self.port(REG_CONFIG1), 0));
        v.push(PortOp::Out8(self.port(REG_COMMAND), CMD_RESET));
        assert(v@ =~= seq![
            PortOp::Out8(port_at(self.base, 0x52), 0),
            PortOp::Out8(port_at(self.base, 0x37), CMD_RESET),
        ]);
        v
    }

    /// The writes, after the reset has completed, that point the device at
    /// its receive ring, zero both cursors, unmask receive-OK, configure
    /// reception and enable the receiver and the transmitter.
    pub fn init(&self) -> (r: Vec<PortOp>)
        ensures
            r@ == seq![
                PortOp::Out32(port_at(self.base, 0x30), self.receive_buffer as u32),
                PortOp::Out16(port_at(self.base, 0x38), 0),
                PortOp::Out16(port_at(self.base, 0x3A), 0),
                PortOp::Out16(port_at(self.base, 0x3C), INT_RX_OK),
                PortOp::Out32(port_at(self.base, 0x44), RX_CONFIG),
                PortOp::Out8(port_at(self.base, 0x37), CMD_RX_TX_ENABLE),
            ],
    {
        let mut v: Vec<PortOp> = Vec::new();
        v.push(PortOp::Out32(self.port(REG_RX_BUFFER), self.receive_buffer as u32));
        v.push(PortOp::Out16(self.port(REG_CAPR), 0));
        v.push(PortOp::Out16(self.port(REG_CBR), 0));
        v.push(PortOp::Out16(self.port(REG_INT_MASK), INT_RX_OK));
        v.push(PortOp::Out32(self.port(REG_RX_CONFIG), RX_CONFIG));
        v.push(PortOp::Out8(self.port(REG_COMMAND), CMD_RX_TX_ENABLE));
        assert(v@ =~= seq![
            PortOp::Out32(port_at(self.base, 0x30), self.receive_buffer as u32),
            PortOp::Out16(port_at(self.base, 0x38), 0),
            PortOp::Out16(port_at(self.base, 0x3A), 0),
            PortOp::Out16(port_at(self.base, 0x3C), INT_RX_OK),
            PortOp::Out32(port_at(self.base, 0x44), RX_CONFIG),
            PortOp::Out8(port_at(self.base, 0x37), CMD_RX_TX_ENABLE),
        ]);
        v
    }

    /// The receive path: consumes the frames between the cursor that the
    /// CAPR register value `capr_reg` stands for and the write cursor `cbr`,
    /// read once, answering each in place where it asks for a reply. The
    /// caller transmits each step's reply and writes its CAPR register
    /// value, in order, then acknowledges the interrupt. At most
    /// `MAX_FRAMES_PER_PASS` frames are consumed; the rest wait for the next
    /// pass.
    pub fn handle(
        &self,
        ring: &mut [u8],
        capr_reg: u16,
        cbr: u16,
        host: &HostConfig,
    ) -> (r: Vec<RxStep>)
        ensures
            final(ring)@ == drain(
                old(ring)@,
                ((capr_reg + 16) % 0x10000) as u16,
                cbr,
                *host,
                MAX_FRAMES_PER_PASS as nat,
            ).0,
            r@.len() == drain(
                old(ring)@,
                ((capr_reg + 16) % 0x10000) as u16,
                cbr,
                *host,
                MAX_FRAMES_PER_PASS as nat,
            ).1.len(),
            forall|i: int|
                0 <= i < r@.len() ==> (#[trigger] r@[i].capr, r@[i].frame_len, r@[i].next_capr, r@[i].reply) == drain(
                    old(ring)@,
                    ((capr_reg + 16) % 0x10000) as u16,
                    cbr,
                    *host,
                    MAX_FRAMES_PER_PASS as nat,
                ).1[i] && r@[i].capr_register == spec_capr_register(r@[i].next_capr)
                    && r@[i].offset == r@[i].capr + 4 && r@[i].capr != cbr,
    {
        let ghost start = ((capr_reg + 16) % 0x10000) as u16;
        let ghost whole = drain(ring@, start, cbr, *host, MAX_FRAMES_PER_PASS as nat);
        let mut capr = rx_start(capr_reg);
        let mut steps: Vec<RxStep> = Vec::new();
        let mut count: u32 = 0;
        while count < MAX_FRAMES_PER_PASS && capr != cbr
            invariant
                count <= MAX_FRAMES_PER_PASS,
                steps@.len() == count,
                whole == drain(old(ring)@, start, cbr, *host, MAX_FRAMES_PER_PASS as nat),
                whole.0 == drain(ring@, capr, cbr, *host, (MAX_FRAMES_PER_PASS - count) as nat).0,
                whole.1 == steps@.map_values(|t: RxStep| (t.capr, t.frame_len, t.next_capr, t.reply)) + drain(
                    ring@,
                    capr,
                    cbr,
                    *host,
                    (MAX_FRAMES_PER_PASS - count) as nat,
                ).1,
                forall|i: int|
                    0 <= i < steps@.len() ==> #[trigger] steps@[i].capr_register
                        == spec_capr_register(steps@[i].next_capr) && steps@[i].offset
                        == steps@[i].capr + 4 && steps@[i].capr != cbr,
            decreases MAX_FRAMES_PER_PASS - count,
        {
            let ghost before = ring@;
            let ghost rest = drain(before, capr, cbr, *host, (MAX_FRAMES_PER_PASS - count) as nat);
            let step = handle_frame(ring, capr, host);
            proof {
                let e = rx_event(before, capr, *host);
                assert(e == (step.capr, step.frame_len, step.next_capr, step.reply));
                let tail = drain(ring@, step.next_capr, cbr, *host, (MAX_FRAMES_PER_PASS - count - 1) as nat);
                assert(rest.1 == seq![e] + tail.1);
                let old_prefix = steps@.map_values(|t: RxStep| (t.capr, t.frame_len, t.next_capr, t.reply));
                let new_steps = steps@.push(step);
                let new_prefix = new_steps.map_values(|t: RxStep| (t.capr, t.frame_len, t.next_capr, t.reply));
                assert(new_prefix =~= old_prefix.push(e));
                assert(old_prefix + (seq![e] + tail.1) =~= new_prefix + tail.1);
            }
            capr = step.next_capr;
            steps.push(step);
            count = count + 1;
        }
        proof {
            let m = steps@.map_values(|t: RxStep| (t.capr, t.frame_len, t.next_capr, t.reply));
            assert(whole.1 =~= m);
            assert forall|i: int| 0 <= i < steps@.len() implies (#[trigger] steps@[i].capr,
                steps@[i].frame_len, steps@[i].next_capr, steps@[i].reply) == whole.1[i]
                && steps@[i].capr_register == spec_capr_register(steps@[i].next_capr)
                && steps@[i].offset == steps@[i].capr + 4 && steps@[i].capr != cbr by {
                assert(m[i] == (steps@[i].capr, steps@[i].frame_len, steps@[i].next_capr, steps@[i].reply));
                assert(steps@[i].capr_register == spec_capr_register(steps@[i].next_capr));
            }
        }
        steps
    }

    /// The write that acknowledges the receive-OK interrupt.
    pub fn ack_ops(&self) -> (r: PortOp)
        ensures
            r == PortOp::Out16(port_at(self.base, 0x3E), INT_RX_OK),
    {
        PortOp::Out16(self.port(REG_INT_STATUS), INT_RX_OK)
    }
}

/// One poll of the command register while a reset is in progress: done
/// once the device clears the reset bit; otherwise poll again while polls
/// are left, and give up when none are.
pub fn reset_poll(command: u8, polls_left: u32) -> (r: ResetPoll)
    ensures
        command & CMD_RESET == 0 ==> r == ResetPoll::Ready,
        command & CMD_RESET != 0 && polls_left > 0 ==> r == ResetPoll::Retry((polls_left - 1) as u32),
        command & CMD_RESET != 0 && polls_left == 0 ==> r == ResetPoll::HardwareNotReady,
{
    if command & CMD_RESET == 0 {
        ResetPoll::Ready
    } else if polls_left > 0 {
        ResetPoll::Retry(polls_left - 1)
    } else {
        ResetPoll::HardwareNotReady
    }
}

} // verus!
