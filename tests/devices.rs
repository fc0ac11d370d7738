use netdriver::addr::{HostConfig, IPv4Addr, MACAddr};
use netdriver::dispatch::Frame;
use netdriver::intel8254x::{
    fill_descriptor_ring, flag_value, Intel8254x, RegOp, RegTarget, CTRL, IMS, RAH0, RAL0, RCTL,
    RCTL_SECRC, RDLEN, RDT,
};
use netdriver::pci::{config_address, pci_handle, pci_test, Nic};
use netdriver::rtl8139::{
    capr_register, handle_frame, next_capr, reset_poll, rx_start, PortOp, ResetPoll, RTL8139,
};

fn host() -> HostConfig {
    HostConfig {
        mac: MACAddr { bytes: [0x52, 0x54, 0x00, 0x12, 0x34, 0x56] },
        ip: IPv4Addr { bytes: [10, 85, 85, 2] },
    }
}

#[test]
fn cursor_advances_past_frame_and_header() {
    assert_eq!(next_capr(0, 60), 64);
    assert_eq!(next_capr(0, 64), 68);
    assert_eq!(next_capr(64, 61), 132);
    assert_eq!(next_capr(8188, 60), 60);
    assert_eq!(next_capr(8000, 188), 0);
}

#[test]
fn cursor_matches_formula_for_many_pairs() {
    for capr in (0u32..8192).step_by(52) {
        for len in [0u32, 1, 2, 3, 59, 60, 64, 1514, 1518, 65535] {
            let expect = ((capr + len + 4 + 3) & !3u32) % 8192;
            let got = next_capr(capr as u16, len as u16);
            assert_eq!(got as u32, expect);
            assert_eq!(capr_register(got), (got as u32 + 0x10000 - 16) as u16);
        }
    }
}

#[test]
fn capr_register_trails_cursor_by_sixteen() {
    assert_eq!(capr_register(64), 48);
    assert_eq!(capr_register(0), 0xFFF0);
    assert_eq!(rx_start(0xFFF0), 0);
    assert_eq!(rx_start(48), 64);
}

#[test]
fn arp_request_in_receive_ring_is_answered() {
    let mut ring = vec![0u8; 8192 + 16 + 1536];
    let mut frame = vec![0xff; 6];
    frame.extend([0x52, 0x54, 0x00, 0xaa, 0xbb, 0xcc, 0x08, 0x06]);
    frame.extend([0x00, 0x01, 0x08, 0x00, 6, 4, 0x00, 0x01]);
    frame.extend([0x52, 0x54, 0x00, 0xaa, 0xbb, 0xcc, 10, 85, 85, 5]);
    frame.extend([0, 0, 0, 0, 0, 0, 10, 85, 85, 2]);
    frame.extend([0u8; 18]);
    frame.extend([0x12, 0x34, 0x56, 0x78]);
    let capr = rx_start(0xFFF0) as usize;
    ring[capr] = 0x01;
    ring[capr + 1] = 0x00;
    ring[capr + 2] = frame.len() as u8;
    ring[capr + 3] = 0;
    ring[capr + 4..capr + 4 + frame.len()].copy_from_slice(&frame);

    let step = handle_frame(&mut ring, capr as u16, &host());
    assert!(matches!(step.frame, Frame::Arp(..)));
    assert_eq!(step.frame_len, 64);
    assert_eq!(step.offset, 4);
    assert_eq!(step.reply, Some(42));
    let sent = &ring[4..46];
    assert_eq!(&sent[0..6], &[0x52, 0x54, 0x00, 0xaa, 0xbb, 0xcc]);
    assert_eq!(&sent[6..12], &[0x52, 0x54, 0x00, 0x12, 0x34, 0x56]);
    assert_eq!(&sent[20..22], &[0x00, 0x02]);
    assert_eq!(&sent[22..28], &[0x52, 0x54, 0x00, 0x12, 0x34, 0x56]);
    assert_eq!(&sent[28..32], &[10, 85, 85, 2]);
    assert_eq!(&sent[32..38], &[0x52, 0x54, 0x00, 0xaa, 0xbb, 0xcc]);
    assert_eq!(&sent[38..42], &[10, 85, 85, 5]);
    assert_eq!(step.next_capr, 68);
    assert_eq!(step.capr_register, 52);
}

fn put_frame(ring: &mut [u8], at: usize, frame: &[u8]) {
    ring[at] = 0x01;
    ring[at + 1] = 0x00;
    ring[at + 2] = (frame.len() % 256) as u8;
    ring[at + 3] = (frame.len() / 256) as u8;
    ring[at + 4..at + 4 + frame.len()].copy_from_slice(frame);
}

#[test]
fn receive_pass_walks_frames_up_to_write_cursor() {
    let mut ring = vec![0u8; 8192 + 16 + 1536];
    let mut arp = vec![0xff; 6];
    arp.extend([0x52, 0x54, 0x00, 0xaa, 0xbb, 0xcc, 0x08, 0x06]);
    arp.extend([0x00, 0x01, 0x08, 0x00, 6, 4, 0x00, 0x01]);
    arp.extend([0x52, 0x54, 0x00, 0xaa, 0xbb, 0xcc, 10, 85, 85, 5]);
    arp.extend([0, 0, 0, 0, 0, 0, 10, 85, 85, 2]);
    arp.extend([0u8; 22]);
    put_frame(&mut ring, 0, &arp);
    let mut other = vec![0x11u8; 12];
    other.extend([0x88, 0xcc]);
    other.extend([0x22u8; 47]);
    put_frame(&mut ring, 68, &other);

    let nic = RTL8139::new(0xC000, false, 0x2A0000);
    let steps = nic.handle(&mut ring, 0xFFF0, 136, &host());
    assert_eq!(steps.len(), 2);
    assert_eq!((steps[0].capr, steps[0].next_capr, steps[0].capr_register), (0, 68, 52));
    assert_eq!(steps[0].reply, Some(42));
    assert_eq!(&ring[4 + 28..4 + 32], &[10, 85, 85, 2]);
    assert_eq!(&ring[4 + 38..4 + 42], &[10, 85, 85, 5]);
    assert_eq!((steps[1].capr, steps[1].next_capr, steps[1].capr_register), (68, 136, 120));
    assert_eq!(steps[1].frame_len, 61);
    assert!(matches!(steps[1].frame, Frame::Unknown));
    assert_eq!(steps[1].reply, None);
}

#[test]
fn receive_pass_with_nothing_new_does_nothing() {
    let mut ring = vec![0u8; 256];
    let nic = RTL8139::new(0xC000, false, 0x2A0000);
    assert!(nic.handle(&mut ring, 48, 64, &host()).is_empty());
}

#[test]
fn receive_pass_is_bounded() {
    let mut ring = vec![0u8; 8192 + 16 + 1536];
    let nic = RTL8139::new(0xC000, false, 0x2A0000);
    let steps = nic.handle(&mut ring, 0xFFF0, 2, &host());
    assert_eq!(steps.len(), 2048);
    assert_eq!(steps[2047].capr, 8188);
    assert_eq!(steps[2047].next_capr, 0);
}

#[test]
fn frame_past_end_of_ring_is_not_dispatched() {
    let mut ring = vec![0u8; 64];
    ring[2] = 200;
    let step = handle_frame(&mut ring, 0, &host());
    assert!(matches!(step.frame, Frame::Unknown));
    assert_eq!(step.reply, None);
    assert_eq!(step.frame_len, 200);
    assert_eq!(step.next_capr, 204);
    let step = handle_frame(&mut ring, 62, &host());
    assert_eq!(step.frame_len, 0);
    assert_eq!(step.next_capr, 68);
}

#[test]
fn transmit_slots_rotate() {
    let mut nic = RTL8139::new(0xC000, false, 0x2A0000);
    let ports: Vec<(u16, u16)> = (0..5)
        .map(|_| {
            let w = nic.send(0x2A0004, 0x2345);
            assert_eq!(w.addr, 0x2A0004);
            assert_eq!(w.status, 0x0345);
            (w.addr_port, w.status_port)
        })
        .collect();
    assert_eq!(
        ports,
        vec![(0xC020, 0xC010), (0xC024, 0xC014), (0xC028, 0xC018), (0xC02C, 0xC01C), (0xC020, 0xC010)]
    );
    assert_eq!(nic.tx, 1);
}

#[test]
fn rtl8139_init_program() {
    let nic = RTL8139::new(0xC000, false, 0x2A0000);
    assert_eq!(nic.reset_ops(), vec![PortOp::Out8(0xC052, 0), PortOp::Out8(0xC037, 0x10)]);
    assert_eq!(
        nic.init(),
        vec![
            PortOp::Out32(0xC030, 0x2A0000),
            PortOp::Out16(0xC038, 0),
            PortOp::Out16(0xC03A, 0),
            PortOp::Out16(0xC03C, 0x0001),
            PortOp::Out32(0xC044, 0x8F),
            PortOp::Out8(0xC037, 0x0C),
        ]
    );
    assert_eq!(nic.ack_ops(), PortOp::Out16(0xC03E, 0x0001));
}

#[test]
fn reset_wait_is_bounded() {
    assert_eq!(reset_poll(0x00, 5), ResetPoll::Ready);
    assert_eq!(reset_poll(0x0C, 0), ResetPoll::Ready);
    assert_eq!(reset_poll(0x10, 5), ResetPoll::Retry(4));
    assert_eq!(reset_poll(0x10, 0), ResetPoll::HardwareNotReady);
}

#[test]
fn flag_sets_and_clears() {
    assert_eq!(flag_value(0b1010, 0b0110, true), 0b1110);
    assert_eq!(flag_value(0b1010, 0b0110, false), 0b1000);
    assert_eq!(flag_value(0xFFFF_FFFF, 0x8000_0000, false), 0x7FFF_FFFF);
}

#[test]
fn intel_register_targets() {
    let mm = Intel8254x { base: 0xFEBC_0000, memory_mapped: true };
    assert_eq!(mm.target(0x100), RegTarget::Memory(0xFEBC_0100));
    let pm = Intel8254x { base: 0xC000, memory_mapped: false };
    assert_eq!(pm.target(0x100), RegTarget::Port { index: 0xC000, data: 0xC004 });
}

#[test]
fn intel_init_program() {
    let nic = Intel8254x { base: 0xFEBC_0000, memory_mapped: true };
    let ops = nic.init(&MACAddr { bytes: [0x20; 6] }, 0x0030_0000);
    assert_eq!(ops.len(), 31);
    assert_eq!(ops[0], RegOp::Read(CTRL));
    assert_eq!(ops[3], RegOp::Flag(CTRL, 0x60, true));
    assert_eq!(ops[12], RegOp::Write(RAL0, 0x2020_2020));
    assert_eq!(ops[13], RegOp::Write(RAH0, 0x2020));
    assert_eq!(ops[14], RegOp::Write(IMS, 0xDC));
    assert_eq!(ops[16], RegOp::Write(0x2800, 0x0030_0000));
    assert_eq!(ops[17], RegOp::Write(RDLEN, 4096 * 16));
    assert_eq!(ops[19], RegOp::Write(RDT, 4096 * 16));
    assert_eq!(ops[26], RegOp::Flag(RCTL, RCTL_SECRC, true));
    assert_eq!(ops[27], RegOp::Write(IMS, 0xDC));
    let other = nic.init(&MACAddr { bytes: [0x52, 0x54, 0x00, 0x12, 0x34, 0x56] }, 0);
    assert_eq!(other[12], RegOp::Write(RAL0, 0x1200_5452));
    assert_eq!(other[13], RegOp::Write(RAH0, 0x5634));
}

#[test]
fn descriptor_ring_holds_buffer_addresses() {
    let mut ring = vec![0xEEu8; 32];
    fill_descriptor_ring(&mut ring, &[0x0102_0304_0506_0708, 0x1122_3344_5566_7788]);
    assert_eq!(&ring[0..8], &[8, 7, 6, 5, 4, 3, 2, 1]);
    assert_eq!(&ring[8..16], &[0xEE; 8]);
    assert_eq!(&ring[16..24], &[0x88, 0x77, 0x66, 0x55, 0x44, 0x33, 0x22, 0x11]);
    assert_eq!(&ring[24..32], &[0xEE; 8]);
}

#[test]
fn config_address_layout() {
    assert_eq!(config_address(0, 3, 0, 0x10), 0x8000_1810);
    assert_eq!(config_address(0, 31, 0, 0x3F), 0x8000_F83C);
    assert_eq!(config_address(1, 0, 7, 0), 0x8001_0700);
}

fn config_space() -> Vec<u32> {
    let mut cfg = vec![0xFFFF_FFFFu32; 32 * 64];
    // slot 3: Intel 8254x, memory mapped, interrupt line 10
    cfg[3 * 64] = 0x100E_8086;
    cfg[3 * 64 + 4] = 0xFEBC_0000;
    cfg[3 * 64 + 15] = 0x0000_010A;
    // slot 4: RTL8139, port mapped, interrupt line 11
    cfg[4 * 64] = 0x8139_10EC;
    cfg[4 * 64 + 1] = 0x0280_0103;
    cfg[4 * 64 + 4] = 0x0000_C001;
    cfg[4 * 64 + 15] = 0x0000_010B;
    // slot 5: some other device
    cfg[5 * 64] = 0x1234_5678;
    cfg[5 * 64 + 15] = 0x0000_010B;
    cfg
}

#[test]
fn probe_starts_each_supported_nic_once() {
    let probes = pci_test(&config_space(), 0x2A0000);
    assert_eq!(probes.len(), 2);
    assert_eq!(probes[0].slot, 3);
    match &probes[0].nic {
        Nic::Intel8254x(d) => {
            assert_eq!(d.base, 0xFEBC_0000);
            assert!(d.memory_mapped);
        }
        _ => panic!("slot 3 holds the Intel NIC"),
    }
    assert_eq!(probes[0].command, None);
    assert_eq!(probes[1].slot, 4);
    match &probes[1].nic {
        Nic::RTL8139(d) => {
            assert_eq!(d.base, 0xC000);
            assert!(!d.memory_mapped);
            assert_eq!(d.receive_buffer, 0x2A0000);
            assert_eq!(d.tx, 0);
        }
        _ => panic!("slot 4 holds the RTL8139"),
    }
    assert_eq!(probes[1].command, Some(0x0280_0107));
}

#[test]
fn empty_bus_starts_nothing() {
    let cfg = vec![0xFFFF_FFFFu32; 32 * 64];
    assert!(pci_test(&cfg, 0x2A0000).is_empty());
    assert!(pci_handle(&cfg, 11, 0x2A0000).is_empty());
}

#[test]
fn absent_vendor_with_known_device_half_is_skipped() {
    let mut cfg = vec![0xFFFF_FFFFu32; 32 * 64];
    cfg[7 * 64] = 0x100E_FFFF;
    assert!(pci_test(&cfg, 0).is_empty());
}

#[test]
fn interrupt_dispatch_selects_by_line() {
    let cfg = config_space();
    let on_11 = pci_handle(&cfg, 11, 0x2A0000);
    assert_eq!(on_11.len(), 1);
    assert_eq!(on_11[0].slot, 4);
    assert_eq!(on_11[0].command, None);
    let on_10 = pci_handle(&cfg, 10, 0x2A0000);
    assert_eq!(on_10.len(), 1);
    assert_eq!(on_10[0].slot, 3);
    assert!(pci_handle(&cfg, 5, 0x2A0000).is_empty());
}
